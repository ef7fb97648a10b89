//! The input events the state machines read: a key code plus whether the key
//! was pressed or released.  Only the codes the transition tables look at are
//! distinguished; every other key is `Other`.

use vstd::prelude::*;

verus! {

/// A key code, as far as the state machines care.
#[derive(Clone, Copy, Debug, PartialEq, Eq, Structural)]
pub enum KeyCode {
    /// A printable character key.
    Char(char),
    Enter,
    Backspace,
    Esc,
    Tab,
    Left,
    Right,
    /// Any key the transition tables never distinguish.
    Other,
}

/// Whether a key event is a press.  Anything that is not a press (a release,
/// a repeat) is mapped to `Release`: the state machines act on presses only.
#[derive(Clone, Copy, Debug, PartialEq, Eq, Structural)]
pub enum KeyEventKind {
    Press,
    Release,
}

/// One input event: a `(code, press_or_release)` pair.
#[derive(Clone, Copy, Debug, PartialEq, Eq, Structural)]
pub struct KeyEvent {
    pub code: KeyCode,
    pub kind: KeyEventKind,
}

impl KeyEvent {
    /// A press of the given key.
    pub fn press(code: KeyCode) -> (r: KeyEvent)
        ensures
            r == (KeyEvent { code, kind: KeyEventKind::Press }),
    {
        KeyEvent { code, kind: KeyEventKind::Press }
    }

    /// A release of the given key.
    pub fn release(code: KeyCode) -> (r: KeyEvent)
        ensures
            r == (KeyEvent { code, kind: KeyEventKind::Release }),
    {
        KeyEvent { code, kind: KeyEventKind::Release }
    }
}

impl From<KeyCode> for KeyEvent {
    /// A bare key code stands for a press of that key.
    fn from(code: KeyCode) -> (r: KeyEvent) {
        KeyEvent { code, kind: KeyEventKind::Press }
    }
}

impl vstd::std_specs::convert::FromSpecImpl<KeyCode> for KeyEvent {
    open spec fn obeys_from_spec() -> bool {
        true
    }

    open spec fn from_spec(code: KeyCode) -> KeyEvent {
        KeyEvent { code, kind: KeyEventKind::Press }
    }
}

} // verus!
