//! The static message display has exactly one decision: whether an input
//! event closes it.

use vstd::prelude::*;

use crate::events::KeyCode;
use crate::events::KeyEvent;
use crate::events::KeyEventKind;

verus! {

/// An event quits the display exactly when it is a press of `q` or `Q`.
pub open spec fn quit_requested(e: KeyEvent) -> bool {
    e.kind is Press && (e.code == KeyCode::Char('q') || e.code == KeyCode::Char('Q'))
}

/// Decide whether one input event closes the message display.
pub fn should_quit(e: KeyEvent) -> (r: bool)
    ensures
        r == quit_requested(e),
{
    match e.kind {
        KeyEventKind::Press => match e.code {
            KeyCode::Char(c) => c == 'q' || c == 'Q',
            _ => false,
        },
        KeyEventKind::Release => false,
    }
}

} // verus!
