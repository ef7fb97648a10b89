//! The bounded-counter application: a counter stepped up and down by the
//! arrow keys, refusing to pass its bound, and a quit flag set by `q`.
//! The host loop renders and reads events; all decisions are here.

use vstd::prelude::*;
use vstd::string::StringExecFns;

use crate::events::KeyCode;
use crate::events::KeyEvent;

verus! {

/// Why a counter update was refused.
#[derive(Clone, Copy, Debug, PartialEq, Eq, Structural)]
pub enum CounterError {
    /// The counter was stepped past its bound.
    Overflow,
}

impl CounterError {
    /// The error as text, as the host program reports it.
    pub fn message(&self) -> (r: String)
        ensures
            r@ == "counter overflow"@,
    {
        String::from_str("counter overflow")
    }
}

/// The counter application state.
#[derive(Debug)]
pub struct App {
    /// The value shown; stepped by the arrow keys.
    pub counter: u8,
    /// Set once the user asked to quit; the host loop then stops.
    pub exit: bool,
}

impl Default for App {
    /// The starting state: zero, not exiting.
    fn default() -> (r: App)
        ensures
            r.counter == 0,
            !r.exit,
    {
        App { counter: 0, exit: false }
    }
}

impl App {
    /// Mark the app as finished; the host loop stops at its next turn.
    pub fn exit(&mut self)
        ensures
            *final(self) == (App { exit: true, ..*old(self) }),
    {
        self.exit = true;
    }

    /// Step the counter down by one.  Never called at zero: the subtraction
    /// would fail there, so zero is ruled out up front.
    pub fn decrement_counter(&mut self)
        requires
            old(self).counter > 0,
        ensures
            *final(self) == (App { counter: (old(self).counter - 1) as u8, ..*old(self) }),
    {
        self.counter = self.counter - 1;
    }

    /// Step the counter up by one; past 2 the step is refused with an
    /// overflow error (the counter itself has already moved).
    pub fn increment_counter(&mut self) -> (r: Result<(), CounterError>)
        requires
            old(self).counter < 255,
        ensures
            *final(self) == (App { counter: (old(self).counter + 1) as u8, ..*old(self) }),
            r is Ok <==> old(self).counter < 2,
            r is Err ==> r == Err::<(), CounterError>(CounterError::Overflow),
    {
        self.counter = self.counter + 1;
        if self.counter > 2 {
            Err(CounterError::Overflow)
        } else {
            Ok(())
        }
    }

    /// Update the state for one pressed key: `q` asks to quit, Left steps
    /// the counter down, Right steps it up, anything else is a no-op.
    pub fn handle_key_event(&mut self, key_event: KeyEvent) -> (r: Result<(), CounterError>)
        requires
            key_event.code is Left ==> old(self).counter > 0,
            key_event.code is Right ==> old(self).counter < 255,
        ensures
            match key_event.code {
                KeyCode::Char(c) => r is Ok && if c == 'q' {
                    *final(self) == (App { exit: true, ..*old(self) })
                } else {
                    *final(self) == *old(self)
                },
                KeyCode::Left => r is Ok
                    && *final(self) == (App { counter: (old(self).counter - 1) as u8, ..*old(self) }),
                KeyCode::Right => *final(self)
                    == (App { counter: (old(self).counter + 1) as u8, ..*old(self) })
                    && (r is Ok <==> old(self).counter < 2)
                    && (r is Err ==> r == Err::<(), CounterError>(CounterError::Overflow)),
                _ => r is Ok && *final(self) == *old(self),
            },
    {
        match key_event.code {
            KeyCode::Char(c) => {
                if c == 'q' {
                    self.exit();
                }
                Ok(())
            }
            KeyCode::Left => {
                self.decrement_counter();
                Ok(())
            }
            KeyCode::Right => self.increment_counter(),
            _ => Ok(()),
        }
    }
}

} // verus!
