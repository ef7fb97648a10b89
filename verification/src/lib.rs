//! A verified core for a small family of terminal programs: an interactive
//! key/value editor driven by a screen/editing-mode state machine, a bounded
//! counter, and a quit-on-`q` message display.  All terminal I/O (raw mode,
//! rendering, the event source) and output serialization live outside this
//! crate; the library holds the state, the transition logic, and the proofs.

pub mod counter;
pub mod dispatch;
pub mod editor;
pub mod events;
pub mod hello;
pub mod laws;
