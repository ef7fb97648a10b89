//! The event dispatcher: a total function from (state, key event) to
//! (next state, dispatch result).  The whole transition table is written
//! down once, as the spec functions [`step`] and [`step_result`], and the
//! executable [`dispatch`] is proved to follow it exactly.

use vstd::prelude::*;

use crate::editor::EditingField;
use crate::editor::EditorState;
use crate::editor::EditorView;
use crate::editor::Screen;
use crate::editor::popped;
use crate::editor::toggled;
use crate::events::KeyCode;
use crate::events::KeyEvent;
use crate::events::KeyEventKind;

verus! {

/// The three-way outcome of one event dispatch, driving host-loop
/// termination and output emission.
#[derive(Clone, Copy, Debug, PartialEq, Eq, Structural)]
pub enum DispatchResult {
    /// Keep rendering and polling.
    Continue,
    /// Leave the loop; the mapping is not emitted.
    ExitDiscard,
    /// Leave the loop and hand the mapping to the serializer.
    ExitAndEmit,
}

/// The state after one event: the transition table of the editor.
///
/// Releases (and anything that is not a press) change nothing, whatever the
/// screen.  On the main screen `e` opens the editor on the key side and `q`
/// asks for exit confirmation.  The exit screen never changes the state.
/// On the editing screen, Enter advances from key to value or commits the
/// pair, Backspace and printable characters edit the active buffer, Esc
/// abandons the pair (keeping the buffers), and Tab toggles the side.
pub open spec fn step(v: EditorView, e: KeyEvent) -> EditorView {
    if !(e.kind is Press) {
        v
    } else {
        match v.screen {
            Screen::Main => match e.code {
                KeyCode::Char(c) => if c == 'e' {
                    EditorView { screen: Screen::Editing, editing: Some(EditingField::Key), ..v }
                } else if c == 'q' {
                    EditorView { screen: Screen::Exiting, ..v }
                } else {
                    v
                },
                _ => v,
            },
            Screen::Exiting => v,
            Screen::Editing => match e.code {
                KeyCode::Enter => match v.editing {
                    Some(EditingField::Key) => (EditorView {
                        editing: Some(EditingField::Value),
                        ..v
                    }),
                    Some(EditingField::Value) => (EditorView {
                        pairs: v.pairs.insert(v.key_input, v.value_input),
                        key_input: Seq::empty(),
                        value_input: Seq::empty(),
                        screen: Screen::Main,
                        editing: None,
                    }),
                    None => v,
                },
                KeyCode::Backspace => match v.editing {
                    Some(EditingField::Key) => (EditorView {
                        key_input: popped(v.key_input),
                        ..v
                    }),
                    Some(EditingField::Value) => (EditorView {
                        value_input: popped(v.value_input),
                        ..v
                    }),
                    None => v,
                },
                KeyCode::Esc => EditorView { screen: Screen::Main, editing: None, ..v },
                KeyCode::Tab => EditorView { editing: toggled(v.editing), ..v },
                KeyCode::Char(c) => match v.editing {
                    Some(EditingField::Key) => EditorView { key_input: v.key_input.push(c), ..v },
                    Some(EditingField::Value) => (EditorView {
                        value_input: v.value_input.push(c),
                        ..v
                    }),
                    None => v,
                },
                _ => v,
            },
        }
    }
}

/// The result of one event: `Continue` everywhere except the two
/// confirmations on the exit screen.
pub open spec fn step_result(v: EditorView, e: KeyEvent) -> DispatchResult {
    if !(e.kind is Press) {
        DispatchResult::Continue
    } else if v.screen is Exiting {
        match e.code {
            KeyCode::Char(c) => if c == 'y' {
                DispatchResult::ExitAndEmit
            } else if c == 'n' || c == 'q' {
                DispatchResult::ExitDiscard
            } else {
                DispatchResult::Continue
            },
            _ => DispatchResult::Continue,
        }
    } else {
        DispatchResult::Continue
    }
}

/// Dispatch one input event: mutate the state as [`step`] says and return
/// what [`step_result`] says.  Total: no input is an error.
pub fn dispatch(state: &mut EditorState, event: KeyEvent) -> (r: DispatchResult)
    requires
        old(state).wf(),
    ensures
        final(state).wf(),
        final(state)@ == step(old(state)@, event),
        r == step_result(old(state)@, event),
{
    match event.kind {
        KeyEventKind::Release => {
            return DispatchResult::Continue;
        }
        KeyEventKind::Press => {}
    }
    match state.screen() {
        Screen::Main => {
            match event.code {
                KeyCode::Char(c) => {
                    if c == 'e' {
                        state.enter_editing();
                    } else if c == 'q' {
                        state.start_exit();
                    }
                }
                _ => {}
            }
            DispatchResult::Continue
        }
        Screen::Exiting => {
            match event.code {
                KeyCode::Char(c) => {
                    if c == 'y' {
                        DispatchResult::ExitAndEmit
                    } else if c == 'n' || c == 'q' {
                        DispatchResult::ExitDiscard
                    } else {
                        DispatchResult::Continue
                    }
                }
                _ => DispatchResult::Continue,
            }
        }
        Screen::Editing => {
            match event.code {
                KeyCode::Enter => {
                    match state.editing() {
                        Some(EditingField::Key) => {
                            state.select_value();
                        }
                        Some(EditingField::Value) => {
                            state.save_key_value();
                            state.exit_editing();
                        }
                        None => {}
                    }
                }
                KeyCode::Backspace => {
                    state.backspace();
                }
                KeyCode::Esc => {
                    state.exit_editing();
                }
                KeyCode::Tab => {
                    state.toggle_editing();
                }
                KeyCode::Char(c) => {
                    state.type_char(c);
                }
                _ => {}
            }
            DispatchResult::Continue
        }
    }
}

} // verus!
