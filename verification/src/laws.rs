//! Properties of the transition table that hold for every state, proved
//! once and for all over [`step`] and [`step_result`].

use vstd::prelude::*;

use crate::dispatch::DispatchResult;
use crate::dispatch::step;
use crate::dispatch::step_result;
use crate::editor::EditingField;
use crate::editor::EditorView;
use crate::events::KeyCode;
use crate::events::KeyEvent;
use crate::events::KeyEventKind;

verus! {

/// A press of the given key, as the laws quantify over presses.
pub open spec fn pressed(code: KeyCode) -> KeyEvent {
    KeyEvent { code, kind: KeyEventKind::Press }
}

/// The state after a whole sequence of character presses, fed one by one.
pub open spec fn type_all(v: EditorView, cs: Seq<char>) -> EditorView
    decreases cs.len(),
{
    if cs.len() == 0 {
        v
    } else {
        step(type_all(v, cs.drop_last()), pressed(KeyCode::Char(cs.last())))
    }
}

/// While the editor sits on the editing screen with the key side active,
/// any sequence of character presses leaves the key buffer holding its old
/// contents followed by exactly those characters in order, and touches
/// nothing else.
pub proof fn lemma_typing_concatenates(v: EditorView, cs: Seq<char>)
    requires
        v.screen is Editing,
        v.editing == Some(EditingField::Key),
    ensures
        type_all(v, cs) == (EditorView { key_input: v.key_input + cs, ..v }),
    decreases cs.len(),
{
    if cs.len() == 0 {
        assert(v.key_input + cs =~= v.key_input);
        assert((EditorView { key_input: v.key_input + cs, ..v }) =~= v);
    } else {
        let dl = cs.drop_last();
        lemma_typing_concatenates(v, dl);
        let w = type_all(v, dl);
        assert(type_all(v, cs) == step(w, pressed(KeyCode::Char(cs.last()))));
        assert(step(w, pressed(KeyCode::Char(cs.last())))
            == (EditorView { key_input: w.key_input.push(cs.last()), ..w }));
        assert(w.key_input.push(cs.last()) =~= v.key_input + cs);
        assert(type_all(v, cs) =~= (EditorView { key_input: v.key_input + cs, ..v }));
    }
}

/// Backspace on an empty active buffer (or with no active field) changes
/// nothing: the state after the press is the state before it.
pub proof fn lemma_backspace_empty_noop(v: EditorView)
    requires
        v.editing == Some(EditingField::Key) ==> v.key_input.len() == 0,
        v.editing == Some(EditingField::Value) ==> v.value_input.len() == 0,
    ensures
        step(v, pressed(KeyCode::Backspace)) == v,
        step_result(v, pressed(KeyCode::Backspace)) == DispatchResult::Continue,
{
    assert(step(v, pressed(KeyCode::Backspace)) =~= v);
}

/// A character press while no field is being edited never touches either
/// buffer, whatever the screen.
pub proof fn lemma_typing_without_field(v: EditorView, c: char)
    requires
        v.editing is None,
    ensures
        step(v, pressed(KeyCode::Char(c))).key_input == v.key_input,
        step(v, pressed(KeyCode::Char(c))).value_input == v.value_input,
{
}

/// The commit invariant: Enter with the value side active maps the typed
/// key to the typed value, clears both buffers, and returns to the main
/// screen with no field active.
pub proof fn lemma_commit(v: EditorView)
    requires
        v.screen is Editing,
        v.editing == Some(EditingField::Value),
    ensures
        step(v, pressed(KeyCode::Enter)).pairs.contains_key(v.key_input),
        step(v, pressed(KeyCode::Enter)).pairs[v.key_input] == v.value_input,
        step(v, pressed(KeyCode::Enter)).pairs == v.pairs.insert(v.key_input, v.value_input),
        step(v, pressed(KeyCode::Enter)).key_input.len() == 0,
        step(v, pressed(KeyCode::Enter)).value_input.len() == 0,
        step(v, pressed(KeyCode::Enter)).screen is Main,
        step(v, pressed(KeyCode::Enter)).editing is None,
{
}

/// Discarding is idempotent: a second Esc press right after a first one is
/// a no-op, since the first already put the editor back on the main screen.
pub proof fn lemma_escape_idempotent(v: EditorView)
    ensures
        step(step(v, pressed(KeyCode::Esc)), pressed(KeyCode::Esc))
            == step(v, pressed(KeyCode::Esc)),
{
}

/// The documented state invariant is preserved by every event: a field is
/// being edited only while the editing screen is up.
pub proof fn lemma_step_preserves_inv(v: EditorView, e: KeyEvent)
    requires
        v.inv(),
    ensures
        step(v, e).inv(),
{
}

/// Every transition answers `Continue` except the two confirmations on the
/// exit screen, and those leave the state untouched.
pub proof fn lemma_exit_results(v: EditorView, e: KeyEvent)
    ensures
        step_result(v, e) != DispatchResult::Continue ==> v.screen is Exiting,
        v.screen is Exiting ==> step(v, e) == v,
        step_result(v, e) == DispatchResult::ExitAndEmit
            <==> v.screen is Exiting && e == pressed(KeyCode::Char('y')),
        step_result(v, e) == DispatchResult::ExitDiscard
            <==> v.screen is Exiting
                && (e == pressed(KeyCode::Char('n')) || e == pressed(KeyCode::Char('q'))),
{
}

} // verus!
