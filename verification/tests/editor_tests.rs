use kv_editor::dispatch::DispatchResult;
use kv_editor::dispatch::dispatch;
use kv_editor::editor::EditingField;
use kv_editor::editor::EditorState;
use kv_editor::editor::Screen;
use kv_editor::events::KeyCode;
use kv_editor::events::KeyEvent;

fn press(state: &mut EditorState, code: KeyCode) -> DispatchResult {
    dispatch(state, KeyEvent::press(code))
}

fn press_char(state: &mut EditorState, c: char) -> DispatchResult {
    press(state, KeyCode::Char(c))
}

#[test]
fn scenario_edit_and_commit() {
    let mut st = EditorState::new();
    assert_eq!(st.current_screen, Screen::Main);
    assert_eq!(st.currently_editing, None);

    assert_eq!(press_char(&mut st, 'e'), DispatchResult::Continue);
    assert_eq!(st.current_screen, Screen::Editing);
    assert_eq!(st.currently_editing, Some(EditingField::Key));

    press_char(&mut st, 'a');
    press_char(&mut st, 'b');
    assert_eq!(st.key_input, "ab");

    press(&mut st, KeyCode::Tab);
    assert_eq!(st.currently_editing, Some(EditingField::Value));

    press_char(&mut st, '1');
    assert_eq!(st.value_input, "1");

    assert_eq!(press(&mut st, KeyCode::Enter), DispatchResult::Continue);
    assert_eq!(st.current_screen, Screen::Main);
    assert_eq!(st.currently_editing, None);
    assert_eq!(st.key_input, "");
    assert_eq!(st.value_input, "");
    assert_eq!(st.len(), 1);
    assert_eq!(st.get(&"ab".to_string()), Some(&"1".to_string()));
}

#[test]
fn scenario_confirm_emit() {
    let mut st = EditorState::new();
    press_char(&mut st, 'e');
    press_char(&mut st, 'a');
    press_char(&mut st, 'b');
    press(&mut st, KeyCode::Tab);
    press_char(&mut st, '1');
    press(&mut st, KeyCode::Enter);

    assert_eq!(press_char(&mut st, 'q'), DispatchResult::Continue);
    assert_eq!(st.current_screen, Screen::Exiting);
    assert_eq!(press_char(&mut st, 'y'), DispatchResult::ExitAndEmit);

    // The mapping handed to the serializer still holds the committed pair.
    assert_eq!(st.len(), 1);
    assert_eq!(st.get(&"ab".to_string()), Some(&"1".to_string()));
}

#[test]
fn scenario_discard() {
    let mut st = EditorState::new();
    assert_eq!(press_char(&mut st, 'q'), DispatchResult::Continue);
    assert_eq!(st.current_screen, Screen::Exiting);
    assert_eq!(press_char(&mut st, 'n'), DispatchResult::ExitDiscard);
}

#[test]
fn scenario_discard_with_q() {
    let mut st = EditorState::new();
    press_char(&mut st, 'q');
    assert_eq!(press_char(&mut st, 'q'), DispatchResult::ExitDiscard);
}

#[test]
fn scenario_backspace_underflow() {
    let mut st = EditorState::new();
    press_char(&mut st, 'e');
    press_char(&mut st, 'x');
    assert_eq!(st.key_input, "x");

    press(&mut st, KeyCode::Backspace);
    assert_eq!(st.key_input, "");

    // A second backspace on the empty buffer changes nothing and is no error.
    assert_eq!(press(&mut st, KeyCode::Backspace), DispatchResult::Continue);
    assert_eq!(st.key_input, "");
    assert_eq!(st.current_screen, Screen::Editing);
    assert_eq!(st.currently_editing, Some(EditingField::Key));
}

#[test]
fn backspace_picks_active_buffer() {
    let mut st = EditorState::new();
    press_char(&mut st, 'e');
    press_char(&mut st, 'k');
    press(&mut st, KeyCode::Tab);
    press_char(&mut st, 'v');
    press_char(&mut st, 'w');

    // The value side is active: backspace must delete from it, not the key.
    press(&mut st, KeyCode::Backspace);
    assert_eq!(st.key_input, "k");
    assert_eq!(st.value_input, "v");
}

#[test]
fn typing_concatenates_in_order() {
    let mut st = EditorState::new();
    press_char(&mut st, 'e');
    for c in ['h', 'e', 'l', 'l', 'o'] {
        press_char(&mut st, c);
    }
    assert_eq!(st.key_input, "hello");
    assert_eq!(st.value_input, "");
}

#[test]
fn typing_without_field_is_noop() {
    // On the main screen no field is being edited: printable keys other
    // than the two bindings must leave both buffers alone.
    let mut st = EditorState::new();
    press_char(&mut st, 'x');
    press_char(&mut st, 'y');
    assert_eq!(st.key_input, "");
    assert_eq!(st.value_input, "");
    assert_eq!(st.current_screen, Screen::Main);
}

#[test]
fn escape_keeps_buffers_and_is_idempotent() {
    let mut st = EditorState::new();
    press_char(&mut st, 'e');
    press_char(&mut st, 'a');

    press(&mut st, KeyCode::Esc);
    assert_eq!(st.current_screen, Screen::Main);
    assert_eq!(st.currently_editing, None);
    // Abandoning the pair leaves the typed text as it was.
    assert_eq!(st.key_input, "a");

    // A second escape right after is a no-op.
    assert_eq!(press(&mut st, KeyCode::Esc), DispatchResult::Continue);
    assert_eq!(st.current_screen, Screen::Main);
    assert_eq!(st.currently_editing, None);
    assert_eq!(st.key_input, "a");
    assert_eq!(st.value_input, "");
    assert_eq!(st.len(), 0);
}

#[test]
fn commit_overwrites_existing_key() {
    let mut st = EditorState::new();
    for (k, v) in [("ab", "1"), ("cd", "2"), ("ab", "3")] {
        press_char(&mut st, 'e');
        for c in k.chars() {
            press_char(&mut st, c);
        }
        press(&mut st, KeyCode::Tab);
        for c in v.chars() {
            press_char(&mut st, c);
        }
        press(&mut st, KeyCode::Enter);
    }
    assert_eq!(st.len(), 2);
    assert_eq!(st.get(&"ab".to_string()), Some(&"3".to_string()));
    assert_eq!(st.get(&"cd".to_string()), Some(&"2".to_string()));
    assert_eq!(st.get(&"zz".to_string()), None);
}

#[test]
fn commit_empty_pair() {
    let mut st = EditorState::new();
    press_char(&mut st, 'e');
    press(&mut st, KeyCode::Enter); // key side done (empty)
    press(&mut st, KeyCode::Enter); // value side done (empty): commit
    assert_eq!(st.len(), 1);
    assert_eq!(st.get(&"".to_string()), Some(&"".to_string()));
    assert_eq!(st.current_screen, Screen::Main);
}

#[test]
fn enter_advances_from_key_to_value() {
    let mut st = EditorState::new();
    press_char(&mut st, 'e');
    assert_eq!(press(&mut st, KeyCode::Enter), DispatchResult::Continue);
    assert_eq!(st.currently_editing, Some(EditingField::Value));
    assert_eq!(st.current_screen, Screen::Editing);
    assert_eq!(st.len(), 0);
}

#[test]
fn tab_falls_back_to_key_when_no_field() {
    let mut st = EditorState::new();
    press_char(&mut st, 'e');
    // Force the defensive case: the editing screen with no active field.
    st.currently_editing = None;
    press(&mut st, KeyCode::Tab);
    assert_eq!(st.currently_editing, Some(EditingField::Key));
}

#[test]
fn releases_are_ignored_everywhere() {
    let mut st = EditorState::new();
    assert_eq!(
        dispatch(&mut st, KeyEvent::release(KeyCode::Char('e'))),
        DispatchResult::Continue
    );
    assert_eq!(st.current_screen, Screen::Main);

    press_char(&mut st, 'q');
    // Even the exit confirmation acts on presses only.
    assert_eq!(
        dispatch(&mut st, KeyEvent::release(KeyCode::Char('y'))),
        DispatchResult::Continue
    );
    assert_eq!(st.current_screen, Screen::Exiting);
}

#[test]
fn exiting_other_keys_are_noops() {
    let mut st = EditorState::new();
    press_char(&mut st, 'q');
    assert_eq!(press_char(&mut st, 'x'), DispatchResult::Continue);
    assert_eq!(press(&mut st, KeyCode::Enter), DispatchResult::Continue);
    assert_eq!(st.current_screen, Screen::Exiting);
    assert_eq!(press_char(&mut st, 'y'), DispatchResult::ExitAndEmit);
}
