use kv_editor::counter::App;
use kv_editor::events::KeyCode;

#[test]
fn handle_key_event() {
    let mut app = App::default();
    app.handle_key_event(KeyCode::Right.into()).unwrap();
    assert_eq!(app.counter, 1);

    app.handle_key_event(KeyCode::Left.into()).unwrap();
    assert_eq!(app.counter, 0);

    let mut app = App::default();
    app.handle_key_event(KeyCode::Char('q').into()).unwrap();
    assert_eq!(app.exit, true);
}

#[test]
fn handle_key_event_overflow() {
    let mut app = App::default();
    assert!(app.handle_key_event(KeyCode::Right.into()).is_ok());
    assert!(app.handle_key_event(KeyCode::Right.into()).is_ok());
    assert_eq!(
        app.handle_key_event(KeyCode::Right.into())
            .unwrap_err()
            .message(),
        "counter overflow"
    );
}

#[test]
fn other_keys_leave_counter_alone() {
    let mut app = App::default();
    app.handle_key_event(KeyCode::Enter.into()).unwrap();
    app.handle_key_event(KeyCode::Char('x').into()).unwrap();
    assert_eq!(app.counter, 0);
    assert_eq!(app.exit, false);
}
