use kv_editor::events::KeyCode;
use kv_editor::events::KeyEvent;
use kv_editor::hello::should_quit;

#[test]
fn quits_on_q_press() {
    assert!(should_quit(KeyEvent::press(KeyCode::Char('q'))));
    assert!(should_quit(KeyEvent::press(KeyCode::Char('Q'))));
}

#[test]
fn ignores_other_keys_and_releases() {
    assert!(!should_quit(KeyEvent::press(KeyCode::Char('x'))));
    assert!(!should_quit(KeyEvent::press(KeyCode::Enter)));
    assert!(!should_quit(KeyEvent::release(KeyCode::Char('q'))));
}
