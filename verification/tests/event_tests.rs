use rowser::events::{accepts_typed_char, key_press_action, wheel_action, Key, KeyAction, WheelAction};

#[test]
fn wheel_actions() {
    assert_eq!(wheel_action(true, true), WheelAction::Rotate);
    assert_eq!(wheel_action(true, false), WheelAction::Zoom);
    assert_eq!(wheel_action(false, true), WheelAction::Scale);
    assert_eq!(wheel_action(false, false), WheelAction::Scroll);
}

#[test]
fn key_actions() {
    assert_eq!(key_press_action(Key::Escape), KeyAction::Quit);
    assert_eq!(key_press_action(Key::Back), KeyAction::DeleteChar);
    assert_eq!(key_press_action(Key::LControl), KeyAction::ControlDown);
    assert_eq!(key_press_action(Key::RControl), KeyAction::ControlDown);
    assert_eq!(key_press_action(Key::Other), KeyAction::Ignore);
}

#[test]
fn typed_characters() {
    assert!(accepts_typed_char('a'));
    assert!(accepts_typed_char(' '));
    assert!(accepts_typed_char('\n'));
    assert!(!accepts_typed_char('\u{7f}'));
    assert!(!accepts_typed_char('\u{8}'));
}
