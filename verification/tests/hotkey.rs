use mytranslator::hotkey::evdev_backend::map_event;
use mytranslator::hotkey::KeyInput::{ModifierDown, ModifierUp, Other};
use mytranslator::hotkey::{
    initial_status, is_copy_modifier, map_rdev, set_status, status, trigger_text, DoubleCopyDetector, HotkeyStatus,
    Key, KeyEvent, KeyInput, MAX_TEXT_LEN,
};

/// A monotonic clock reading, in nanoseconds, standing for `Instant::now()`.
fn now() -> u64 {
    7_000_000_000
}

/// `n` milliseconds in nanoseconds.
fn ms(n: u64) -> u64 {
    n * 1_000_000
}

#[test]
fn triggers_on_double_copy_within_window() {
    let mut d = DoubleCopyDetector::new();
    let t0 = now();
    assert!(!d.on_input(ModifierDown, t0));
    assert!(!d.on_input(KeyInput::Copy, t0));
    assert!(d.on_input(KeyInput::Copy, t0 + ms(300)));
}

#[test]
fn does_not_trigger_when_too_slow() {
    let mut d = DoubleCopyDetector::new();
    let t0 = now();
    d.on_input(ModifierDown, t0);
    assert!(!d.on_input(KeyInput::Copy, t0));
    assert!(!d.on_input(KeyInput::Copy, t0 + ms(600)));
    // the slow second press starts a new sequence
    assert!(d.on_input(KeyInput::Copy, t0 + ms(700)));
}

#[test]
fn does_not_trigger_without_modifier() {
    let mut d = DoubleCopyDetector::new();
    let t0 = now();
    assert!(!d.on_input(KeyInput::Copy, t0));
    assert!(!d.on_input(KeyInput::Copy, t0));
}

#[test]
fn other_key_between_copies_resets() {
    let mut d = DoubleCopyDetector::new();
    let t0 = now();
    d.on_input(ModifierDown, t0);
    assert!(!d.on_input(KeyInput::Copy, t0));
    assert!(!d.on_input(Other, t0));
    assert!(!d.on_input(KeyInput::Copy, t0 + ms(100)));
}

#[test]
fn releasing_modifier_between_copies_still_triggers() {
    let mut d = DoubleCopyDetector::new();
    let t0 = now();
    d.on_input(ModifierDown, t0);
    assert!(!d.on_input(KeyInput::Copy, t0));
    d.on_input(ModifierUp, t0);
    d.on_input(ModifierDown, t0 + ms(150));
    assert!(d.on_input(KeyInput::Copy, t0 + ms(200)));
}

#[test]
fn third_copy_does_not_retrigger_immediately() {
    let mut d = DoubleCopyDetector::new();
    let t0 = now();
    d.on_input(ModifierDown, t0);
    d.on_input(KeyInput::Copy, t0);
    assert!(d.on_input(KeyInput::Copy, t0 + ms(100)));
    // after a trigger the third press only starts a new sequence
    assert!(!d.on_input(KeyInput::Copy, t0 + ms(200)));
}

#[test]
fn copy_without_modifier_resets_sequence() {
    let mut d = DoubleCopyDetector::new();
    let t0 = now();
    d.on_input(ModifierDown, t0);
    assert!(!d.on_input(KeyInput::Copy, t0));
    d.on_input(ModifierUp, t0);
    assert!(!d.on_input(KeyInput::Copy, t0 + ms(100)));
    d.on_input(ModifierDown, t0 + ms(150));
    assert!(!d.on_input(KeyInput::Copy, t0 + ms(200)));
}

#[test]
fn window_edge_is_inclusive() {
    let mut d = DoubleCopyDetector::new();
    let t0 = now();
    d.on_input(ModifierDown, t0);
    assert!(!d.on_input(KeyInput::Copy, t0));
    assert!(d.on_input(KeyInput::Copy, t0 + ms(400)));
    assert!(!d.on_input(KeyInput::Copy, t0 + ms(500)));
    assert!(!d.on_input(KeyInput::Copy, t0 + ms(900) + 1));
}

#[test]
fn earlier_timestamp_counts_as_no_delay() {
    let mut d = DoubleCopyDetector::new();
    let t0 = now();
    d.on_input(ModifierDown, t0);
    assert!(!d.on_input(KeyInput::Copy, t0));
    assert!(d.on_input(KeyInput::Copy, t0 - ms(1)));
}

#[test]
fn modifier_press_never_triggers() {
    let mut d = DoubleCopyDetector::new();
    let t0 = now();
    assert!(!d.on_input(ModifierDown, t0));
    assert!(!d.on_input(ModifierUp, t0));
    assert!(!d.on_input(Other, t0));
}

#[test]
fn status_reads_back_what_was_set() {
    let mut slot = HotkeyStatus { backend: "rdev", ok: true, message: None };
    set_status(&mut slot, "evdev", false, Some("no keyboard".to_string()));
    let s = status(&slot);
    assert_eq!(s.backend, "evdev");
    assert!(!s.ok);
    assert_eq!(s.message.as_deref(), Some("no keyboard"));
    set_status(&mut slot, "rdev", true, None);
    let s = status(&slot);
    assert_eq!(s.backend, "rdev");
    assert!(s.ok);
    assert!(s.message.is_none());
}

#[test]
fn trigger_text_trims() {
    assert_eq!(trigger_text("  hello world \n").as_deref(), Some("hello world"));
    assert_eq!(trigger_text("\u{3000}你好\t").as_deref(), Some("你好"));
}

#[test]
fn trigger_text_rejects_blank() {
    assert!(trigger_text("").is_none());
    assert!(trigger_text(" \n\t\r ").is_none());
}

#[test]
fn trigger_text_length_limit_counts_characters() {
    let at_limit: String = "字".repeat(MAX_TEXT_LEN);
    assert_eq!(trigger_text(&at_limit).as_deref(), Some(at_limit.as_str()));
    let over: String = "a".repeat(MAX_TEXT_LEN + 1);
    assert!(trigger_text(&over).is_none());
    let padded = format!("  {}  ", "b".repeat(MAX_TEXT_LEN));
    assert!(trigger_text(&padded).is_some());
}

#[test]
fn copy_modifier_depends_on_platform() {
    assert!(is_copy_modifier(Key::ControlLeft, false));
    assert!(is_copy_modifier(Key::ControlRight, false));
    assert!(!is_copy_modifier(Key::MetaLeft, false));
    assert!(is_copy_modifier(Key::MetaLeft, true));
    assert!(is_copy_modifier(Key::MetaRight, true));
    assert!(!is_copy_modifier(Key::ControlLeft, true));
}

#[test]
fn maps_listener_events() {
    assert_eq!(map_rdev(&KeyEvent::KeyPress(Key::ControlLeft), false), Some(ModifierDown));
    assert_eq!(map_rdev(&KeyEvent::KeyRelease(Key::ControlRight), false), Some(ModifierUp));
    assert_eq!(map_rdev(&KeyEvent::KeyPress(Key::KeyC), false), Some(KeyInput::Copy));
    assert_eq!(map_rdev(&KeyEvent::KeyPress(Key::Other), false), Some(Other));
    assert_eq!(map_rdev(&KeyEvent::KeyRelease(Key::KeyC), false), None);
    assert_eq!(map_rdev(&KeyEvent::NotKey, false), None);
    assert_eq!(map_rdev(&KeyEvent::KeyPress(Key::ControlLeft), true), Some(Other));
    assert_eq!(map_rdev(&KeyEvent::KeyPress(Key::MetaLeft), true), Some(ModifierDown));
    assert_eq!(map_rdev(&KeyEvent::KeyRelease(Key::MetaRight), true), Some(ModifierUp));
}

#[test]
fn maps_kernel_key_events() {
    assert_eq!(map_event(Key::ControlLeft, 1), Some(ModifierDown));
    assert_eq!(map_event(Key::ControlRight, 0), Some(ModifierUp));
    assert_eq!(map_event(Key::ControlLeft, 2), None);
    assert_eq!(map_event(Key::KeyC, 1), Some(KeyInput::Copy));
    assert_eq!(map_event(Key::KeyC, 0), None);
    assert_eq!(map_event(Key::Other, 1), Some(Other));
    assert_eq!(map_event(Key::Other, 2), None);
}

#[test]
fn initial_status_is_a_working_rdev_listener() {
    let s = initial_status();
    assert_eq!(s.backend, "rdev");
    assert!(s.ok);
    assert!(s.message.is_none());
}
