use orion_core::hotkey::{
    parse_modifier, parse_modifiers, HotkeyManager, Key, KeyEvent,
};

#[test]
fn superset_firing_fires_exactly_once() {
    let mut manager = HotkeyManager::new();
    let id = manager.register(vec![Key::ControlLeft, Key::Alt], Key::Space);

    assert!(manager.on_event(KeyEvent::Press(Key::ControlLeft)).is_empty());
    assert!(manager.on_event(KeyEvent::Press(Key::Alt)).is_empty());
    // Shift is extra; superset matching must not let it block firing.
    assert!(manager.on_event(KeyEvent::Press(Key::ShiftLeft)).is_empty());
    let fired = manager.on_event(KeyEvent::Press(Key::Space));
    assert_eq!(fired, vec![id]);

    // Release everything, then press the trigger alone: no firing.
    assert!(manager.on_event(KeyEvent::Release(Key::Space)).is_empty());
    assert!(manager.on_event(KeyEvent::Release(Key::ControlLeft)).is_empty());
    assert!(manager.on_event(KeyEvent::Release(Key::Alt)).is_empty());
    assert!(manager.on_event(KeyEvent::Release(Key::ShiftLeft)).is_empty());
    assert!(manager.on_event(KeyEvent::Press(Key::Space)).is_empty());
}

#[test]
fn release_clears_stuck_keys() {
    let mut manager = HotkeyManager::new();
    let id = manager.register(vec![Key::Alt], Key::Space);
    assert!(manager.on_event(KeyEvent::Press(Key::Alt)).is_empty());
    assert_eq!(manager.on_event(KeyEvent::Press(Key::Space)), vec![id]);
    // After a full press/release pair no key remains stuck.
    assert!(manager.on_event(KeyEvent::Release(Key::Space)).is_empty());
    assert!(manager.on_event(KeyEvent::Release(Key::Alt)).is_empty());
    assert!(manager.on_event(KeyEvent::Press(Key::Space)).is_empty());
}

#[test]
fn every_matching_binding_fires() {
    let mut manager = HotkeyManager::new();
    let first = manager.register(vec![Key::Alt], Key::Space);
    let second = manager.register(vec![], Key::Space);
    assert!(manager.on_event(KeyEvent::Press(Key::Alt)).is_empty());
    assert_eq!(manager.on_event(KeyEvent::Press(Key::Space)), vec![first, second]);
}

#[test]
fn remove_hotkey_needs_exact_modifiers_and_trigger() {
    let mut manager = HotkeyManager::new();
    let kept = manager.register(vec![Key::Alt], Key::Space);
    let _removed = manager.register(vec![Key::ControlLeft], Key::Space);
    manager.remove_hotkey(&vec![Key::ControlLeft], Key::Space);
    assert!(manager.on_event(KeyEvent::Press(Key::Alt)).is_empty());
    assert!(manager.on_event(KeyEvent::Press(Key::ControlLeft)).is_empty());
    assert_eq!(manager.on_event(KeyEvent::Press(Key::Space)), vec![kept]);
}

#[test]
fn clear_hotkeys_drops_everything() {
    let mut manager = HotkeyManager::new();
    manager.register(vec![], Key::Space);
    manager.clear_hotkeys();
    assert!(manager.on_event(KeyEvent::Press(Key::Space)).is_empty());
}

#[test]
fn check_hotkey_demands_press_of_trigger() {
    let mut manager = HotkeyManager::new();
    assert!(manager.on_event(KeyEvent::Press(Key::Alt)).is_empty());
    assert!(manager.check_hotkey(&KeyEvent::Press(Key::Space), &vec![Key::Alt], Key::Space));
    assert!(!manager.check_hotkey(&KeyEvent::Press(Key::Tab), &vec![Key::Alt], Key::Space));
    assert!(!manager.check_hotkey(&KeyEvent::Release(Key::Space), &vec![Key::Alt], Key::Space));
    assert!(!manager.check_hotkey(
        &KeyEvent::Press(Key::Space),
        &vec![Key::Alt, Key::ShiftLeft],
        Key::Space
    ));
}

#[test]
fn modifier_names_parse_to_keys() {
    assert_eq!(parse_modifier("Alt"), Some(Key::Alt));
    assert_eq!(parse_modifier("Ctrl"), Some(Key::ControlLeft));
    assert_eq!(parse_modifier("Shift"), Some(Key::ShiftLeft));
    assert_eq!(parse_modifier("Meta"), Some(Key::MetaLeft));
    assert_eq!(parse_modifier("Super"), Some(Key::MetaLeft));
    assert_eq!(parse_modifier("Hyper"), None);
}

#[test]
fn unknown_modifier_names_are_skipped() {
    let names = vec!["Alt".to_string(), "Hyper".to_string(), "Ctrl".to_string()];
    assert_eq!(parse_modifiers(&names), vec![Key::Alt, Key::ControlLeft]);
}
