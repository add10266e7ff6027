use memory_cleaner::preferences::{
    auto_cleanup_description, auto_cleanup_threshold_options, format_threshold_value,
    language_options, record_hotkey_key, resolve_close_action, CloseAction, HotkeyKeyOutcome,
};

#[test]
fn close_action_follows_setting() {
    assert_eq!(resolve_close_action(true), CloseAction::ReturnToTray);
    assert_eq!(resolve_close_action(false), CloseAction::ExitApp);
}

#[test]
fn hotkey_recorder_responses() {
    assert!(matches!(record_hotkey_key(false, "c", true, false, false, false), HotkeyKeyOutcome::NotRecording));
    assert!(matches!(record_hotkey_key(true, "Escape", true, false, false, false), HotkeyKeyOutcome::Cancelled));
    assert!(matches!(record_hotkey_key(true, "shift", false, false, true, false), HotkeyKeyOutcome::Ignored));
    assert!(matches!(record_hotkey_key(true, "c", false, false, false, false), HotkeyKeyOutcome::Ignored));
    match record_hotkey_key(true, "c", false, true, true, false) {
        HotkeyKeyOutcome::Recorded(chord) => assert_eq!(chord, "Alt+Shift+C"),
        other => panic!("unexpected {other:?}"),
    }
}

#[test]
fn threshold_menu() {
    assert_eq!(auto_cleanup_threshold_options(), vec![0, 70, 75, 80, 85, 90, 95]);
    assert_eq!(format_threshold_value(0), None);
    assert_eq!(format_threshold_value(85), Some("85%".to_string()));
}

#[test]
fn auto_cleanup_description_keys() {
    assert_eq!(auto_cleanup_description(false, 80), ("settings.auto_cleanup_status_disabled", None));
    assert_eq!(auto_cleanup_description(true, 0), ("settings.auto_cleanup_status_low_memory", None));
    assert_eq!(
        auto_cleanup_description(true, 80),
        ("settings.auto_cleanup_status_threshold", Some("80%".to_string()))
    );
}

#[test]
fn language_menu() {
    let options = language_options();
    assert_eq!(options, vec![
        ("auto", "settings.language_auto"),
        ("zh-CN", "settings.language_zh"),
        ("en", "settings.language_en"),
    ]);
}

#[test]
fn auto_cleanup_description_explains_low_memory_only_mode() {
    assert_eq!(auto_cleanup_description(true, 0), ("settings.auto_cleanup_status_low_memory", None));
}
