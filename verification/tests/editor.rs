use memory_cleaner::editor::{cleanup_hotkey_display, language_label_key, HotkeyDisplay, SettingsEditor};
use memory_cleaner::optimize::{MemoryAreas, STANDBY_LIST_BIT, STANDBY_LIST_LOW_PRIORITY_BIT, WORKING_SET_BIT};
use memory_cleaner::settings::Settings;

fn editor() -> SettingsEditor {
    let mut settings = Settings::default();
    settings.normalize();
    SettingsEditor::new(settings)
}

#[test]
fn cleanup_choices_are_locked_while_a_cleanup_runs() {
    let mut page = editor();
    assert!(page.begin_cleanup());
    assert!(!page.begin_cleanup());
    let before = page.settings.memory_areas;
    let effects = page.set_memory_area(MemoryAreas::from_bits_truncate(WORKING_SET_BIT), false);
    assert!(!effects.save);
    assert_eq!(page.settings.memory_areas, before);
    let effects = page.add_excluded_process("chrome.exe");
    assert!(!effects.save);
    assert!(page.settings.excluded_processes.is_empty());
    page.end_cleanup();
    let effects = page.add_excluded_process("chrome.exe");
    assert!(effects.save);
    assert_eq!(page.settings.excluded_processes, vec!["chrome".to_string()]);
}

#[test]
fn page_standby_choice_drops_the_other_variant() {
    let mut page = editor();
    page.set_memory_area(MemoryAreas::from_bits_truncate(STANDBY_LIST_BIT), true);
    let effects = page.set_memory_area(MemoryAreas::from_bits_truncate(STANDBY_LIST_LOW_PRIORITY_BIT), true);
    assert!(effects.save);
    assert_eq!(page.settings.memory_areas & STANDBY_LIST_BIT, 0);
    assert_ne!(page.settings.memory_areas & STANDBY_LIST_LOW_PRIORITY_BIT, 0);
}

#[test]
fn adding_a_known_process_changes_nothing() {
    let mut page = editor();
    assert!(page.add_excluded_process("Zed.exe").save);
    assert!(page.add_excluded_process("alpha").save);
    assert!(!page.add_excluded_process("ALPHA.EXE").save);
    assert!(!page.add_excluded_process("  ").save);
    assert_eq!(page.settings.excluded_processes, vec!["alpha".to_string(), "zed".to_string()]);
    assert!(page.remove_excluded_process("Zed.EXE").save);
    assert_eq!(page.settings.excluded_processes, vec!["alpha".to_string()]);
}

#[test]
fn threshold_from_the_page_is_capped_at_100() {
    let mut page = editor();
    let effects = page.set_auto_cleanup_threshold(250);
    assert!(effects.save && effects.sync_threshold);
    assert_eq!(page.settings.auto_cleanup_threshold, 100);
    let effects = page.set_auto_cleanup_threshold(100);
    assert!(!effects.save && !effects.sync_threshold);
    let effects = page.set_auto_cleanup_threshold(85);
    assert!(effects.save);
    assert_eq!(page.settings.auto_cleanup_threshold, 85);
}

#[test]
fn toggling_auto_cleanup_restarts_the_monitors_only_on_change() {
    let mut page = editor();
    let enabled = page.settings.auto_cleanup_enabled;
    let effects = page.set_auto_cleanup_enabled(enabled);
    assert!(!effects.save && !effects.sync_auto_cleanup);
    let effects = page.set_auto_cleanup_enabled(!enabled);
    assert!(effects.save && effects.sync_auto_cleanup);
    assert_eq!(page.settings.auto_cleanup_enabled, !enabled);
}

#[test]
fn recorder_takes_a_chord_and_escape_cancels() {
    let mut page = editor();
    page.set_cleanup_hotkey_enabled(true);
    assert!(page.start_cleanup_hotkey_recording());
    let effects = page.handle_cleanup_hotkey_key("Shift", false, false, true, false);
    assert!(!effects.save);
    assert!(page.hotkey_recording);
    let effects = page.handle_cleanup_hotkey_key("m", true, false, true, false);
    assert!(effects.save && effects.sync_hotkey);
    assert!(!page.hotkey_recording);
    assert_eq!(page.settings.cleanup_hotkey, "Ctrl+Shift+M");

    assert!(page.start_cleanup_hotkey_recording());
    let effects = page.handle_cleanup_hotkey_key("Escape", false, false, false, false);
    assert!(!effects.save);
    assert!(!page.hotkey_recording);
    assert_eq!(page.settings.cleanup_hotkey, "Ctrl+Shift+M");
}

#[test]
fn disabling_the_hotkey_stops_the_recorder() {
    let mut page = editor();
    page.set_cleanup_hotkey_enabled(true);
    assert!(page.start_cleanup_hotkey_recording());
    let effects = page.set_cleanup_hotkey_enabled(false);
    assert!(effects.save && effects.sync_hotkey);
    assert!(!page.hotkey_recording);
    assert!(!page.start_cleanup_hotkey_recording());
    assert!(!page.cancel_cleanup_hotkey_recording());
}

#[test]
fn failed_outside_changes_keep_the_setting() {
    let mut page = editor();
    let before = page.settings.run_at_startup;
    assert!(!page.set_run_at_startup(!before, false).save);
    assert_eq!(page.settings.run_at_startup, before);
    assert!(page.set_run_at_startup(!before, true).save);
    assert_eq!(page.settings.run_at_startup, !before);
    assert!(!page.set_always_on_top(true, false).save);
    assert!(page.set_always_on_top(true, true).save);
    assert!(page.settings.always_on_top);
}

#[test]
fn language_menu_reapplies_the_locale_on_change() {
    let mut page = editor();
    let effects = page.select_language("en");
    assert!(effects.save && effects.apply_locale);
    assert_eq!(page.settings.language, "en");
    let effects = page.select_language("en");
    assert!(!effects.save && !effects.apply_locale);
    assert_eq!(language_label_key("en"), "settings.language_en");
    assert_eq!(language_label_key("zh-CN"), "settings.language_zh");
    assert_eq!(language_label_key("fr"), "settings.language_auto");
}

#[test]
fn debug_logging_switch_applies_the_log_level() {
    let mut page = editor();
    let effects = page.set_debug_logging(true);
    assert!(effects.save && effects.apply_debug_logging);
    assert!(page.settings.debug_logging);
    assert!(page.set_close_to_tray(false).save);
    assert!(!page.settings.close_to_notification_area);
    assert!(page.set_show_optimization_notifications(false).save);
    assert!(!page.settings.show_optimization_notifications);
}

#[test]
fn hotkey_row_shows_keys_text_or_recording() {
    assert!(matches!(cleanup_hotkey_display(true, "Ctrl+Alt+C"), HotkeyDisplay::Recording));
    match cleanup_hotkey_display(false, "Ctrl+Alt+C") {
        HotkeyDisplay::Keys(keys) => assert_eq!(keys, "ctrl-alt-c"),
        other => panic!("unexpected {other:?}"),
    }
    match cleanup_hotkey_display(false, "C") {
        HotkeyDisplay::Text(text) => assert_eq!(text, "C"),
        other => panic!("unexpected {other:?}"),
    }
}
