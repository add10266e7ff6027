use memory_cleaner::hotkey::DEFAULT_CLEANUP_HOTKEY;
use memory_cleaner::optimize::{
    MemoryAreas, DEFAULT_AREAS_BITS, STANDBY_LIST_BIT, STANDBY_LIST_LOW_PRIORITY_BIT, WORKING_SET_BIT,
};
use memory_cleaner::settings::Settings;

fn normalized(mut settings: Settings) -> Settings {
    settings.normalize();
    settings
}

#[test]
fn default_settings_match_documented_values() {
    let settings = Settings::default();
    assert!(settings.close_to_notification_area);
    assert!(!settings.run_at_startup);
    assert!(settings.show_optimization_notifications);
    assert_eq!(settings.memory_areas, DEFAULT_AREAS_BITS);
    assert_eq!(settings.language, "auto");
    assert!(settings.cleanup_hotkey_enabled);
    assert_eq!(settings.cleanup_hotkey, DEFAULT_CLEANUP_HOTKEY);
    assert!(!settings.auto_cleanup_enabled);
    assert_eq!(settings.auto_cleanup_threshold, 0);
    assert_eq!(settings.auto_cleanup_interval_minutes, 0);
}

#[test]
fn auto_cleanup_schedule_fields_are_parsed() {
    let settings = normalized(Settings {
        auto_cleanup_enabled: true,
        auto_cleanup_threshold: 90,
        auto_cleanup_interval_minutes: 30,
        ..Default::default()
    });
    assert!(settings.auto_cleanup_enabled);
    assert_eq!(settings.auto_cleanup_threshold, 90);
    assert_eq!(settings.auto_cleanup_interval_minutes, 30);
}

#[test]
fn auto_cleanup_defaults_disable_triggers() {
    let settings = Settings::default();
    assert_eq!(settings.auto_cleanup_threshold, 0);
    assert_eq!(settings.auto_cleanup_interval_minutes, 0);
}

#[test]
fn auto_cleanup_threshold_is_clamped_to_100() {
    let settings = normalized(Settings { auto_cleanup_threshold: 150, ..Default::default() });
    assert_eq!(settings.auto_cleanup_threshold, 100);
}

#[test]
fn effective_locale_resolves_explicit_values() {
    let settings = Settings { language: "en".into(), ..Default::default() };
    assert_eq!(settings.effective_locale(0x0804), "en");
    let settings = Settings { language: "zh-CN".into(), ..Default::default() };
    assert_eq!(settings.effective_locale(0x0409), "zh-CN");
}

#[test]
fn effective_locale_auto_returns_supported_locale() {
    let settings = Settings::default();
    for lang_id in [0x0409u16, 0x0804, 0x040c, 0x0411] {
        assert!(matches!(settings.effective_locale(lang_id), "zh-CN" | "en"));
    }
    assert_eq!(settings.effective_locale(0x0804), "zh-CN");
}

#[test]
fn normalize_language_resets_unknown_values() {
    let settings = normalized(Settings { language: "fr".into(), ..Default::default() });
    assert_eq!(settings.language, "auto");
}

#[test]
fn standby_areas_are_mutually_exclusive_after_normalize() {
    let both = STANDBY_LIST_BIT | STANDBY_LIST_LOW_PRIORITY_BIT;
    let settings = normalized(Settings { memory_areas: both, ..Default::default() });
    let areas = settings.memory_areas();
    assert!(areas.contains(MemoryAreas::from_bits_truncate(STANDBY_LIST_BIT)));
    assert!(!areas.contains(MemoryAreas::from_bits_truncate(STANDBY_LIST_LOW_PRIORITY_BIT)));
}

#[test]
fn normalize_excluded_processes_dedupes_and_strips_exe() {
    let settings = normalized(Settings {
        excluded_processes: vec!["Chrome.exe".into(), "chrome".into(), "  Firefox  ".into()],
        ..Default::default()
    });
    assert_eq!(settings.excluded_processes, vec!["chrome".to_string(), "firefox".to_string()]);
}

#[test]
fn invalid_enabled_hotkey_falls_back_to_default() {
    let settings = normalized(Settings { cleanup_hotkey: "Ctrl+".into(), ..Default::default() });
    assert_eq!(settings.cleanup_hotkey, DEFAULT_CLEANUP_HOTKEY);
    let disabled = normalized(Settings {
        cleanup_hotkey_enabled: false,
        cleanup_hotkey: "nonsense".into(),
        ..Default::default()
    });
    assert_eq!(disabled.cleanup_hotkey, "nonsense");
}

#[test]
fn normalize_keeps_undefined_area_bits_unless_both_standby() {
    let settings = normalized(Settings { memory_areas: 0x100 | WORKING_SET_BIT, ..Default::default() });
    assert_eq!(settings.memory_areas, 0x101);
    assert_eq!(settings.memory_areas().bits(), WORKING_SET_BIT);
    let both = normalized(Settings {
        memory_areas: 0x100 | STANDBY_LIST_BIT | STANDBY_LIST_LOW_PRIORITY_BIT,
        ..Default::default()
    });
    assert_eq!(both.memory_areas, STANDBY_LIST_BIT);
}

#[test]
fn selecting_one_standby_variant_drops_the_other() {
    let mut settings = Settings { memory_areas: STANDBY_LIST_BIT, ..Default::default() };
    settings.set_memory_area(MemoryAreas::from_bits_truncate(STANDBY_LIST_LOW_PRIORITY_BIT), true);
    assert_eq!(settings.memory_areas, STANDBY_LIST_LOW_PRIORITY_BIT);
    settings.set_memory_area(MemoryAreas::from_bits_truncate(STANDBY_LIST_BIT), true);
    assert_eq!(settings.memory_areas, STANDBY_LIST_BIT);
    settings.set_memory_area(MemoryAreas::from_bits_truncate(WORKING_SET_BIT), true);
    assert_eq!(settings.memory_areas, STANDBY_LIST_BIT | WORKING_SET_BIT);
    settings.set_memory_area(MemoryAreas::from_bits_truncate(STANDBY_LIST_BIT), false);
    assert_eq!(settings.memory_areas, WORKING_SET_BIT);
}

#[test]
fn excluded_processes_add_and_remove() {
    let mut settings = Settings::default();
    assert!(settings.add_excluded_process("Zed.exe"));
    assert!(settings.add_excluded_process("alpha"));
    assert!(!settings.add_excluded_process("ALPHA.EXE"));
    assert!(!settings.add_excluded_process("   "));
    assert_eq!(settings.excluded_processes, vec!["alpha".to_string(), "zed".to_string()]);
    settings.remove_excluded_process(" Zed ");
    assert_eq!(settings.excluded_processes, vec!["alpha".to_string()]);
}

#[test]
fn clone_copies_every_field() {
    let original = Settings {
        always_on_top: true,
        debug_logging: true,
        language: "en".into(),
        memory_areas: WORKING_SET_BIT,
        auto_cleanup_enabled: true,
        excluded_processes: vec!["x".into()],
        ..Default::default()
    };
    let copy = original.clone();
    assert!(copy.always_on_top);
    assert!(copy.debug_logging);
    assert_eq!(copy.language, "en");
    assert_eq!(copy.memory_areas, WORKING_SET_BIT);
    assert!(copy.auto_cleanup_enabled);
    assert_eq!(copy.excluded_processes, vec!["x".to_string()]);
}
