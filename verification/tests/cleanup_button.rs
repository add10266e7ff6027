use memory_cleaner::cleanup_button::{
    cleanup_button, icon_cache_tooltip, truncate_chars, ButtonTextColor, UiText, BUTTON_STATUS_TRUNCATE_CHARS,
};

fn plain(text: &UiText) -> &str {
    match text {
        UiText::Plain(s) => s.as_str(),
        UiText::Key(k) => panic!("expected plain text, got key {k}"),
    }
}

fn key(text: &UiText) -> &'static str {
    match text {
        UiText::Key(k) => k,
        UiText::Plain(s) => panic!("expected a key, got {s}"),
    }
}

#[test]
fn short_text_is_kept_and_long_text_is_cut_with_an_ellipsis() {
    assert_eq!(truncate_chars("abc", 3), "abc");
    assert_eq!(truncate_chars("abcd", 3), "abc…");
    assert_eq!(truncate_chars("", 0), "");
    assert_eq!(truncate_chars("清理内存完成", 4), "清理内存…");
    let long = "x".repeat(30);
    assert_eq!(truncate_chars(&long, BUTTON_STATUS_TRUNCATE_CHARS).chars().count(), 25);
}

#[test]
fn idle_button_offers_a_cleanup() {
    let view = cleanup_button(false, false, "", "", false, "Preparing");
    assert!(!view.disabled && !view.danger && !view.show_progress);
    assert_eq!(view.text_color, ButtonTextColor::Primary);
    assert_eq!(key(&view.label), "button.cleanup");
    assert_eq!(key(&view.tooltip), "tooltip.start_cleanup");
}

#[test]
fn button_without_areas_is_disabled_and_dimmed() {
    let view = cleanup_button(true, false, "", "Done", true, "Preparing");
    assert!(view.disabled);
    assert!(view.danger);
    assert_eq!(view.text_color, ButtonTextColor::Muted);
    assert_eq!(plain(&view.label), "Done");
    assert_eq!(key(&view.tooltip), "tooltip.select_areas");
}

#[test]
fn running_cleanup_shows_its_step() {
    let view = cleanup_button(false, true, "", "", false, "Preparing");
    assert!(view.show_progress);
    assert_eq!(plain(&view.label), "Preparing");
    assert_eq!(plain(&view.tooltip), "Preparing");
    let step = "Standby List (Low Priority) and more";
    let view = cleanup_button(false, true, step, "", false, "Preparing");
    assert_eq!(plain(&view.label), "Standby List (Low Priori…");
    assert_eq!(plain(&view.tooltip), step);
}

#[test]
fn failed_run_is_shown_as_danger() {
    let view = cleanup_button(false, false, "", "Cleanup failed: Working Set", true, "Preparing");
    assert!(view.danger);
    assert_eq!(view.text_color, ButtonTextColor::Danger);
    assert_eq!(plain(&view.label), "Cleanup failed: Working …");
    assert_eq!(plain(&view.tooltip), "Cleanup failed: Working Set");
    let ok = cleanup_button(false, false, "", "Completed", false, "Preparing");
    assert!(!ok.danger);
    assert_eq!(ok.text_color, ButtonTextColor::Primary);
}

#[test]
fn icon_cache_tooltip_follows_the_refresh() {
    assert_eq!(key(&icon_cache_tooltip(true, "old")), "icon_cache.refreshing");
    assert_eq!(key(&icon_cache_tooltip(false, "")), "icon_cache.tooltip");
    assert_eq!(plain(&icon_cache_tooltip(false, "Refreshed")), "Refreshed");
}
