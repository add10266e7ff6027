use memory_cleaner::window::{
    collapsed_window_height, expanded_window_height, memory_polling_enabled,
    settings_reveal_height, threshold_polling_enabled, window_min_size, window_options, window_size,
    CONTENT_PADDING,
};

#[test]
fn expanded_window_is_taller_than_collapsed() {
    let collapsed = collapsed_window_height(6);
    let expanded = expanded_window_height(6);
    assert!(expanded > collapsed);
}

#[test]
fn memory_polling_follows_window_visibility() {
    assert!(memory_polling_enabled(true));
    assert!(!memory_polling_enabled(false));
}

#[test]
fn threshold_polling_requires_enabled_nonzero_threshold() {
    assert!(threshold_polling_enabled(true, 80));
    assert!(!threshold_polling_enabled(true, 0));
    assert!(!threshold_polling_enabled(false, 80));
}

fn float_collapsed(content_padding: f32) -> f32 {
    let memory = 2. + 32. + 2. * 2. + 20. + 4. + 108. + 4. + 16.;
    34. + content_padding + memory + 6. + 48. + content_padding + 4.
}

fn float_expanded(content_padding: f32) -> f32 {
    let memory = 2. + 32. + 2. * 2. + 20. + 4. + 108. + 4. + 16.;
    let cleanup_areas = 24. + 6. + 22. * 4. + 6. * 4.;
    let cleanup = 2. + content_padding * 2. + 20. + 6. + cleanup_areas;
    34. + content_padding + memory + 6. + cleanup + 6. + 48. + content_padding - 22.
}

#[test]
fn window_heights_match_layout_metrics() {
    assert_eq!(collapsed_window_height(CONTENT_PADDING) as f32, float_collapsed(6.));
    assert_eq!(expanded_window_height(CONTENT_PADDING) as f32, float_expanded(6.));
    assert_eq!(window_size(false), (520, collapsed_window_height(CONTENT_PADDING)));
    assert_eq!(window_size(true), (520, expanded_window_height(CONTENT_PADDING)));
    assert_eq!(window_min_size(), (520, 294));
}

#[test]
fn window_opens_centred_at_its_collapsed_size() {
    let options = window_options(false);
    assert_eq!((options.width, options.height), window_size(false));
    assert_eq!((options.min_width, options.min_height), window_min_size());
    assert!(!options.resizable && options.centered && options.custom_title_bar);
    let expanded = window_options(true);
    assert!(expanded.height > options.height);
}

#[test]
fn settings_panel_adds_the_difference_of_the_two_heights() {
    assert_eq!(settings_reveal_height(), window_size(true).1 - window_size(false).1);
    assert!(settings_reveal_height() > 0);
}
