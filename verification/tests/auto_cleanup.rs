use memory_cleaner::auto_cleanup::{
    auto_cleanup_allowed, poll_threshold_trigger, threshold_cooldown_elapsed, threshold_trigger_due,
    AutoCleanupSource, AUTO_CLEANUP_SUSTAINED_TICKS, AUTO_CLEANUP_THRESHOLD_COOLDOWN_SECS,
};

#[test]
fn threshold_trigger_requires_sustained_pressure() {
    let cooldown_elapsed = true;
    assert!(!threshold_trigger_due(0, cooldown_elapsed));
    assert!(!threshold_trigger_due(AUTO_CLEANUP_SUSTAINED_TICKS - 1, cooldown_elapsed));
    assert!(threshold_trigger_due(AUTO_CLEANUP_SUSTAINED_TICKS, cooldown_elapsed));
}

#[test]
fn threshold_trigger_requires_cooldown_elapsed() {
    assert!(!threshold_trigger_due(AUTO_CLEANUP_SUSTAINED_TICKS, false));
    assert!(threshold_trigger_due(AUTO_CLEANUP_SUSTAINED_TICKS + 5, true));
}

#[test]
fn initial_threshold_trigger_has_no_cooldown() {
    assert!(threshold_cooldown_elapsed(None));
    assert!(!threshold_cooldown_elapsed(Some(9 * 60 + 59)));
    assert!(threshold_cooldown_elapsed(Some(AUTO_CLEANUP_THRESHOLD_COOLDOWN_SECS)));
}

#[test]
fn cooldown_is_ten_minutes() {
    assert_eq!(AUTO_CLEANUP_THRESHOLD_COOLDOWN_SECS, 600);
    assert_eq!(AUTO_CLEANUP_SUSTAINED_TICKS, 2);
}

#[test]
fn poll_fires_on_second_consecutive_high_reading() {
    let (ticks, fired) = poll_threshold_trigger(true, false, 80, Some(85), 0, None);
    assert_eq!(ticks, 1);
    assert_eq!(fired, None);
    let (ticks, fired) = poll_threshold_trigger(true, false, 80, Some(90), ticks, None);
    assert_eq!(ticks, 0);
    assert_eq!(fired, Some(AutoCleanupSource::Threshold));
}

#[test]
fn poll_resets_when_pressure_drops() {
    let (ticks, fired) = poll_threshold_trigger(true, false, 80, Some(79), 1, None);
    assert_eq!(ticks, 0);
    assert_eq!(fired, None);
}

#[test]
fn poll_respects_cooldown_and_keeps_counting() {
    let (ticks, fired) = poll_threshold_trigger(true, false, 80, Some(95), 1, Some(599));
    assert_eq!(ticks, 2);
    assert_eq!(fired, None);
    let (ticks, fired) = poll_threshold_trigger(true, false, 80, Some(95), ticks, Some(600));
    assert_eq!(ticks, 0);
    assert_eq!(fired, Some(AutoCleanupSource::Threshold));
}

#[test]
fn poll_is_idle_when_disabled_busy_or_threshold_zero() {
    assert_eq!(poll_threshold_trigger(false, false, 80, Some(95), 1, None), (1, None));
    assert_eq!(poll_threshold_trigger(true, true, 80, Some(95), 1, None), (1, None));
    assert_eq!(poll_threshold_trigger(true, false, 0, Some(95), 1, None), (0, None));
}

#[test]
fn unreadable_memory_load_counts_as_zero() {
    assert_eq!(poll_threshold_trigger(true, false, 1, None, 1, None), (0, None));
}

#[test]
fn poll_counter_saturates() {
    assert_eq!(
        poll_threshold_trigger(true, false, 50, Some(60), u32::MAX, Some(0)),
        (u32::MAX, None)
    );
}

#[test]
fn auto_cleanup_gate() {
    assert!(auto_cleanup_allowed(true, false, false));
    assert!(!auto_cleanup_allowed(false, false, false));
    assert!(!auto_cleanup_allowed(true, true, false));
    assert!(!auto_cleanup_allowed(true, false, true));
}

#[test]
fn log_labels() {
    assert_eq!(AutoCleanupSource::Threshold.log_label(), "memory usage threshold");
    assert_eq!(
        AutoCleanupSource::LowMemoryNotification.log_label(),
        "Windows low-memory notification"
    );
}
