use memory_cleaner::messages::CleanupResultMessage;
use memory_cleaner::optimize::{MemoryAreas, WORKING_SET_BIT};
use memory_cleaner::runner::{prepare_run, run_outcome, OptimizeRunResult, RunBlocked};
use memory_cleaner::settings::Settings;

#[test]
fn run_reports_select_areas_when_nothing_enabled() {
    let settings = Settings { memory_areas: 0, ..Default::default() };
    let blocked = prepare_run(true, settings.memory_areas(), &settings.excluded_processes)
        .expect_err("nothing selected");
    assert_eq!(blocked, RunBlocked::NothingSelected);
    assert_eq!(blocked.message_key(), "tooltip.select_areas");
    let result = OptimizeRunResult::not_started(blocked.message_key().to_string());
    assert!(result.completed.is_empty());
    assert!(result.errors.is_empty());
    assert!(!result.has_errors);
}

#[test]
fn run_needs_the_lock() {
    let areas = MemoryAreas::from_bits_truncate(WORKING_SET_BIT);
    assert_eq!(prepare_run(false, areas, &[]).map(|s| s.len()), Err(RunBlocked::AlreadyRunning));
    assert_eq!(prepare_run(true, areas, &[]).map(|s| s.len()), Ok(1));
}

#[test]
fn outcome_reports_freed_memory_and_failures() {
    let (freed, message) = run_outcome(&["Working Set"], &["Standby List"], 1_000, Some(2_000_000_000));
    assert_eq!(freed, "+1.86 GB");
    assert!(matches!(message, CleanupResultMessage::PartialDetail { count: 1, .. }));
    let (freed, message) = run_outcome(&["Working Set"], &[], 1_000, None);
    assert_eq!(freed, "");
    assert!(matches!(message, CleanupResultMessage::Completed { count: 1 }));
    let result = OptimizeRunResult::finished(vec!["a".into()], vec!["b".into()], freed, "s".into());
    assert!(result.has_errors);
}
