use memory_cleaner::log::{
    debug_output_bytes, log_msg, parse_line_timestamp, purge_due, record_file_outcome,
    retained_log_content, set_debug_enabled, timestamp, LogState, LOG_PURGE_INTERVAL_SECS,
    LOG_RETENTION_SECS, MAX_UNTIMESTAMPED_LOG_BYTES, MAX_UNTIMESTAMPED_LOG_LINES,
};

#[test]
fn parse_line_timestamp_reads_unix_prefix() {
    assert_eq!(parse_line_timestamp("[1700000000.123] hello\n"), Some(1_700_000_000));
    assert_eq!(parse_line_timestamp("no timestamp"), None);
}

#[test]
fn retention_window_is_seven_days() {
    assert_eq!(LOG_RETENTION_SECS, 7 * 24 * 60 * 60);
}

#[test]
fn purge_is_throttled_after_the_first_write() {
    assert!(purge_due(0, 100));
    assert!(!purge_due(100, 100 + LOG_PURGE_INTERVAL_SECS - 1));
    assert!(purge_due(100, 100 + LOG_PURGE_INTERVAL_SECS));
    assert!(purge_due(200, 100));
}

#[test]
fn retention_removes_stale_timestamped_lines() {
    let now = LOG_RETENTION_SECS + 100;
    let content = format!("[1.000] stale\n[{now}.000] current\n");
    let retained = retained_log_content(&content, now).expect("content should change");
    assert_eq!(retained, format!("[{now}.000] current\n"));
}

#[test]
fn retention_bounds_untimestamped_content() {
    let content: String = (0..300).map(|index| format!("malformed-{index}\n")).collect();
    let retained = retained_log_content(&content, 1).expect("content should be bounded");
    assert_eq!(retained.lines().count(), MAX_UNTIMESTAMPED_LOG_LINES);
    assert!(!retained.contains("malformed-0\n"));
    assert!(retained.contains("malformed-299\n"));
}

#[test]
fn retention_drops_oversized_untimestamped_line() {
    let content = "x".repeat(MAX_UNTIMESTAMPED_LOG_BYTES + 1);
    let retained = retained_log_content(&content, 1).expect("content should be bounded");
    assert!(retained.is_empty());
}

#[test]
fn retention_keeps_unchanged_content() {
    let content = "[500.000] recent\nplain\n";
    assert_eq!(retained_log_content(content, 1000), None);
}

#[test]
fn retention_drops_blank_lines() {
    assert_eq!(
        retained_log_content("[900.000] a\n   \n", 1000),
        Some("[900.000] a\n".to_string())
    );
}

#[test]
fn parse_rejects_malformed_prefixes() {
    assert_eq!(parse_line_timestamp("[abc.1] x"), None);
    assert_eq!(parse_line_timestamp("[.5] x"), None);
    assert_eq!(parse_line_timestamp("[42] x"), Some(42));
    assert_eq!(parse_line_timestamp("[18446744073709551616.0] x"), None);
}

#[test]
fn timestamp_formats_seconds_and_millis() {
    assert_eq!(timestamp(Some((1700000000, 7))), "1700000000.007");
    assert_eq!(timestamp(Some((5, 123))), "5.123");
}

#[test]
fn written_line_reads_back_its_timestamp() {
    let mut state = LogState::new();
    set_debug_enabled(&mut state, true);
    let w = memory_cleaner::log::write(&mut state, "hello", Some((1234, 5))).expect("debug logging is on");
    assert_eq!(w.line, "[1234.005] hello\n");
    assert_eq!(w.purge_at, Some(1234));
    assert_eq!(parse_line_timestamp(&w.line), Some(1234));
    let again = memory_cleaner::log::write(&mut state, "again", Some((1300, 0))).expect("debug logging is on");
    assert_eq!(again.purge_at, None);
}

#[test]
fn write_is_silent_when_debug_logging_is_off() {
    let mut state = LogState::new();
    assert_eq!(memory_cleaner::log::write(&mut state, "hello", Some((1, 0))), None);
    let (bytes, file) = log_msg(&mut state, "hi", Some((1, 0)));
    assert_eq!(bytes, b"hi\n\0".to_vec());
    assert_eq!(file, None);
}

#[test]
fn debug_output_is_nul_terminated() {
    assert_eq!(debug_output_bytes("ab"), vec![b'a', b'b', b'\n', 0]);
}

#[test]
fn file_errors_are_reported_once() {
    let mut state = LogState::new();
    set_debug_enabled(&mut state, true);
    assert_eq!(record_file_outcome(&mut state, false, true), (false, true));
    assert_eq!(record_file_outcome(&mut state, false, true), (false, false));
    assert_eq!(record_file_outcome(&mut state, false, false), (false, false));
    assert_eq!(record_file_outcome(&mut state, true, true), (true, false));
}

#[test]
fn purging_a_purged_log_drops_nothing_more() {
    let now = LOG_RETENTION_SECS + 100;
    let content = format!(
        "[1.000] old\n\nno stamp\n[{}.000] fresh\nlast without newline",
        LOG_RETENTION_SECS + 50
    );
    let retained = retained_log_content(&content, now).expect("old and blank lines go");
    assert_eq!(retained, format!("no stamp\n[{}.000] fresh\nlast without newline", LOG_RETENTION_SECS + 50));
    assert_eq!(retained_log_content(&retained, now), None);
}
