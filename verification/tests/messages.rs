use memory_cleaner::messages::{cleanup_result_message, format_cleanup_effect, format_freed_message, CleanupResultMessage};

#[test]
fn format_freed_message_only_when_memory_increased() {
    assert_eq!(format_freed_message(1_000, 2_000_000_000), "+1.86 GB");
    assert_eq!(format_freed_message(2_000, 1_000), "");
}

#[test]
fn cleanup_effect_reports_pressure_even_without_more_available_memory() {
    assert_eq!(format_cleanup_effect(2_000, 1_000, "80% → 81%"), "80% → 81%");
    assert_eq!(
        format_cleanup_effect(1_000, 2_000_000_000, "80% → 75%"),
        "+1.86 GB · 80% → 75%"
    );
}

#[test]
fn freed_message_is_empty_for_equal_figures() {
    assert_eq!(format_freed_message(5, 5), "");
    assert_eq!(format_freed_message(0, 512 * 1024 * 1024), "+512.00 MB");
}

#[test]
fn result_message_kinds_follow_outcomes() {
    let m = cleanup_result_message(&[], &[], "", ", ");
    assert!(matches!(m, CleanupResultMessage::NothingDone));
    assert_eq!(m.key(), "cleanup.none");

    let m = cleanup_result_message(&[], &["Working Set", "Modified Pages"], "", ", ");
    match &m {
        CleanupResultMessage::Failed { errors } => assert_eq!(errors, "Working Set, Modified Pages"),
        other => panic!("unexpected {other:?}"),
    }
    assert_eq!(m.key(), "cleanup.failed");

    let m = cleanup_result_message(&["Working Set"], &[], "", ", ");
    assert!(matches!(m, CleanupResultMessage::Completed { count: 1 }));

    let m = cleanup_result_message(&["工作集"], &[], "+512.00 MB", "、");
    match &m {
        CleanupResultMessage::CompletedDetail { detail } => assert_eq!(detail, "+512.00 MB"),
        other => panic!("unexpected {other:?}"),
    }

    let m = cleanup_result_message(&["工作集", "待机列表"], &["已修改页面"], "", "、");
    match &m {
        CleanupResultMessage::Partial { count, errors } => {
            assert_eq!(*count, 2);
            assert_eq!(errors, "已修改页面");
        }
        other => panic!("unexpected {other:?}"),
    }

    let m = cleanup_result_message(&["a"], &["b", "c"], "+1.00 MB", "、");
    match &m {
        CleanupResultMessage::PartialDetail { count, errors, detail } => {
            assert_eq!(*count, 1);
            assert_eq!(errors, "b、c");
            assert_eq!(detail, "+1.00 MB");
        }
        other => panic!("unexpected {other:?}"),
    }
    assert_eq!(m.key(), "cleanup.partial_detail");
}

fn failed_errors(message: &CleanupResultMessage) -> &str {
    match message {
        CleanupResultMessage::Failed { errors } => errors,
        CleanupResultMessage::Partial { errors, .. } => errors,
        other => panic!("unexpected {other:?}"),
    }
}

#[test]
fn build_cleanup_result_message_variants_zh() {
    let sep = "、";
    let none = cleanup_result_message(&[], &[], "", sep);
    assert_eq!(none.key(), "cleanup.none");
    let failed = cleanup_result_message(&[], &["工作集"], "", sep);
    assert_eq!(failed.key(), "cleanup.failed");
    assert_eq!(failed_errors(&failed), "工作集");
    let done = cleanup_result_message(&["工作集"], &[], "", sep);
    assert!(matches!(done, CleanupResultMessage::Completed { count: 1 }));
    let detail = cleanup_result_message(&["工作集"], &[], "+512.00 MB", sep);
    assert!(matches!(&detail, CleanupResultMessage::CompletedDetail { detail } if detail == "+512.00 MB"));
    let partial = cleanup_result_message(&["工作集", "待机列表"], &["已修改页面"], "", sep);
    assert!(matches!(&partial, CleanupResultMessage::Partial { count: 2, .. }));
    assert_eq!(failed_errors(&partial), "已修改页面");
    let two_failed = cleanup_result_message(&[], &["工作集", "已修改页面"], "", sep);
    assert_eq!(failed_errors(&two_failed), "工作集、已修改页面");
}

#[test]
fn build_cleanup_result_message_variants_en() {
    let sep = ", ";
    assert_eq!(cleanup_result_message(&[], &[], "", sep).key(), "cleanup.none");
    let failed = cleanup_result_message(&[], &["Working Set", "Modified Pages"], "", sep);
    assert_eq!(failed.key(), "cleanup.failed");
    assert_eq!(failed_errors(&failed), "Working Set, Modified Pages");
    assert!(matches!(
        cleanup_result_message(&["Working Set"], &[], "", sep),
        CleanupResultMessage::Completed { count: 1 }
    ));
    let partial = cleanup_result_message(&["Working Set", "Standby List"], &["Modified Pages"], "", sep);
    assert!(matches!(&partial, CleanupResultMessage::Partial { count: 2, .. }));
    assert_eq!(failed_errors(&partial), "Modified Pages");
}
