use memory_cleaner::clipboard::{monitor_paused, move_item_by_id, pause_monitor};

#[test]
fn move_item_by_id_array_moves_to_target_index() {
    // Display order is newest first: third, second, first.
    let ids = [3i64, 2, 1];
    let moved = move_item_by_id(&ids, 1, 3).expect("both ids exist");
    assert_eq!(moved, vec![(1, 3), (3, 2), (2, 1)]);
    let moved = move_item_by_id(&ids, 3, 1).expect("both ids exist");
    assert_eq!(moved, vec![(2, 3), (1, 2), (3, 1)]);
}

#[test]
fn move_is_a_no_op_for_equal_or_missing_ids() {
    assert_eq!(move_item_by_id(&[1, 2], 1, 1), None);
    assert_eq!(move_item_by_id(&[1, 2], 9, 1), None);
    assert_eq!(move_item_by_id(&[1, 2], 1, 9), None);
}

#[test]
fn pause_window() {
    let until = pause_monitor(1_000, 500);
    assert_eq!(until, 1_500);
    assert!(monitor_paused(1_499, until));
    assert!(!monitor_paused(1_500, until));
}
