use alice_energy::phase::correction_targets;

#[test]
fn in_order_corrections_go_to_same_position() {
    assert_eq!(correction_targets(&[1, 2, 3], &[1, 2, 3]), vec![Some(0), Some(1), Some(2)]);
}

#[test]
fn reversed_corrections_found_by_id() {
    assert_eq!(correction_targets(&[0, 1, 2], &[2, 1, 0]), vec![Some(2), Some(1), Some(0)]);
}

#[test]
fn unknown_ids_have_no_target() {
    assert_eq!(correction_targets(&[1, 2], &[2, 9]), vec![Some(1), None]);
    assert_eq!(correction_targets(&[], &[4]), vec![None]);
}

#[test]
fn empty_corrections_have_no_targets() {
    assert!(correction_targets(&[1, 2], &[]).is_empty());
}

#[test]
fn duplicate_ids_in_order_keep_positions() {
    // In node order each correction goes to its own position, even when an
    // id repeats; out of order the first node with the id is chosen.
    assert_eq!(correction_targets(&[5, 5], &[5, 5]), vec![Some(0), Some(1)]);
    assert_eq!(correction_targets(&[5, 5, 6], &[6, 5]), vec![Some(2), Some(0)]);
}
