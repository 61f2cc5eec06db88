use alice_energy::contingency::remaining_lines;

#[test]
fn outage_of_middle_line() {
    assert_eq!(remaining_lines(3, 1), vec![0, 2]);
}

#[test]
fn every_case_has_n_minus_one_lines_without_the_failed_one() {
    for failed in 0..3 {
        let lines = remaining_lines(3, failed);
        assert_eq!(lines.len(), 2);
        assert!(!lines.contains(&failed));
    }
}

#[test]
fn single_line_outage_leaves_nothing() {
    assert!(remaining_lines(1, 0).is_empty());
}
