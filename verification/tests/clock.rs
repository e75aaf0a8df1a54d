use modal_editor::clock::hold_millis;

#[test]
fn small_counts_are_kept() {
    assert_eq!(hold_millis(0), 0);
    assert_eq!(hold_millis(499), 499);
    assert_eq!(hold_millis(1_000_000), 1_000_000);
}

#[test]
fn the_largest_reading_is_kept() {
    assert_eq!(hold_millis(u64::MAX as u128), u64::MAX);
}

#[test]
fn larger_counts_are_held_at_the_largest_reading() {
    assert_eq!(hold_millis(u64::MAX as u128 + 1), u64::MAX);
    assert_eq!(hold_millis(u128::MAX), u64::MAX);
}
