use bezier::binary_split_points;

#[test]
fn seeds_coarse_first() {
    assert_eq!(
        binary_split_points(3),
        vec![(1, 2), (3, 4), (1, 4), (7, 8), (5, 8), (3, 8), (1, 8)]
    );
}

#[test]
fn seeds_none_for_zero_levels() {
    assert!(binary_split_points(0).is_empty());
}

#[test]
fn seeds_count_per_level() {
    let s = binary_split_points(10);
    assert_eq!(s.len(), 1023);
    assert_eq!(s[1022], (1, 1024));
}
