use flatvec::Storage;

#[test]
fn reserve_growth_policy() {
    let mut s = Storage::new();
    assert_eq!(s.data_capacity(), 0);
    s.reserve(5);
    // Empty store: grows to exactly the immediate need.
    assert_eq!(s.data_capacity(), 5);
    s.reserve(5);
    // The spare room already suffices: no growth.
    assert_eq!(s.data_capacity(), 5);
    s.allocate(5);
    assert_eq!(s.data_len(), 5);
    s.reserve(3);
    // 5 + 3 is below double the capacity: doubles to 10.
    assert_eq!(s.data_capacity(), 10);
    s.reserve(20);
    // 5 + 20 exceeds double the capacity: grows to the need.
    assert_eq!(s.data_capacity(), 25);
}

#[test]
fn allocate_zero_fills() {
    let mut s = Storage::new();
    s.extend_from_slice(&[7u8, 8, 9]);
    s.allocate(4);
    assert_eq!(s.data_len(), 7);
    assert_eq!(s.read_range(0, 7), &[7u8, 8, 9, 0, 0, 0, 0][..]);
}

#[test]
fn extend_commits_what_was_yielded() {
    let mut s = Storage::new();
    s.extend(3u8..8);
    assert_eq!(s.data_len(), 5);
    assert_eq!(s.read_range(0, 5), &[3u8, 4, 5, 6, 7][..]);
    s.extend(0u8..0);
    assert_eq!(s.data_len(), 5);
}

#[test]
fn extend_exact_checks_declared_length() {
    let mut s = Storage::new();
    assert!(s.extend_exact(1u8..4, 3));
    assert_eq!(s.read_range(0, 3), &[1u8, 2, 3][..]);
    assert!(!s.extend_exact(1u8..4, 4));
    // The mismatch is reported, but the yielded prefix stays committed.
    assert_eq!(s.data_len(), 6);
    assert_eq!(s.read_range(3, 6), &[1u8, 2, 3][..]);
}
