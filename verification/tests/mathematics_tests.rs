use memory_buffers::mathematics::{
    add_with_overflow_cap, min, round_down, round_up, subtract_with_underflow_cap,
};

#[test]
fn round_up_exact_values() {
    assert_eq!(round_up(0, 4096), 0);
    assert_eq!(round_up(1, 4096), 4096);
    assert_eq!(round_up(4096, 4096), 4096);
    assert_eq!(round_up(4097, 4096), 8192);
    assert_eq!(round_up(100, 0), 100);
}

#[test]
fn round_up_saturates_at_word_top() {
    assert_eq!(round_up(usize::MAX - 1, 4096), usize::MAX);
}

#[test]
fn round_up_is_idempotent() {
    let once = round_up(12345, 64);
    assert_eq!(round_up(once, 64), once);
    let capped = round_up(usize::MAX - 5, 64);
    assert_eq!(round_up(capped, 64), capped);
}

#[test]
fn round_down_exact_values() {
    assert_eq!(round_down(0, 4096), 0);
    assert_eq!(round_down(4095, 4096), 0);
    assert_eq!(round_down(4096, 4096), 4096);
    assert_eq!(round_down(8191, 4096), 4096);
    assert_eq!(round_down(100, 0), 100);
}

#[test]
fn min_returns_smaller() {
    assert_eq!(min(3, 5), 3);
    assert_eq!(min(5, 3), 3);
    assert_eq!(min(7, 7), 7);
}

#[test]
fn saturating_arithmetic_caps() {
    assert_eq!(add_with_overflow_cap(usize::MAX, 1), usize::MAX);
    assert_eq!(add_with_overflow_cap(2, 3), 5);
    assert_eq!(subtract_with_underflow_cap(2, 3), 0);
    assert_eq!(subtract_with_underflow_cap(3, 2), 1);
}

#[test]
fn saturation_never_exceeds_plain_sum() {
    // With the same delta added and removed, the capped results stay within
    // what plain arithmetic gives.
    let cases: [(usize, usize, usize); 4] = [
        (10, 4, 20),
        (usize::MAX - 1, 5, usize::MAX),
        (0, 0, 0),
        (7, 7, 7),
    ];
    for (a, b, c) in cases {
        let lhs = add_with_overflow_cap(a, b) as u128 + subtract_with_underflow_cap(c, b) as u128;
        assert!(lhs <= a as u128 + c as u128);
    }
}
