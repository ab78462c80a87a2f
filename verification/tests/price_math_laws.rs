use price_oracle::{
    calculate_percentage_change_bps, calculate_percentage_difference_bps,
    calculate_price_volatility, is_stale,
};

#[test]
fn change_rounds_toward_zero() {
    assert_eq!(calculate_percentage_change_bps(3, 4), Some(3_333));
    assert_eq!(calculate_percentage_change_bps(3, 2), Some(-3_333));
    assert_eq!(calculate_percentage_change_bps(-3, -4), Some(3_333));
    assert_eq!(calculate_percentage_change_bps(-3, -2), Some(-3_333));
}

#[test]
fn change_is_none_on_overflow() {
    assert_eq!(calculate_percentage_change_bps(1, i128::MAX), None);
    assert_eq!(calculate_percentage_change_bps(-1, i128::MAX), None);
    assert_eq!(calculate_percentage_change_bps(i128::MAX, i128::MAX), Some(0));
    assert_eq!(calculate_percentage_difference_bps(1, i128::MAX), None);
    let max_ok = i128::MAX / 10_000;
    assert_eq!(calculate_percentage_change_bps(max_ok, 2 * max_ok), Some(10_000));
}

#[test]
fn difference_is_absolute_change_on_samples() {
    let samples: [(i128, i128); 8] = [
        (1_000_000, 800_000),
        (1_000_000, 1_250_000),
        (3, 2),
        (-3, -4),
        (-7, 11),
        (500, 500),
        (0, 9),
        (1, i128::MAX),
    ];
    for (old, new) in samples {
        let change = calculate_percentage_change_bps(old, new);
        let diff = calculate_percentage_difference_bps(old, new);
        assert_eq!(diff, change.map(|c| c.abs()));
    }
}

#[test]
fn change_follows_direction_from_positive_baseline() {
    assert!(calculate_percentage_change_bps(1_000, 1_001).unwrap() > 0);
    assert!(calculate_percentage_change_bps(1_000, 999).unwrap() < 0);
    assert_eq!(calculate_percentage_change_bps(1_000_000_000, 1_000_000_001), Some(0));
    assert_eq!(calculate_percentage_change_bps(1_000, 1_000), Some(0));
}

#[test]
fn volatility_is_symmetric_and_zero_only_without_move() {
    let samples: [(i128, i128); 5] = [(1, 2), (-5, 5), (0, 0), (i128::MAX, 0), (i128::MIN + 1, 0)];
    for (a, b) in samples {
        assert_eq!(calculate_price_volatility(a, b), calculate_price_volatility(b, a));
        assert_eq!(calculate_price_volatility(a, b) == Some(0), a == b);
    }
    assert_eq!(calculate_price_volatility(-5, 5), Some(10));
}

#[test]
fn volatility_is_none_when_distance_overflows() {
    assert_eq!(calculate_price_volatility(i128::MIN, i128::MAX), None);
    assert_eq!(calculate_price_volatility(i128::MAX, -1), None);
    assert_eq!(calculate_price_volatility(i128::MIN, 0), None);
    assert_eq!(calculate_price_volatility(i128::MIN + 1, 0), Some(i128::MAX));
}

#[test]
fn staleness_persists_and_handles_far_expiry() {
    assert!(!is_stale(999, 1_000, 0));
    assert!(is_stale(1_000, 1_000, 0));
    for now in 1_500u64..1_510 {
        assert!(is_stale(now, 1_000, 500));
    }
    assert!(!is_stale(u64::MAX, u64::MAX, 1));
    assert!(!is_stale(u64::MAX, 1, u64::MAX));
    assert!(is_stale(u64::MAX, 0, u64::MAX));
}
