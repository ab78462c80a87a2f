use price_oracle::{
    calculate_percentage_change_bps, calculate_percentage_difference_bps,
    calculate_price_volatility, is_stale,
};

#[test]
fn test_calculate_percentage_change_bps_for_increase() {
    assert_eq!(
        calculate_percentage_change_bps(1_000_000, 1_200_000),
        Some(2_000)
    );
}

#[test]
fn test_calculate_percentage_change_bps_for_drop() {
    assert_eq!(
        calculate_percentage_change_bps(1_000_000, 800_000),
        Some(-2_000)
    );
}

#[test]
fn test_calculate_percentage_difference_bps_is_absolute() {
    assert_eq!(
        calculate_percentage_difference_bps(1_000_000, 800_000),
        Some(2_000)
    );
    assert_eq!(
        calculate_percentage_difference_bps(1_000_000, 1_250_000),
        Some(2_500)
    );
}

#[test]
fn test_calculate_percentage_change_returns_none_for_zero_baseline() {
    assert_eq!(calculate_percentage_change_bps(0, 1_000_000), None);
    assert_eq!(calculate_percentage_difference_bps(0, 1_000_000), None);
}

#[test]
fn test_price_volatility_increase() {
    assert_eq!(
        calculate_price_volatility(1_000_000, 1_200_000),
        Some(200_000)
    );
}

#[test]
fn test_price_volatility_decrease() {
    assert_eq!(
        calculate_price_volatility(1_200_000, 1_000_000),
        Some(200_000)
    );
}

#[test]
fn test_price_volatility_no_change() {
    assert_eq!(calculate_price_volatility(500_000, 500_000), Some(0));
}

#[test]
fn test_price_volatility_from_zero() {
    assert_eq!(
        calculate_price_volatility(0, 1_000_000),
        Some(1_000_000)
    );
}

#[test]
fn test_price_volatility_to_zero() {
    assert_eq!(
        calculate_price_volatility(1_000_000, 0),
        Some(1_000_000)
    );
}

#[test]
fn test_is_stale_with_mocked_ledger_time() {
    let current_time = 2000u64;
    let stored_timestamp = 1000u64;
    let ttl = 500u64;

    assert!(is_stale(current_time, stored_timestamp, ttl), "Price should be stale");

    assert!(!is_stale(1400u64, 1000u64, 500u64), "Price should not be stale when within TTL");

    assert!(is_stale(1500u64, 1000u64, 500u64), "Price should be stale at expiration boundary");
}
