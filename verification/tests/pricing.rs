use gas_watcher::classify::alert_exceeded;
use gas_watcher::classify::classify_wei;
use gas_watcher::classify::Tier;
use gas_watcher::display::format_price;

#[test]
fn classify_boundaries() {
    assert_eq!(classify_wei(9_990_000_000), Tier::Low);
    assert_eq!(classify_wei(10_000_000_000), Tier::Normal);
    assert_eq!(classify_wei(29_990_000_000), Tier::Normal);
    assert_eq!(classify_wei(30_000_000_000), Tier::High);
    assert_eq!(classify_wei(99_990_000_000), Tier::High);
    assert_eq!(classify_wei(100_000_000_000), Tier::VeryHigh);
}

#[test]
fn classify_extremes() {
    assert_eq!(classify_wei(0), Tier::Low);
    assert_eq!(classify_wei(u128::MAX), Tier::VeryHigh);
}

#[test]
fn alert_threshold_strict() {
    // 10 gwei threshold, in hundredths of a gwei.
    assert!(!alert_exceeded(10_000_000_000, 1000));
    assert!(alert_exceeded(10_000_000_001, 1000));
    assert!(!alert_exceeded(9_999_999_999, 1000));
}

#[test]
fn format_base_unit() {
    assert_eq!(format_price(1_000_000_000, true), "1000000000 wei");
    assert_eq!(format_price(0, true), "0 wei");
    assert_eq!(format_price(42, true), "42 wei");
}

#[test]
fn format_scaled_unit() {
    assert_eq!(format_price(1_000_000_000, false), "1.00 gwei");
    assert_eq!(format_price(0, false), "0.00 gwei");
    assert_eq!(format_price(1_234_567_890, false), "1.23 gwei");
    assert_eq!(format_price(25_500_000_000, false), "25.50 gwei");
    assert_eq!(format_price(123_456_789_012, false), "123.46 gwei");
}

#[test]
fn format_rounds_half_up() {
    assert_eq!(format_price(1_235_000_000, false), "1.24 gwei");
    assert_eq!(format_price(1_234_999_999, false), "1.23 gwei");
    assert_eq!(format_price(9_999_999, false), "0.01 gwei");
    assert_eq!(format_price(4_999_999, false), "0.00 gwei");
    assert_eq!(format_price(5_000_000, false), "0.01 gwei");
}

#[test]
fn scaled_value_round_trips() {
    // The rendered gwei value, scaled back to wei, stays within half a
    // hundredth of a gwei of the original.
    for wei in [
        0u128,
        1,
        4_999_999,
        5_000_000,
        1_000_000_000,
        1_234_567_890,
        987_654_321_000,
    ] {
        let text = format_price(wei, false);
        let number = text.strip_suffix(" gwei").unwrap();
        let scaled: f64 = number.parse().unwrap();
        let back = scaled * 1e9;
        assert!((back - wei as f64).abs() <= 5_000_000.0, "{text} vs {wei}");
    }
}
