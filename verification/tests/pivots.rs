use poly_strategy::decimal::Decimal;
use poly_strategy::pivots::{PivotTracker, Regime};
use poly_strategy::types::CryptoAsset;

/// A decimal from its text.
fn dec(text: &str) -> Decimal {
    let d: rust_decimal::Decimal = text.parse().unwrap();
    Decimal::from_parts(d.mantissa(), d.scale()).unwrap()
}

#[test]
fn test_regime_weight() {
    assert!(Regime::Ranging.pivot_weight() > Regime::Trending.pivot_weight());
    assert!(Regime::Unknown.pivot_weight() > Regime::Trending.pivot_weight());
    assert!(Regime::Unknown.pivot_weight() < Regime::Ranging.pivot_weight());
}

#[test]
fn test_basic_pivot_tracking() {
    let mut tracker = PivotTracker::default();
    tracker.set_atr(CryptoAsset::Btc, dec("100"));

    // Simulate price moving in a range
    let prices = [
        100000, 100050, 100100, 100080, 100120, // Up
        100150, 100100, 100050, 100020, 100000, // Down to support
        100030, 100080, 100130, 100150, 100180, // Up to resistance
        100150, 100100, 100070, 100030, 100010, // Down
    ];

    for (i, &price) in prices.iter().enumerate() {
        tracker.record_price(
            CryptoAsset::Btc,
            Decimal::from_i64(price),
            (i * 60) as i64,
        );
    }

    assert!(tracker.is_ready(CryptoAsset::Btc));
}

#[test]
fn test_confidence_near_support_favor_up() {
    let mut tracker = PivotTracker::default();
    tracker.set_atr(CryptoAsset::Btc, dec("100"));

    // Manually set support/resistance for testing
    tracker.support_levels.set(CryptoAsset::Btc, vec![dec("99900")]);
    tracker.resistance_levels.set(CryptoAsset::Btc, vec![dec("100100")]);

    // Price near support, betting UP = should be good
    let conf = tracker.calculate_confidence(CryptoAsset::Btc, dec("99920"), true);
    println!("Near support, favor UP: {:?}", conf);
    assert!(conf.multiplier > Decimal::one(), "Should boost confidence near support when betting UP");

    // Price near support, betting DOWN = should be bad
    let conf = tracker.calculate_confidence(CryptoAsset::Btc, dec("99920"), false);
    println!("Near support, favor DOWN: {:?}", conf);
    assert!(conf.multiplier < Decimal::one(), "Should penalize confidence near support when betting DOWN");
}

#[test]
fn test_confidence_near_resistance_favor_down() {
    let mut tracker = PivotTracker::default();
    tracker.set_atr(CryptoAsset::Btc, dec("100"));

    tracker.support_levels.set(CryptoAsset::Btc, vec![dec("99900")]);
    tracker.resistance_levels.set(CryptoAsset::Btc, vec![dec("100100")]);

    // Price near resistance, betting DOWN = should be good
    let conf = tracker.calculate_confidence(CryptoAsset::Btc, dec("100080"), false);
    println!("Near resistance, favor DOWN: {:?}", conf);
    assert!(conf.multiplier > Decimal::one(), "Should boost confidence near resistance when betting DOWN");

    // Price near resistance, betting UP = should be bad
    let conf = tracker.calculate_confidence(CryptoAsset::Btc, dec("100080"), true);
    println!("Near resistance, favor UP: {:?}", conf);
    assert!(conf.multiplier < Decimal::one(), "Should penalize confidence near resistance when betting UP");
}

#[test]
fn test_confidence_mid_range() {
    let mut tracker = PivotTracker::default();
    tracker.set_atr(CryptoAsset::Btc, dec("100"));

    tracker.support_levels.set(CryptoAsset::Btc, vec![dec("99900")]);
    tracker.resistance_levels.set(CryptoAsset::Btc, vec![dec("100100")]);

    // Price in middle of range - should be neutral
    let conf = tracker.calculate_confidence(CryptoAsset::Btc, dec("100000"), true);
    println!("Mid range: {:?}", conf);
    // Multiplier should be close to 1.0
    assert!(conf.multiplier > dec("0.9") && conf.multiplier < dec("1.1"),
        "Mid-range should have neutral multiplier, got {:?}", conf.multiplier);
}

#[test]
fn test_cluster_levels() {
    let atr = dec("100");
    let levels = vec![dec("100"), dec("102"), dec("105"), dec("150"), dec("152")];
    let clustered = PivotTracker::cluster_levels(levels, atr);

    // Should cluster 100,102,105 together and 150,152 together
    assert!(clustered.len() <= 3, "Should cluster nearby levels");
}
