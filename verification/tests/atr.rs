use poly_strategy::atr::AtrTracker;
use poly_strategy::decimal::Decimal;
use poly_strategy::types::CryptoAsset;

/// A decimal from its text.
fn dec(text: &str) -> Decimal {
    let d: rust_decimal::Decimal = text.parse().unwrap();
    Decimal::from_parts(d.mantissa(), d.scale()).unwrap()
}

#[test]
fn test_atr_tracker_basic() {
    let mut tracker = AtrTracker::new(100, 3);

    // Record some prices
    tracker.record_price(CryptoAsset::Btc, dec("95000"), 0);
    tracker.record_price(CryptoAsset::Btc, dec("95100"), 1);
    tracker.record_price(CryptoAsset::Btc, dec("94900"), 2);

    // Should return minimum ATR since no windows completed
    let atr = tracker.get_atr(CryptoAsset::Btc);
    assert_eq!(atr, dec("20")); // Minimum for BTC
}

#[test]
fn test_atr_tracker_after_windows() {
    let mut tracker = AtrTracker::new(10, 2);

    // First window: range $100
    tracker.record_price(CryptoAsset::Btc, dec("95000"), 0);
    tracker.record_price(CryptoAsset::Btc, dec("95100"), 0);

    // Second window: range $200
    tracker.record_price(CryptoAsset::Btc, dec("95000"), 15);
    tracker.record_price(CryptoAsset::Btc, dec("95200"), 15);

    // Third price to trigger window completion
    tracker.record_price(CryptoAsset::Btc, dec("95000"), 30);

    // Should have at least one completed window
    assert!(tracker.trackers.get(CryptoAsset::Btc).completed_windows() >= 1);
}

#[test]
fn test_minimum_atr_enforced() {
    let tracker = AtrTracker::default();

    // Without any price data, should return minimum
    assert!(tracker.get_atr(CryptoAsset::Btc) >= dec("20"));
    assert!(tracker.get_atr(CryptoAsset::Eth) >= dec("1"));
    assert!(tracker.get_atr(CryptoAsset::Sol) >= dec("0.20"));
}

#[test]
fn test_warmup_with_historical_prices() {
    let mut tracker = AtrTracker::default();

    // Warmup with 10 prices showing ~$100 range
    let prices: Vec<Decimal> = vec![
        dec("95000"), dec("95050"), dec("95100"), dec("95000"), dec("95080"),
        dec("95020"), dec("95090"), dec("95030"), dec("95060"), dec("95010"),
    ];

    tracker.warmup(CryptoAsset::Btc, &prices, 0);

    // Should be warmed up with calculated ATR
    assert!(tracker.is_warmed_up(CryptoAsset::Btc));

    // ATR should reflect the price range (roughly $50-100)
    let atr = tracker.get_atr(CryptoAsset::Btc);
    assert!(atr >= dec("20"), "ATR should be at least minimum: {:?}", atr);
    assert!(atr <= dec("150"), "ATR should be reasonable: {:?}", atr);
}

#[test]
fn test_warmup_empty_prices() {
    let mut tracker = AtrTracker::default();

    // Empty warmup should not crash
    tracker.warmup(CryptoAsset::Btc, &[], 0);

    // Should return minimum ATR
    assert_eq!(tracker.get_atr(CryptoAsset::Btc), dec("20"));
}

#[test]
fn test_warmup_single_price() {
    let mut tracker = AtrTracker::default();

    // Single price warmup
    tracker.warmup(CryptoAsset::Btc, &[dec("95000")], 0);

    // Should return minimum ATR (not enough data)
    assert_eq!(tracker.get_atr(CryptoAsset::Btc), dec("20"));
}
