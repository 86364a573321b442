use poly_strategy::decimal::Decimal;
use poly_strategy::regime::{AdaptiveParams, MarketRegime, RegimeDetector};
use poly_strategy::types::CryptoAsset;

/// A decimal from its text.
fn dec(text: &str) -> Decimal {
    let d: rust_decimal::Decimal = text.parse().unwrap();
    Decimal::from_parts(d.mantissa(), d.scale()).unwrap()
}

#[test]
fn test_regime_from_atr_ratio() {
    assert_eq!(MarketRegime::from_atr_ratio(dec("2.0")), MarketRegime::High);
    assert_eq!(MarketRegime::from_atr_ratio(dec("1.5")), MarketRegime::Normal);
    assert_eq!(MarketRegime::from_atr_ratio(dec("1.0")), MarketRegime::Normal);
    assert_eq!(MarketRegime::from_atr_ratio(dec("0.7")), MarketRegime::Normal);
    assert_eq!(MarketRegime::from_atr_ratio(dec("0.5")), MarketRegime::Low);
    assert_eq!(MarketRegime::from_atr_ratio(dec("0.3")), MarketRegime::Low);
}

#[test]
fn test_adaptive_params_for_regime() {
    let high = AdaptiveParams::for_regime(MarketRegime::High, dec("1.8"));
    assert_eq!(high.max_edge_factor, dec("0.25"));
    assert!(high.phase_confidence_multiplier > Decimal::one());

    let low = AdaptiveParams::for_regime(MarketRegime::Low, dec("0.5"));
    assert_eq!(low.max_edge_factor, dec("0.12"));
    assert!(low.phase_confidence_multiplier < Decimal::one());

    let normal = AdaptiveParams::for_regime(MarketRegime::Normal, dec("1.0"));
    assert_eq!(normal.max_edge_factor, dec("0.20"));
    assert_eq!(normal.phase_confidence_multiplier, Decimal::one());
}

#[test]
fn test_adjusted_phase_confidence() {
    let low = AdaptiveParams::for_regime(MarketRegime::Low, dec("0.5"));

    // Early phase threshold: 0.80 * 0.85 = 0.68
    let early = low.adjusted_phase_confidence(dec("0.80"));
    assert_eq!(early, dec("0.68"));

    // Final phase threshold: 0.40 * 0.85 = 0.34 -> clamped to 0.30
    let final_phase = low.adjusted_phase_confidence(dec("0.40"));
    assert_eq!(final_phase, dec("0.34"));
}

#[test]
fn test_regime_detector_default() {
    let detector = RegimeDetector::new(0);
    assert_eq!(detector.current_regime(), MarketRegime::Normal);
    assert!(!detector.is_warmed_up());
}

#[test]
fn test_regime_detector_warmup() {
    let mut detector = RegimeDetector::with_config(
        3_600_000,
        5, // Low sample requirement for test
        1, // Fast cooldown for test
        0,
    );

    // Record enough ATR values
    for i in 0..10 {
        // Every 2 ms, which exceeds the cooldown
        detector.update_atr(CryptoAsset::Btc, Decimal::from_i64(50 + i), 2 * i);
    }

    assert!(detector.is_warmed_up());
}

#[test]
fn test_low_volatility_detection() {
    let mut detector = RegimeDetector::with_config(
        3_600_000,
        5,
        1,
        0,
    );

    // First establish a baseline with normal ATR
    for i in 0..10 {
        detector.update_atr(CryptoAsset::Btc, dec("100"), 2 * i);
    }

    // Now record much lower ATR (simulating quiet market)
    for i in 10..20 {
        detector.update_atr(CryptoAsset::Btc, dec("40"), 2 * i); // 40% of baseline
    }

    // Should detect low volatility
    // Note: This might still be Normal depending on averaging, but ratio should be < 1
    assert!(detector.cached_params.atr_ratio < Decimal::one());
}

#[test]
fn test_force_regime() {
    let mut detector = RegimeDetector::new(0);

    detector.force_regime(MarketRegime::Low);
    assert_eq!(detector.current_regime(), MarketRegime::Low);
    assert_eq!(detector.get_adaptive_params().max_edge_factor, dec("0.12"));

    detector.force_regime(MarketRegime::High);
    assert_eq!(detector.current_regime(), MarketRegime::High);
    assert_eq!(detector.get_adaptive_params().max_edge_factor, dec("0.25"));
}

#[test]
fn test_regime_display() {
    assert_eq!(MarketRegime::High.to_string(), "high_vol");
    assert_eq!(MarketRegime::Normal.to_string(), "normal");
    assert_eq!(MarketRegime::Low.to_string(), "low_vol");
}
