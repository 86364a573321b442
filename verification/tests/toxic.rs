use poly_strategy::decimal::Decimal;
use poly_strategy::toxic::{
    ToxicFlowConfig, ToxicFlowDetector, ToxicFlowWarning, ToxicIndicators, ToxicSeverity,
};
use poly_strategy::types::Side;

/// A decimal from its text.
fn dec(text: &str) -> Decimal {
    let d: rust_decimal::Decimal = text.parse().unwrap();
    Decimal::from_parts(d.mantissa(), d.scale()).unwrap()
}

fn make_detector() -> ToxicFlowDetector {
    ToxicFlowDetector::new(ToxicFlowConfig {
        size_multiplier_threshold: dec("50"),
        sudden_appearance_ms: 500,
        rolling_window_size: 100,
        min_samples: 10,
        bbo_shift_threshold_bps: 100,
    })
}

fn seed_detector(detector: &mut ToxicFlowDetector, token_id: &str, avg_size: Decimal, count: usize) {
    for i in 0..count {
        detector.check_order(
            token_id,
            Side::Buy,
            avg_size,
            i as i64 * 1000, // 1 second apart
            Some(dec("0.50")),
            Some(dec("0.51")),
        );
    }
}

#[test]
fn toxic_test_config_default() {
    let config = ToxicFlowConfig::default();
    assert_eq!(config.size_multiplier_threshold, dec("50"));
    assert_eq!(config.sudden_appearance_ms, 500);
    assert_eq!(config.rolling_window_size, 100);
    assert_eq!(config.min_samples, 10);
}

#[test]
fn test_severity_levels() {
    assert!(ToxicSeverity::Low < ToxicSeverity::Medium);
    assert!(ToxicSeverity::Medium < ToxicSeverity::High);
    assert!(ToxicSeverity::High < ToxicSeverity::Critical);

    assert_eq!(ToxicSeverity::Low.score(), 25);
    assert_eq!(ToxicSeverity::Critical.score(), 100);

    assert!(!ToxicSeverity::Low.should_block_trading());
    assert!(!ToxicSeverity::Medium.should_block_trading());
    assert!(ToxicSeverity::High.should_block_trading());
    assert!(ToxicSeverity::Critical.should_block_trading());
}

#[test]
fn test_severity_size_multiplier() {
    assert_eq!(ToxicSeverity::Low.size_multiplier(), dec("0.75"));
    assert_eq!(ToxicSeverity::Medium.size_multiplier(), dec("0.50"));
    assert_eq!(ToxicSeverity::High.size_multiplier(), dec("0.25"));
    assert_eq!(ToxicSeverity::Critical.size_multiplier(), dec("0"));
}

#[test]
fn test_no_detection_before_min_samples() {
    let mut detector = make_detector();

    // Add 9 orders (below min_samples of 10)
    for i in 0..9 {
        let result = detector.check_order(
            "token1",
            Side::Buy,
            dec("100"),
            i * 1000,
            Some(dec("0.50")),
            Some(dec("0.51")),
        );
        assert!(result.is_none(), "Should not detect before min_samples");
    }

    // 10th order enables detection
    assert_eq!(detector.sample_count("token1"), 9);
}

#[test]
fn test_detect_large_order() {
    let mut detector = make_detector();

    // Seed with normal orders (avg = 100)
    seed_detector(&mut detector, "token1", dec("100"), 15);

    // Large order: 5000 = 50x average (exactly at threshold)
    let result = detector.check_order(
        "token1",
        Side::Buy,
        dec("5000"),
        20_000, // 20 seconds later
        Some(dec("0.50")),
        Some(dec("0.51")),
    );

    assert!(result.is_some());
    let warning = result.unwrap();
    assert!(warning.indicators.large_order);
    assert_eq!(warning.order_size, dec("5000"));
    assert!(warning.size_multiplier >= dec("50"));
}

#[test]
fn test_detect_extreme_size() {
    let mut detector = make_detector();

    // Seed with normal orders (avg = 100)
    seed_detector(&mut detector, "token1", dec("100"), 15);

    // Extreme order: 10000 = 100x average (2x threshold)
    let result = detector.check_order(
        "token1",
        Side::Buy,
        dec("10000"),
        20_000,
        Some(dec("0.50")),
        Some(dec("0.51")),
    );

    assert!(result.is_some());
    let warning = result.unwrap();
    assert!(warning.indicators.extreme_size);
    assert_eq!(warning.severity, ToxicSeverity::Critical);
}

#[test]
fn test_detect_sudden_appearance() {
    let mut detector = make_detector();

    // Seed with normal orders
    seed_detector(&mut detector, "token1", dec("100"), 15);

    // Record last update time
    let last_ms = 14_000i64;

    // Sudden large order: within 500ms of last
    // Note: we need a large order for detection since sudden alone isn't enough
    // unless combined with other factors
    let result = detector.check_order(
        "token1",
        Side::Buy,
        dec("5000"), // 50x
        last_ms + 100, // 100ms later (sudden)
        Some(dec("0.50")),
        Some(dec("0.51")),
    );

    assert!(result.is_some());
    let warning = result.unwrap();
    assert!(warning.indicators.sudden_appearance);
    assert!(warning.indicators.large_order);
    // Large + sudden = High severity
    assert!(warning.severity >= ToxicSeverity::High);
}

#[test]
fn test_detect_bbo_shift() {
    let mut detector = make_detector();

    // Seed with normal orders at stable BBO
    seed_detector(&mut detector, "token1", dec("100"), 15);

    // Large order with BBO shift
    // Previous ask was 0.51, now 0.54 = 5.88% shift (588 bps)
    let result = detector.check_order(
        "token1",
        Side::Buy,
        dec("5000"),
        20_000,
        Some(dec("0.50")),
        Some(dec("0.54")), // Shifted from 0.51
    );

    assert!(result.is_some());
    let warning = result.unwrap();
    assert!(warning.indicators.bbo_shift);
    assert!(warning.bbo_shift_bps.is_some());
    assert!(warning.bbo_shift_bps.unwrap() >= 100);
}

#[test]
fn test_no_detection_for_normal_orders() {
    let mut detector = make_detector();

    // Seed with normal orders
    seed_detector(&mut detector, "token1", dec("100"), 15);

    // Normal order: not large, not sudden
    let result = detector.check_order(
        "token1",
        Side::Buy,
        dec("100"), // Same as average
        20_000,    // Not sudden
        Some(dec("0.50")),
        Some(dec("0.51")), // No BBO shift
    );

    assert!(result.is_none(), "Should not flag normal orders");
}

#[test]
fn test_severity_calculation() {
    // 1 indicator = Low
    let mut indicators = ToxicIndicators::default();
    indicators.large_order = true;

    let detector = make_detector();
    let severity = detector.calculate_severity(&indicators, dec("50"));
    assert_eq!(severity, ToxicSeverity::Low);

    // 2 indicators = Medium
    indicators.bbo_shift = true;
    let severity = detector.calculate_severity(&indicators, dec("50"));
    assert_eq!(severity, ToxicSeverity::Medium);

    // Large + sudden = High
    indicators.bbo_shift = false;
    indicators.sudden_appearance = true;
    let severity = detector.calculate_severity(&indicators, dec("50"));
    assert_eq!(severity, ToxicSeverity::High);

    // Extreme size = Critical
    indicators.extreme_size = true;
    let severity = detector.calculate_severity(&indicators, dec("100"));
    assert_eq!(severity, ToxicSeverity::Critical);
}

#[test]
fn test_would_be_large() {
    let mut detector = make_detector();

    // No state yet - false
    assert!(!detector.would_be_large("token1", dec("5000")));

    // Seed
    seed_detector(&mut detector, "token1", dec("100"), 15);

    // Check sizes
    assert!(!detector.would_be_large("token1", dec("100")));  // 1x
    assert!(!detector.would_be_large("token1", dec("4900"))); // 49x
    assert!(detector.would_be_large("token1", dec("5000")));  // 50x
    assert!(detector.would_be_large("token1", dec("10000"))); // 100x
}

#[test]
fn test_average_order_size() {
    let mut detector = make_detector();

    // No state
    assert!(detector.average_order_size("token1").is_none());

    // Seed with avg = 100
    seed_detector(&mut detector, "token1", dec("100"), 10);

    let avg = detector.average_order_size("token1").unwrap();
    assert_eq!(avg, dec("100"));
}

#[test]
fn test_rolling_window() {
    let mut detector = ToxicFlowDetector::new(ToxicFlowConfig {
        rolling_window_size: 5, // Small window for testing
        min_samples: 3,
        ..Default::default()
    });

    // Add 5 orders of size 100
    for i in 0..5 {
        detector.check_order(
            "token1",
            Side::Buy,
            dec("100"),
            i * 1000,
            None,
            None,
        );
    }
    assert_eq!(detector.average_order_size("token1"), Some(dec("100")));
    assert_eq!(detector.sample_count("token1"), 5);

    // Add order of size 200 - oldest (100) should be removed
    // New window: 100, 100, 100, 100, 200 = 600/5 = 120
    detector.check_order(
        "token1",
        Side::Buy,
        dec("200"),
        5000,
        None,
        None,
    );
    assert_eq!(detector.sample_count("token1"), 5);
    assert_eq!(detector.average_order_size("token1"), Some(dec("120")));
}

#[test]
fn test_reset_token() {
    let mut detector = make_detector();
    seed_detector(&mut detector, "token1", dec("100"), 10);
    seed_detector(&mut detector, "token2", dec("200"), 10);

    assert!(detector.average_order_size("token1").is_some());
    assert!(detector.average_order_size("token2").is_some());

    detector.reset_token("token1");

    assert!(detector.average_order_size("token1").is_none());
    assert!(detector.average_order_size("token2").is_some());
}

#[test]
fn test_reset_all() {
    let mut detector = make_detector();
    seed_detector(&mut detector, "token1", dec("100"), 10);
    seed_detector(&mut detector, "token2", dec("200"), 10);

    detector.reset();

    assert!(detector.average_order_size("token1").is_none());
    assert!(detector.average_order_size("token2").is_none());
}

#[test]
fn test_indicators_count() {
    let mut indicators = ToxicIndicators::default();
    assert_eq!(indicators.count(), 0);

    indicators.large_order = true;
    assert_eq!(indicators.count(), 1);

    indicators.sudden_appearance = true;
    assert_eq!(indicators.count(), 2);

    indicators.bbo_shift = true;
    assert_eq!(indicators.count(), 3);

    indicators.extreme_size = true;
    assert_eq!(indicators.count(), 4);
}

#[test]
fn test_warning_helpers() {
    let warning = ToxicFlowWarning {
        token_id: "token1".to_string(),
        side: Side::Buy,
        order_size: dec("5000"),
        avg_order_size: dec("100"),
        size_multiplier: dec("50"),
        time_since_last_ms: 1000,
        bbo_shift_bps: Some(100),
        severity: ToxicSeverity::High,
        detected_at_ms: 12345,
        indicators: ToxicIndicators {
            large_order: true,
            sudden_appearance: true,
            ..Default::default()
        },
    };

    assert!(warning.should_block());
    assert_eq!(warning.size_multiplier(), dec("0.25"));
}

#[test]
fn test_severity_display() {
    assert_eq!(ToxicSeverity::Low.to_string(), "LOW");
    assert_eq!(ToxicSeverity::Medium.to_string(), "MEDIUM");
    assert_eq!(ToxicSeverity::High.to_string(), "HIGH");
    assert_eq!(ToxicSeverity::Critical.to_string(), "CRITICAL");
}

#[test]
fn test_multiple_tokens() {
    let mut detector = make_detector();

    // Different tokens with different averages
    seed_detector(&mut detector, "token1", dec("100"), 15);
    seed_detector(&mut detector, "token2", dec("1000"), 15);

    // 5000 is large for token1 (50x) but small for token2 (5x)
    let result1 = detector.check_order(
        "token1",
        Side::Buy,
        dec("5000"),
        20_000,
        None,
        None,
    );
    assert!(result1.is_some());

    let result2 = detector.check_order(
        "token2",
        Side::Buy,
        dec("5000"),
        20_000,
        None,
        None,
    );
    assert!(result2.is_none());
}
