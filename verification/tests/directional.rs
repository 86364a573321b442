use poly_strategy::confidence::Confidence;
use poly_strategy::decimal::Decimal;
use poly_strategy::directional::{
    DirectionalConfig, DirectionalDetector, DirectionalOpportunity, DirectionalSkipReason,
};
use poly_strategy::signal::Signal;
use poly_strategy::types::{CryptoAsset, MarketState, OrderBook, PriceLevel, calculate_imbalance};

/// A decimal from its text.
fn dec(text: &str) -> Decimal {
    let d: rust_decimal::Decimal = text.parse().unwrap();
    Decimal::from_parts(d.mantissa(), d.scale()).unwrap()
}

/// The same number in `rust_decimal`.
fn ext(d: Decimal) -> rust_decimal::Decimal {
    rust_decimal::Decimal::from_i128_with_scale(d.mantissa(), d.scale())
}

/// The same number in the library.
fn lib(d: rust_decimal::Decimal) -> Decimal {
    Decimal::from_parts(d.mantissa(), d.scale()).unwrap()
}

/// One and a half times the fourth root of the product of the factors.
fn scaled_root(confidence: &Confidence) -> Decimal {
    let product: f64 = ext(confidence.factor_product()).to_string().parse().unwrap();
    lib(rust_decimal::Decimal::try_from(product.powf(0.25) * 1.5).unwrap())
}

fn create_test_market_state(
    spot_price: Option<Decimal>,
    strike_price: Decimal,
    seconds_remaining: i64,
) -> MarketState {
    let mut state = MarketState::new(
        "test-event".to_string(),
        CryptoAsset::Btc,
        "yes-token".to_string(),
        "no-token".to_string(),
        strike_price,
        seconds_remaining,
    );
    state.spot_price = spot_price;
    state
}

fn add_book_levels(state: &mut MarketState, yes_bid: Decimal, yes_ask: Decimal, no_bid: Decimal, no_ask: Decimal) {
    state.yes_book.apply_snapshot(
        vec![PriceLevel::new(yes_bid, dec("1000"))],
        vec![PriceLevel::new(yes_ask, dec("1000"))],
        0,
    );
    state.no_book.apply_snapshot(
        vec![PriceLevel::new(no_bid, dec("1000"))],
        vec![PriceLevel::new(no_ask, dec("1000"))],
        0,
    );
}

// =========================================================================
// DirectionalSkipReason Tests
// =========================================================================

#[test]
fn directional_test_skip_reason_display() {
    assert_eq!(DirectionalSkipReason::NeutralSignal.to_string(), "neutral signal");
    assert_eq!(DirectionalSkipReason::NoSpotPrice.to_string(), "no spot price");
    assert_eq!(DirectionalSkipReason::InvalidStrike.to_string(), "invalid strike");
    assert_eq!(DirectionalSkipReason::BookNotReady.to_string(), "book not ready");
    assert_eq!(DirectionalSkipReason::InsufficientTime.to_string(), "insufficient time");
    assert_eq!(DirectionalSkipReason::SpreadTooWide.to_string(), "spread too wide");
}

// =========================================================================
// DirectionalOpportunity Tests
// =========================================================================

#[test]
fn test_opportunity_expected_profit() {
    let opp = DirectionalOpportunity {
        event_id: "test".to_string(),
        yes_token_id: "yes".to_string(),
        no_token_id: "no".to_string(),
        signal: Signal::StrongUp,
        confidence: Confidence::neutral(),
        spot_price: dec("100500"),
        strike_price: dec("100000"),
        distance: dec("0.005"),
        minutes_remaining: dec("5"),
        yes_ask: dec("0.48"),
        no_ask: dec("0.50"),
        combined_cost: dec("0.98"),
        yes_imbalance: dec("0.1"),
        no_imbalance: dec("-0.1"),
        detected_at_ms: 0,
        binance_lead: None,
    };

    assert_eq!(opp.expected_profit(), dec("0.02"));
}

#[test]
fn test_opportunity_is_strong() {
    let strong_up = DirectionalOpportunity {
        event_id: "test".to_string(),
        yes_token_id: "yes".to_string(),
        no_token_id: "no".to_string(),
        signal: Signal::StrongUp,
        confidence: Confidence::neutral(),
        spot_price: dec("100500"),
        strike_price: dec("100000"),
        distance: dec("0.005"),
        minutes_remaining: dec("5"),
        yes_ask: dec("0.48"),
        no_ask: dec("0.50"),
        combined_cost: dec("0.98"),
        yes_imbalance: dec("0"),
        no_imbalance: dec("0"),
        detected_at_ms: 0,
        binance_lead: None,
    };

    assert!(strong_up.is_strong());

    let lean_up = DirectionalOpportunity {
        signal: Signal::LeanUp,
        ..strong_up.clone()
    };

    assert!(!lean_up.is_strong());
}

// =========================================================================
// DirectionalConfig Tests
// =========================================================================

#[test]
fn directional_test_config_default() {
    let config = DirectionalConfig::default();
    assert_eq!(config.min_seconds_remaining, 60);
    assert_eq!(config.max_combined_cost, dec("0.995"));
    assert_eq!(config.max_spread_ratio, dec("0.10"));
    assert_eq!(config.min_favorable_depth, dec("100"));
}

// =========================================================================
// DirectionalDetector Tests
// =========================================================================

#[test]
fn directional_test_detector_creation() {
    let detector = DirectionalDetector::new();
    assert_eq!(detector.config.min_seconds_remaining, 60);

    let custom_config = DirectionalConfig {
        min_seconds_remaining: 120,
        ..Default::default()
    };
    let detector2 = DirectionalDetector::with_config(custom_config);
    assert_eq!(detector2.config.min_seconds_remaining, 120);
}

#[test]
fn directional_test_detector_default() {
    let detector = DirectionalDetector::default();
    assert_eq!(detector.config.min_seconds_remaining, 60);
}

#[test]
fn test_detect_no_spot_price() {
    let detector = DirectionalDetector::new();
    let state = create_test_market_state(None, dec("100000"), 300);

    let result = detector.detect(&state, 0);
    assert_eq!(result.unwrap_err(), DirectionalSkipReason::NoSpotPrice);
}

#[test]
fn test_detect_invalid_strike() {
    let detector = DirectionalDetector::new();
    let state = create_test_market_state(Some(dec("100000")), Decimal::zero(), 300);

    let result = detector.detect(&state, 0);
    assert_eq!(result.unwrap_err(), DirectionalSkipReason::InvalidStrike);
}

#[test]
fn directional_test_detect_insufficient_time() {
    let detector = DirectionalDetector::new();
    let state = create_test_market_state(Some(dec("100500")), dec("100000"), 30);

    let result = detector.detect(&state, 0);
    assert_eq!(result.unwrap_err(), DirectionalSkipReason::InsufficientTime);
}

#[test]
fn test_detect_book_not_ready() {
    let detector = DirectionalDetector::new();
    let state = create_test_market_state(Some(dec("100500")), dec("100000"), 300);
    // No order book data

    let result = detector.detect(&state, 0);
    assert_eq!(result.unwrap_err(), DirectionalSkipReason::BookNotReady);
}

#[test]
fn test_detect_neutral_signal() {
    let detector = DirectionalDetector::new();
    let mut state = create_test_market_state(Some(dec("100000")), dec("100000"), 300);
    add_book_levels(&mut state, dec("0.48"), dec("0.50"), dec("0.48"), dec("0.50"));

    let result = detector.detect(&state, 0);
    assert_eq!(result.unwrap_err(), DirectionalSkipReason::NeutralSignal);
}

#[test]
fn test_detect_spread_too_wide() {
    let detector = DirectionalDetector::new();
    let mut state = create_test_market_state(Some(dec("100500")), dec("100000"), 300);
    // Wide spread: bid 0.30, ask 0.50 = 40% spread
    state.yes_book.apply_snapshot(
        vec![PriceLevel::new(dec("0.30"), dec("1000"))],
        vec![PriceLevel::new(dec("0.50"), dec("1000"))],
        0,
    );
    state.no_book.apply_snapshot(
        vec![PriceLevel::new(dec("0.45"), dec("1000"))],
        vec![PriceLevel::new(dec("0.48"), dec("1000"))],
        0,
    );

    let result = detector.detect(&state, 0);
    assert_eq!(result.unwrap_err(), DirectionalSkipReason::SpreadTooWide);
}

#[test]
fn test_detect_strong_up_signal() {
    let detector = DirectionalDetector::new();
    // 0.25% above strike at 5 minutes -> StrongUp
    let mut state = create_test_market_state(Some(dec("100250")), dec("100000"), 300);
    add_book_levels(&mut state, dec("0.48"), dec("0.50"), dec("0.48"), dec("0.50"));

    let result = detector.detect(&state, 0);
    assert!(result.is_ok());

    let opp = result.unwrap();
    assert_eq!(opp.signal, Signal::StrongUp);
}

#[test]
fn test_detect_lean_up_signal() {
    let detector = DirectionalDetector::new();
    // 5 minutes is in 3-10 min bracket: strong=0.021%, lean=0.011%
    // 0.015% is between lean (0.011%) and strong (0.021%) -> LeanUp
    let mut state = create_test_market_state(Some(dec("100015")), dec("100000"), 300);
    add_book_levels(&mut state, dec("0.48"), dec("0.50"), dec("0.48"), dec("0.50"));

    let result = detector.detect(&state, 0);
    assert!(result.is_ok());

    let opp = result.unwrap();
    assert_eq!(opp.signal, Signal::LeanUp);
}

#[test]
fn test_detect_strong_down_signal() {
    let detector = DirectionalDetector::new();
    // 0.25% below strike at 5 minutes -> StrongDown
    let mut state = create_test_market_state(Some(dec("99750")), dec("100000"), 300);
    add_book_levels(&mut state, dec("0.48"), dec("0.50"), dec("0.48"), dec("0.50"));

    let result = detector.detect(&state, 0);
    assert!(result.is_ok());

    let opp = result.unwrap();
    assert_eq!(opp.signal, Signal::StrongDown);
}

#[test]
fn test_detect_lean_down_signal() {
    let detector = DirectionalDetector::new();
    // 5 minutes is in 3-10 min bracket: strong=0.021%, lean=0.011%
    // 0.015% is between lean (0.011%) and strong (0.021%) -> LeanDown
    let mut state = create_test_market_state(Some(dec("99985")), dec("100000"), 300);
    add_book_levels(&mut state, dec("0.48"), dec("0.50"), dec("0.48"), dec("0.50"));

    let result = detector.detect(&state, 0);
    assert!(result.is_ok());

    let opp = result.unwrap();
    assert_eq!(opp.signal, Signal::LeanDown);
}

// =========================================================================
// Signal Detection Tests (no ratios — single-leg directional)
// =========================================================================

#[test]
fn test_strong_up_detected() {
    let detector = DirectionalDetector::new();
    let mut state = create_test_market_state(Some(dec("100300")), dec("100000"), 300);
    add_book_levels(&mut state, dec("0.48"), dec("0.50"), dec("0.48"), dec("0.50"));

    let opp = detector.detect(&state, 0).unwrap();
    assert_eq!(opp.signal, Signal::StrongUp);
}

#[test]
fn test_strong_down_detected() {
    let detector = DirectionalDetector::new();
    let mut state = create_test_market_state(Some(dec("99700")), dec("100000"), 300);
    add_book_levels(&mut state, dec("0.48"), dec("0.50"), dec("0.48"), dec("0.50"));

    let opp = detector.detect(&state, 0).unwrap();
    assert_eq!(opp.signal, Signal::StrongDown);
}

// =========================================================================
// has_potential Tests
// =========================================================================

#[test]
fn test_has_potential_no_spot() {
    let detector = DirectionalDetector::new();
    let state = create_test_market_state(None, dec("100000"), 300);
    assert!(!detector.has_potential(&state));
}

#[test]
fn test_has_potential_no_book() {
    let detector = DirectionalDetector::new();
    let state = create_test_market_state(Some(dec("100000")), dec("100000"), 300);
    assert!(!detector.has_potential(&state));
}

#[test]
fn directional_test_has_potential_insufficient_time() {
    let detector = DirectionalDetector::new();
    let mut state = create_test_market_state(Some(dec("100000")), dec("100000"), 30);
    add_book_levels(&mut state, dec("0.48"), dec("0.50"), dec("0.48"), dec("0.50"));
    assert!(!detector.has_potential(&state));
}

#[test]
fn directional_test_has_potential_valid() {
    let detector = DirectionalDetector::new();
    let mut state = create_test_market_state(Some(dec("100000")), dec("100000"), 300);
    add_book_levels(&mut state, dec("0.48"), dec("0.50"), dec("0.48"), dec("0.50"));
    assert!(detector.has_potential(&state));
}

// =========================================================================
// Order Book Imbalance Tests
// =========================================================================

#[test]
fn directional_test_calculate_imbalance_equal() {
    let mut book = OrderBook::new("test".to_string());
    book.apply_snapshot(
        vec![PriceLevel::new(dec("0.45"), dec("100"))],
        vec![PriceLevel::new(dec("0.50"), dec("100"))],
        0,
    );
    let imbalance = calculate_imbalance(&book);
    // Bid size = 100, Ask size = 100
    // (100 - 100) / 200 = 0
    assert_eq!(imbalance, Decimal::zero());
}

#[test]
fn directional_test_calculate_imbalance_bid_heavy() {
    let mut book = OrderBook::new("test".to_string());
    book.apply_snapshot(
        vec![PriceLevel::new(dec("0.45"), dec("200"))],
        vec![PriceLevel::new(dec("0.50"), dec("50"))],
        0,
    );
    let imbalance = calculate_imbalance(&book);
    // Bid size = 200, Ask size = 50
    // (200 - 50) / 250 = 0.6
    assert!(imbalance > Decimal::zero());
}

#[test]
fn directional_test_calculate_imbalance_ask_heavy() {
    let mut book = OrderBook::new("test".to_string());
    book.apply_snapshot(
        vec![PriceLevel::new(dec("0.45"), dec("50"))],
        vec![PriceLevel::new(dec("0.50"), dec("200"))],
        0,
    );
    let imbalance = calculate_imbalance(&book);
    // Bid size = 50, Ask size = 200
    // (50 - 200) / 250 = -0.6
    assert!(imbalance < Decimal::zero());
}

#[test]
fn test_calculate_imbalance_empty_book() {
    let book = OrderBook::new("test".to_string());
    let imbalance = calculate_imbalance(&book);
    assert_eq!(imbalance, Decimal::zero());
}

// =========================================================================
// Confidence Integration Tests
// =========================================================================

#[test]
fn test_opportunity_has_confidence() {
    let detector = DirectionalDetector::new();
    let mut state = create_test_market_state(Some(dec("100250")), dec("100000"), 300);
    add_book_levels(&mut state, dec("0.48"), dec("0.50"), dec("0.48"), dec("0.50"));

    let opp = detector.detect(&state, 0).unwrap();

    // Should have valid confidence values
    assert!(opp.confidence.time > Decimal::zero());
    assert!(opp.confidence.distance > Decimal::zero());
    assert!(opp.confidence.signal > Decimal::zero());
    assert!(opp.confidence.book > Decimal::zero());

    // Multiplier should be in valid range
    let mult = opp.confidence_multiplier(scaled_root(&opp.confidence));
    assert!(mult >= dec("0.5"));
    assert!(mult <= dec("3.0"));
}

#[test]
fn test_strong_signal_has_higher_confidence() {
    let detector = DirectionalDetector::new();

    // Strong signal: 0.1% distance at 5 min (3-10 min bracket: strong=0.015%, lean=0.01%)
    // 0.1% > 0.015% -> StrongUp
    let mut strong_state = create_test_market_state(Some(dec("100100")), dec("100000"), 300);
    add_book_levels(&mut strong_state, dec("0.48"), dec("0.50"), dec("0.48"), dec("0.50"));
    let strong_opp = detector.detect(&strong_state, 0).unwrap();
    assert_eq!(strong_opp.signal, Signal::StrongUp);

    // Lean signal: 0.012% distance at 5 min (3-10 min bracket: strong=0.015%, lean=0.01%)
    // 0.01% < 0.012% < 0.015% -> LeanUp
    let mut lean_state = create_test_market_state(Some(dec("100012")), dec("100000"), 300);
    add_book_levels(&mut lean_state, dec("0.48"), dec("0.50"), dec("0.48"), dec("0.50"));
    let lean_opp = detector.detect(&lean_state, 0).unwrap();
    assert_eq!(lean_opp.signal, Signal::LeanUp);

    // Strong signal should have higher signal confidence component
    assert!(strong_opp.confidence.signal > lean_opp.confidence.signal,
        "Strong confidence {:?} should > Lean confidence {:?}",
        strong_opp.confidence.signal, lean_opp.confidence.signal);
}

#[test]
fn test_all_signal_levels() {
    let detector = DirectionalDetector::new();

    // Test each signal level with appropriate percentage distance at 5 minutes
    // Thresholds at 3-10 min bracket: strong=0.015%, lean=0.01%
    let test_cases = [
        (dec("100050"), Signal::StrongUp),   // 0.05% above > 0.015% -> StrongUp
        (dec("100012"), Signal::LeanUp),     // 0.012% above (0.01% < 0.012% < 0.015%) -> LeanUp
        (dec("99950"), Signal::StrongDown),  // 0.05% below > 0.015% -> StrongDown
        (dec("99988"), Signal::LeanDown),    // 0.012% below (0.01% < 0.012% < 0.015%) -> LeanDown
    ];

    for (spot, expected_signal) in test_cases {
        let mut state = create_test_market_state(Some(spot), dec("100000"), 300);
        add_book_levels(&mut state, dec("0.48"), dec("0.50"), dec("0.48"), dec("0.50"));

        let result = detector.detect(&state, 0);
        assert!(result.is_ok(), "Failed for spot={:?}", spot);
        let opp = result.unwrap();
        assert_eq!(opp.signal, expected_signal, "Wrong signal for spot={:?}", spot);
    }
}

// =========================================================================
// Time Bracket Tests
// =========================================================================

#[test]
fn test_signal_at_different_time_brackets() {
    let detector = DirectionalDetector::new();

    // Same 0.008% distance, different time remaining
    let spot = dec("100008");  // 0.008% above
    let strike = dec("100000");

    // At 35 min (>30 min): strong=0.03%, lean=0.02%, 0.008% -> Neutral (skip)
    let mut state_early = create_test_market_state(Some(spot), strike, 2100);
    add_book_levels(&mut state_early, dec("0.48"), dec("0.50"), dec("0.48"), dec("0.50"));
    assert!(detector.detect(&state_early, 0).is_err(), "Expected skip at 35 min with 0.008% distance");

    // At 2 min (<3 min): strong=0.009%, lean=0.006%, 0.008% -> LeanUp
    let mut state_late = create_test_market_state(Some(spot), strike, 120);
    add_book_levels(&mut state_late, dec("0.48"), dec("0.50"), dec("0.48"), dec("0.50"));
    let late_result = detector.detect(&state_late, 0);
    assert!(late_result.is_ok(), "Expected LeanUp at 2 min with 0.008% distance");
    assert_eq!(late_result.unwrap().signal, Signal::LeanUp);

    // Use 0.02% distance to show Strong vs Lean across time
    let spot2 = dec("100020");  // 0.02% above

    // At 2 min: strong=0.009%, lean=0.006%, 0.02% -> StrongUp
    let mut state_very_late = create_test_market_state(Some(spot2), strike, 120);
    add_book_levels(&mut state_very_late, dec("0.48"), dec("0.50"), dec("0.48"), dec("0.50"));
    let very_late_result = detector.detect(&state_very_late, 0);
    assert!(very_late_result.is_ok());
    assert_eq!(very_late_result.unwrap().signal, Signal::StrongUp);
}
