use poly_strategy::arb::{ArbDetector, ArbRejection, ArbThresholds};
use poly_strategy::decimal::Decimal;
use poly_strategy::types::{CryptoAsset, MarketState, PriceLevel, WindowPhase};

/// A decimal from its text.
fn dec(text: &str) -> Decimal {
    let d: rust_decimal::Decimal = text.parse().unwrap();
    Decimal::from_parts(d.mantissa(), d.scale()).unwrap()
}

/// The same number in `rust_decimal`.
fn ext(d: Decimal) -> rust_decimal::Decimal {
    rust_decimal::Decimal::from_i128_with_scale(d.mantissa(), d.scale())
}

/// The same number in the library.
fn lib(d: rust_decimal::Decimal) -> Decimal {
    Decimal::from_parts(d.mantissa(), d.scale()).unwrap()
}

fn create_test_market(
    yes_ask: Decimal,
    no_ask: Decimal,
    yes_size: Decimal,
    no_size: Decimal,
    seconds_remaining: i64,
) -> MarketState {
    let mut market = MarketState::new(
        "event1".to_string(),
        CryptoAsset::Btc,
        "yes_token".to_string(),
        "no_token".to_string(),
        dec("100000"),
        seconds_remaining,
    );

    market.yes_book.asks.push(PriceLevel::new(yes_ask, yes_size));
    market.no_book.asks.push(PriceLevel::new(no_ask, no_size));
    // Add bids for spread calculation
    market
        .yes_book
        .bids
        .push(PriceLevel::new(lib(ext(yes_ask) - ext(dec("0.01"))), yes_size));
    market
        .no_book
        .bids
        .push(PriceLevel::new(lib(ext(no_ask) - ext(dec("0.01"))), no_size));
    market.spot_price = Some(dec("100500")); // Above strike

    market
}

#[test]
fn test_thresholds_default() {
    let thresholds = ArbThresholds::default();
    assert_eq!(thresholds.early, dec("0.025")); // 2.5%
    assert_eq!(thresholds.mid, dec("0.015"));   // 1.5%
    assert_eq!(thresholds.late, dec("0.005"));  // 0.5%
}

#[test]
fn test_phase_for_time() {
    let thresholds = ArbThresholds::default();

    // > 5 min = Early
    assert_eq!(thresholds.phase_for_time(400), WindowPhase::Early);
    assert_eq!(thresholds.phase_for_time(301), WindowPhase::Early);

    // 2-5 min = Mid
    assert_eq!(thresholds.phase_for_time(300), WindowPhase::Mid);
    assert_eq!(thresholds.phase_for_time(121), WindowPhase::Mid);

    // < 2 min = Late
    assert_eq!(thresholds.phase_for_time(120), WindowPhase::Late);
    assert_eq!(thresholds.phase_for_time(60), WindowPhase::Late);
    assert_eq!(thresholds.phase_for_time(30), WindowPhase::Late);
}

#[test]
fn test_detect_valid_opportunity_early() {
    let detector = ArbDetector::default();

    // YES: 0.45, NO: 0.52 = combined 0.97, margin 0.03 (3%)
    // Early phase needs 2.5%, this meets it
    let market = create_test_market(dec("0.45"), dec("0.52"), dec("100"), dec("100"), 400);

    let result = detector.detect(&market, 0);
    assert!(result.is_ok());

    let opp = result.unwrap();
    assert_eq!(opp.margin, dec("0.03"));
    assert_eq!(opp.margin_bps, 300);
    assert_eq!(opp.phase, WindowPhase::Early);
    assert_eq!(opp.combined_cost, dec("0.97"));
}

#[test]
fn test_detect_valid_opportunity_late() {
    let detector = ArbDetector::default();

    // YES: 0.49, NO: 0.50 = combined 0.99, margin 0.01 (1%)
    // Late phase needs only 0.5%, this meets it
    let market = create_test_market(dec("0.49"), dec("0.50"), dec("100"), dec("100"), 60);

    let result = detector.detect(&market, 0);
    assert!(result.is_ok());

    let opp = result.unwrap();
    assert_eq!(opp.margin, dec("0.01"));
    assert_eq!(opp.phase, WindowPhase::Late);
}

#[test]
fn test_reject_below_threshold() {
    let detector = ArbDetector::default();

    // YES: 0.49, NO: 0.50 = margin 1% (too low for early phase)
    let market = create_test_market(dec("0.49"), dec("0.50"), dec("100"), dec("100"), 400);

    let result = detector.detect(&market, 0);
    assert_eq!(result.err(), Some(ArbRejection::BelowThreshold));
}

#[test]
fn test_reject_no_arbitrage() {
    let detector = ArbDetector::default();

    // YES: 0.55, NO: 0.50 = combined 1.05 (no arb)
    let market = create_test_market(dec("0.55"), dec("0.50"), dec("100"), dec("100"), 400);

    let result = detector.detect(&market, 0);
    assert_eq!(result.err(), Some(ArbRejection::NoArbitrage));
}

#[test]
fn test_reject_insufficient_time() {
    let detector = ArbDetector::default();

    // Good margin but only 20 seconds remaining
    let market = create_test_market(dec("0.45"), dec("0.52"), dec("100"), dec("100"), 20);

    let result = detector.detect(&market, 0);
    assert_eq!(result.err(), Some(ArbRejection::InsufficientTime));
}

#[test]
fn test_reject_no_quotes() {
    let detector = ArbDetector::default();

    // Empty market
    let market = MarketState::new(
        "event1".to_string(),
        CryptoAsset::Btc,
        "yes_token".to_string(),
        "no_token".to_string(),
        dec("100000"),
        400,
    );

    let result = detector.detect(&market, 0);
    assert_eq!(result.err(), Some(ArbRejection::NoQuotes));
}

#[test]
fn test_reject_no_liquidity() {
    let detector = ArbDetector::default();

    // Good prices but zero size
    let market = create_test_market(dec("0.45"), dec("0.52"), dec("0"), dec("100"), 400);

    let result = detector.detect(&market, 0);
    assert_eq!(result.err(), Some(ArbRejection::NoLiquidity));
}

#[test]
fn test_max_size_limited_by_smaller_side() {
    let detector = ArbDetector::default();

    // YES has 50, NO has 200 -> max is 50
    let market = create_test_market(dec("0.45"), dec("0.52"), dec("50"), dec("200"), 400);

    let result = detector.detect(&market, 0).unwrap();
    assert_eq!(result.max_size, dec("50"));
}

#[test]
fn test_expected_profit() {
    let detector = ArbDetector::default();
    let market = create_test_market(dec("0.45"), dec("0.52"), dec("100"), dec("100"), 400);
    let opp = detector.detect(&market, 0).unwrap();

    // 100 shares * 3% margin = $3
    let profit = opp.expected_profit(dec("100"));
    assert_eq!(profit, dec("3"));
}

#[test]
fn test_confidence_scoring_high() {
    let detector = ArbDetector::default();

    // High margin (5%), late phase, deep liquidity
    let market = create_test_market(dec("0.45"), dec("0.50"), dec("500"), dec("500"), 60);

    let opp = detector.detect(&market, 0).unwrap();
    // Should have high confidence
    assert!(opp.confidence >= 70);
}

#[test]
fn test_confidence_scoring_moderate() {
    let detector = ArbDetector::default();

    // Just meets threshold, moderate liquidity
    let market = create_test_market(dec("0.485"), dec("0.49"), dec("100"), dec("100"), 60);

    let opp = detector.detect(&market, 0).unwrap();
    // Should have reasonable confidence (the scoring algorithm gives
    // bonuses for late phase, liquidity, and spread)
    assert!(
        opp.confidence >= 50,
        "Expected confidence >= 50, got {:?}",
        opp.confidence
    );
}

#[test]
fn test_has_potential_arb() {
    // Good opportunity
    let market1 = create_test_market(dec("0.45"), dec("0.52"), dec("100"), dec("100"), 400);
    assert!(ArbDetector::has_potential_arb(&market1));

    // No opportunity
    let market2 = create_test_market(dec("0.55"), dec("0.50"), dec("100"), dec("100"), 400);
    assert!(!ArbDetector::has_potential_arb(&market2));

    // Exact $1.00 (no arb)
    let market3 = create_test_market(dec("0.50"), dec("0.50"), dec("100"), dec("100"), 400);
    assert!(!ArbDetector::has_potential_arb(&market3));
}

#[test]
fn test_spot_suggests_yes() {
    let detector = ArbDetector::default();
    let mut market = create_test_market(dec("0.45"), dec("0.52"), dec("100"), dec("100"), 400);

    // Spot above strike -> YES
    market.spot_price = Some(dec("100500"));
    let opp = detector.detect(&market, 0).unwrap();
    assert_eq!(opp.spot_suggests_yes(), Some(true));

    // Spot below strike -> NO
    market.spot_price = Some(dec("99500"));
    let opp = detector.detect(&market, 0).unwrap();
    assert_eq!(opp.spot_suggests_yes(), Some(false));

    // No spot price
    market.spot_price = None;
    let opp = detector.detect(&market, 0).unwrap();
    assert_eq!(opp.spot_suggests_yes(), None);
}

#[test]
fn test_has_significant_edge() {
    let detector = ArbDetector::default();

    // 4% margin vs 2.5% threshold = 1.6x (significant)
    let market1 = create_test_market(dec("0.44"), dec("0.52"), dec("100"), dec("100"), 400);
    let opp1 = detector.detect(&market1, 0).unwrap();
    assert!(opp1.has_significant_edge());

    // 3% margin vs 2.5% threshold = 1.2x (not significant)
    let market2 = create_test_market(dec("0.45"), dec("0.52"), dec("100"), dec("100"), 400);
    let opp2 = detector.detect(&market2, 0).unwrap();
    assert!(!opp2.has_significant_edge());
}

#[test]
fn test_from_config() {
    let detector = ArbDetector::from_config(
        dec("0.03"),  // 3%
        dec("0.02"),  // 2%
        dec("0.01"),  // 1%
        360,         // 6 min early
        180,         // 3 min mid
        45,          // 45 sec min
    );

    assert_eq!(detector.thresholds.early, dec("0.03"));
    assert_eq!(detector.thresholds.mid, dec("0.02"));
    assert_eq!(detector.thresholds.late, dec("0.01"));
    assert_eq!(detector.thresholds.early_threshold_secs, 360);
    assert_eq!(detector.thresholds.mid_threshold_secs, 180);
    assert_eq!(detector.thresholds.min_time_remaining_secs, 45);
}

#[test]
fn test_min_confidence_filter() {
    let detector = ArbDetector::default().with_min_confidence(90);

    // Good opportunity but may not reach 90 confidence
    let market = create_test_market(dec("0.485"), dec("0.49"), dec("50"), dec("50"), 60);

    // This might fail with LowConfidence depending on scoring
    let result = detector.detect(&market, 0);
    // Just verify it runs without panic
    assert!(result.is_ok() || result.err() == Some(ArbRejection::LowConfidence));
}

#[test]
fn test_arb_rejection_display() {
    assert_eq!(ArbRejection::NoQuotes.to_string(), "no valid quotes");
    assert_eq!(
        ArbRejection::NoArbitrage.to_string(),
        "no arbitrage (combined >= 1.0)"
    );
    assert_eq!(
        ArbRejection::BelowThreshold.to_string(),
        "margin below threshold"
    );
}

#[test]
fn test_threshold_for_phase() {
    let thresholds = ArbThresholds::default();

    assert_eq!(thresholds.for_phase(WindowPhase::Early), dec("0.025"));
    assert_eq!(thresholds.for_phase(WindowPhase::Mid), dec("0.015"));
    assert_eq!(thresholds.for_phase(WindowPhase::Late), dec("0.005"));
}
