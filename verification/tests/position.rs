use poly_strategy::decimal::Decimal;
use poly_strategy::position::{Phase, PositionConfig, PositionManager, SkipReason, TradeDecision};

/// A decimal from its text.
fn dec(text: &str) -> Decimal {
    let d: rust_decimal::Decimal = text.parse().unwrap();
    Decimal::from_parts(d.mantissa(), d.scale()).unwrap()
}

/// The same number in `rust_decimal`.
fn ext(d: Decimal) -> rust_decimal::Decimal {
    rust_decimal::Decimal::from_i128_with_scale(d.mantissa(), d.scale())
}

/// The same number in the library.
fn lib(d: rust_decimal::Decimal) -> Decimal {
    Decimal::from_parts(d.mantissa(), d.scale()).unwrap()
}

/// Square root, computed in floating point.
fn square_root(x: Decimal) -> Decimal {
    if x <= Decimal::zero() {
        return Decimal::zero();
    }
    let root = ext(x).to_string().parse::<f64>().unwrap().sqrt();
    lib(rust_decimal::Decimal::try_from(root).unwrap())
}

fn confidence(pm: &PositionManager, distance: Decimal, seconds: i64, window: i64) -> Decimal {
    let root = square_root(pm.confidence_product(distance, seconds, window));
    pm.calculate_confidence(distance, seconds, window, root)
}

fn should_trade(
    pm: &PositionManager,
    distance: Decimal,
    seconds: i64,
    price: Decimal,
    max_edge_factor: Decimal,
    window: i64,
) -> TradeDecision {
    let root = square_root(pm.confidence_product(distance, seconds, window));
    pm.should_trade(distance, seconds, price, max_edge_factor, window, root)
}

#[test]
fn test_phase_from_minutes() {
    assert_eq!(Phase::from_minutes(dec("14")), Phase::Early);
    assert_eq!(Phase::from_minutes(dec("10")), Phase::Build);
    assert_eq!(Phase::from_minutes(dec("8")), Phase::Build);
    assert_eq!(Phase::from_minutes(dec("5")), Phase::Core);
    assert_eq!(Phase::from_minutes(dec("3")), Phase::Core);
    assert_eq!(Phase::from_minutes(dec("2")), Phase::Final);
    assert_eq!(Phase::from_minutes(dec("1")), Phase::Final);
}

#[test]
fn test_phase_from_seconds() {
    assert_eq!(Phase::from_seconds(900), Phase::Early);  // 15 min
    assert_eq!(Phase::from_seconds(600), Phase::Build);  // 10 min
    assert_eq!(Phase::from_seconds(300), Phase::Core);   // 5 min
    assert_eq!(Phase::from_seconds(120), Phase::Final);  // 2 min
    assert_eq!(Phase::from_seconds(60), Phase::Final);   // 1 min
}

#[test]
fn test_phase_budget_allocation() {
    assert_eq!(Phase::Early.budget_allocation(), dec("0.15"));
    assert_eq!(Phase::Build.budget_allocation(), dec("0.25"));
    assert_eq!(Phase::Core.budget_allocation(), dec("0.30"));
    assert_eq!(Phase::Final.budget_allocation(), dec("0.30"));

    // Should sum to 100%
    let total = ext(Phase::Early.budget_allocation())
        + ext(Phase::Build.budget_allocation())
        + ext(Phase::Core.budget_allocation())
        + ext(Phase::Final.budget_allocation());
    assert_eq!(total, rust_decimal::Decimal::ONE);
}

#[test]
fn test_phase_min_confidence() {
    assert_eq!(Phase::Early.min_confidence(), dec("0.80"));
    assert_eq!(Phase::Build.min_confidence(), dec("0.60"));
    assert_eq!(Phase::Core.min_confidence(), dec("0.50"));
    assert_eq!(Phase::Final.min_confidence(), dec("0.40"));
}

#[test]
fn test_config_phase_budget() {
    let config = PositionConfig::new(dec("1000"));
    assert_eq!(config.phase_budget(Phase::Early), dec("150"));
    assert_eq!(config.phase_budget(Phase::Build), dec("250"));
    assert_eq!(config.phase_budget(Phase::Core), dec("300"));
    assert_eq!(config.phase_budget(Phase::Final), dec("300"));
}

#[test]
fn test_time_confidence() {
    // Time confidence formula: floor + (1 - floor) * (1 - time_ratio)
    // Default floor is 0.30, window is 900 seconds
    let pm = PositionManager::with_budget(dec("1000"));

    // At window start (900 secs): time_ratio=1, conf = 0.30 + 0.70 * 0 = 0.30
    let conf_start = pm.time_confidence(900, 900);
    assert_eq!(conf_start, dec("0.30"), "At start should be floor");

    // At window end (0 secs): time_ratio=0, conf = 0.30 + 0.70 * 1 = 1.0
    let conf_end = pm.time_confidence(0, 900);
    assert_eq!(conf_end, dec("1.0"), "At end should be 1.0");

    // At midpoint (450 secs): time_ratio=0.5, conf = 0.30 + 0.70 * 0.5 = 0.65
    let conf_mid = pm.time_confidence(450, 900);
    assert_eq!(conf_mid, dec("0.65"), "At midpoint should be 0.65");
}

#[test]
fn test_distance_confidence() {
    // Distance confidence formula: clamp(floor + per_atr * atr_mult, floor, 1.0)
    // Default floor=0.20, per_atr=0.50
    let pm = PositionManager::with_budget(dec("1000"));

    // 0 ATR: 0.20 + 0.50 * 0 = 0.20 (floor)
    assert_eq!(pm.distance_confidence(dec("0.0")), dec("0.20"));

    // 0.5 ATR: 0.20 + 0.50 * 0.5 = 0.45
    assert_eq!(pm.distance_confidence(dec("0.5")), dec("0.45"));

    // 1.0 ATR: 0.20 + 0.50 * 1.0 = 0.70
    assert_eq!(pm.distance_confidence(dec("1.0")), dec("0.70"));

    // 1.6 ATR: 0.20 + 0.50 * 1.6 = 1.0 (capped)
    assert_eq!(pm.distance_confidence(dec("1.6")), dec("1.0"));

    // 2.0 ATR: 0.20 + 0.50 * 2.0 = 1.2 -> capped to 1.0
    assert_eq!(pm.distance_confidence(dec("2.0")), dec("1.0"));
}

#[test]
fn test_calculate_confidence() {
    // Default ATR is $100, time_conf_floor=0.30, dist_conf params: floor=0.20, per_atr=0.50
    let pm = PositionManager::with_budget(dec("1000"));
    const WINDOW: i64 = 900;

    // Early market (840s = 14min), close to strike ($15 = 0.15 ATR)
    // time_conf = 0.30 + 0.70 * (1 - 840/900) = 0.30 + 0.70 * 0.067 ≈ 0.347
    // dist_conf = 0.20 + 0.50 * 0.15 = 0.275
    // combined = sqrt(0.347 * 0.275) ≈ 0.31
    let conf1 = confidence(&pm, dec("15"), 840, WINDOW);
    assert!(conf1 < dec("0.50"), "Expected low confidence, got {:?}", conf1);

    // Late market (120s = 2min), far from strike ($150 = 1.5 ATR)
    // time_conf = 0.30 + 0.70 * (1 - 120/900) = 0.30 + 0.70 * 0.867 ≈ 0.907
    // dist_conf = 0.20 + 0.50 * 1.5 = 0.95
    // combined = sqrt(0.907 * 0.95) * 1.2 (boost) ≈ 1.0
    let conf2 = confidence(&pm, dec("150"), 120, WINDOW);
    assert!(conf2 > dec("0.90"), "Expected high confidence, got {:?}", conf2);

    // Late market (60s = 1min), at strike ($5 = 0.05 ATR)
    // time_conf = 0.30 + 0.70 * (1 - 60/900) = 0.30 + 0.70 * 0.933 ≈ 0.953
    // dist_conf = 0.20 + 0.50 * 0.05 = 0.225
    // combined = sqrt(0.953 * 0.225) ≈ 0.46
    let conf3 = confidence(&pm, dec("5"), 60, WINDOW);
    assert!(conf3 < dec("0.60"), "Expected moderate confidence, got {:?}", conf3);
}

#[test]
fn test_should_trade_low_confidence_skips() {
    let pm = PositionManager::with_budget(dec("1000"));

    // Early phase with low distance -> confidence < required (price + edge)
    // At 14 min: edge = 0.20 * (840/900) = 0.187
    // Price 0.50 + edge 0.187 = 0.687 required
    // Confidence ~0.25 (low distance) < 0.687 -> skip
    let decision = should_trade(&pm, dec("25"), 840, dec("0.50"), dec("0.20"), 900);
    assert!(matches!(decision, TradeDecision::Skip(SkipReason::LowConfidence)));
}

#[test]
fn test_should_trade_high_confidence_trades() {
    let pm = PositionManager::with_budget(dec("1000"));

    // Final phase with high distance and low favorable price
    // At 1.5 min: edge = 0.20 * (90/900) = 0.02
    // Price 0.30 + edge 0.02 = 0.32 required
    // $150 = 1.5 ATR -> dist_conf=1.00, with time_conf=1.00 -> confidence ~0.90
    // 0.90 > 0.32 -> should trade
    let decision = should_trade(&pm, dec("150"), 90, dec("0.30"), dec("0.20"), 900);
    assert!(decision.is_trade(), "Expected trade, got {:?}", decision);
}

#[test]
fn test_should_trade_budget_exhausted() {
    let config = PositionConfig {
        total_budget: dec("100"),
        min_order_size: dec("1"),
        ..Default::default()
    };
    let mut pm = PositionManager::new(config);

    // Spend all budget
    pm.total_spent = dec("100");

    let decision = should_trade(&pm, dec("80"), 90, dec("0.30"), dec("0.20"), 900);
    assert!(matches!(decision, TradeDecision::Skip(SkipReason::TotalBudgetExhausted)));
}

#[test]
fn position_test_record_trade() {
    let mut pm = PositionManager::with_budget(dec("1000"));

    // Record a trade in Core phase
    pm.record_trade(dec("50"), dec("39"), dec("11"), 240); // 4 min

    assert_eq!(pm.total_spent, dec("50"));
    assert_eq!(pm.trade_count, 1);

    let phase_spent = pm.phase_spent.get(Phase::Core);
    assert_eq!(phase_spent, dec("50"));
}

#[test]
fn test_phase_budget_limits() {
    let mut pm = PositionManager::with_budget(dec("1000"));

    // Exhaust Final phase budget ($300)
    pm.phase_spent.set(Phase::Final, dec("300"));

    // At 1 min with $150 distance (1.5 ATR): confidence is high
    // Edge = 0.20 * (60/900) = 0.013
    // Price 0.30 + edge 0.013 = 0.313 required
    // But Final phase budget is exhausted
    let decision = should_trade(&pm, dec("150"), 60, dec("0.30"), dec("0.20"), 900);
    assert!(matches!(decision, TradeDecision::Skip(SkipReason::PhaseBudgetExhausted)),
        "Expected PhaseBudgetExhausted, got {:?}", decision);
}

#[test]
fn test_sizing_scales_with_confidence() {
    let pm = PositionManager::with_budget(dec("1000"));

    // Low confidence -> smaller size
    let size_low = pm.calculate_size(dec("300"), dec("1000"), dec("0.40"));

    // High confidence -> larger size
    let size_high = pm.calculate_size(dec("300"), dec("1000"), dec("0.90"));

    assert!(size_high > size_low, "High conf size {:?} should > low conf size {:?}", size_high, size_low);
}

#[test]
fn test_budget_remaining() {
    let mut pm = PositionManager::with_budget(dec("1000"));
    assert_eq!(pm.budget_remaining(), dec("1000"));

    pm.total_spent = dec("300");
    assert_eq!(pm.budget_remaining(), dec("700"));
}

#[test]
fn position_test_reset() {
    let mut pm = PositionManager::with_budget(dec("1000"));

    // Add some state
    pm.total_spent = dec("500");
    pm.trade_count = 10;
    pm.phase_spent.set(Phase::Core, dec("200"));

    // Reset
    pm.reset();

    assert_eq!(pm.total_spent, Decimal::zero());
    assert_eq!(pm.trade_count, 0);
    assert_eq!(pm.phase_spent.get(Phase::Core), Decimal::zero());
}

#[test]
fn test_spec_example_simulation() {
    // Test with EV-based decision logic
    // Budget: $1,000 | Default ATR: $100
    // max_edge_factor: 0.20, window_duration: 900 secs
    // favorable_price: 0.50 for all tests
    // Confidence params: time_floor=0.30, dist_floor=0.20, dist_per_atr=0.50
    //
    // EV-based logic: trade if (confidence - price) >= min_edge
    // where min_edge = max_edge_factor * time_ratio
    let pm = PositionManager::with_budget(dec("1000"));

    // [14.0m = 840s] $15 (0.15 ATR)
    // time_conf = 0.30 + 0.70*0.067 = 0.35, dist_conf = 0.20 + 0.50*0.15 = 0.28
    // conf ≈ 0.31, EV = 0.31 - 0.50 = -0.19, min_edge = 0.20*0.93 = 0.19 -> SKIP
    let d1 = should_trade(&pm, dec("15"), 840, dec("0.50"), dec("0.20"), 900);
    assert!(matches!(d1, TradeDecision::Skip(SkipReason::LowConfidence)));

    // [12.0m = 720s] $22 (0.22 ATR)
    // time_conf = 0.30 + 0.70*0.20 = 0.44, dist_conf = 0.20 + 0.50*0.22 = 0.31
    // conf ≈ 0.37, EV = 0.37 - 0.50 = -0.13, min_edge = 0.20*0.80 = 0.16 -> SKIP
    let d2 = should_trade(&pm, dec("22"), 720, dec("0.50"), dec("0.20"), 900);
    assert!(matches!(d2, TradeDecision::Skip(SkipReason::LowConfidence)));

    // [10.0m = 600s] $35 (0.35 ATR)
    // time_conf = 0.30 + 0.70*0.33 = 0.53, dist_conf = 0.20 + 0.50*0.35 = 0.38
    // conf ≈ 0.45, EV = 0.45 - 0.50 = -0.05, min_edge = 0.20*0.67 = 0.13 -> SKIP
    let d3 = should_trade(&pm, dec("35"), 600, dec("0.50"), dec("0.20"), 900);
    assert!(matches!(d3, TradeDecision::Skip(SkipReason::LowConfidence)));

    // [8.5m = 510s] $60 (0.60 ATR)
    // time_conf = 0.30 + 0.70*0.43 = 0.60, dist_conf = 0.20 + 0.50*0.60 = 0.50
    // conf ≈ 0.55, EV = 0.55 - 0.50 = 0.05, min_edge = 0.20*0.57 = 0.11 -> SKIP
    let d4 = should_trade(&pm, dec("60"), 510, dec("0.50"), dec("0.20"), 900);
    assert!(matches!(d4, TradeDecision::Skip(SkipReason::LowConfidence)),
        "Expected skip at 8.5m with $60 distance, got {:?}", d4);

    // [2.0m = 120s] $70 (0.70 ATR)
    // time_conf = 0.30 + 0.70*0.87 = 0.91, dist_conf = 0.20 + 0.50*0.70 = 0.55
    // conf ≈ 0.71, EV = 0.71 - 0.50 = 0.21, min_edge = 0.20*0.13 = 0.03 -> TRADE
    let d5 = should_trade(&pm, dec("70"), 120, dec("0.50"), dec("0.20"), 900);
    assert!(d5.is_trade(), "Expected trade at 2m with $70 distance, got {:?}", d5);

    // [1.0m = 60s] $100 (1.0 ATR)
    // time_conf = 0.30 + 0.70*0.93 = 0.95, dist_conf = 0.20 + 0.50*1.0 = 0.70
    // conf ≈ 0.82, EV = 0.82 - 0.50 = 0.32, min_edge = 0.20*0.07 = 0.01 -> TRADE
    let d6 = should_trade(&pm, dec("100"), 60, dec("0.50"), dec("0.20"), 900);
    assert!(d6.is_trade(), "Expected trade at 1m with $100 distance, got {:?}", d6);
}
