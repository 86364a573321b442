use poly_strategy::confidence::{
    Confidence, ConfidenceCalculator, ConfidenceFactors, max_multiplier, min_multiplier,
};
use poly_strategy::confidence_sizing::{ConfidenceSizer, SizeRejection};
use poly_strategy::config::SizingConfig;
use poly_strategy::decimal::Decimal;
use poly_strategy::signal::Signal;

/// A decimal from its text.
fn dec(text: &str) -> Decimal {
    let d: rust_decimal::Decimal = text.parse().unwrap();
    Decimal::from_parts(d.mantissa(), d.scale()).unwrap()
}

/// The same number in `rust_decimal`.
fn ext(d: Decimal) -> rust_decimal::Decimal {
    rust_decimal::Decimal::from_i128_with_scale(d.mantissa(), d.scale())
}

/// The same number in the library.
fn lib(d: rust_decimal::Decimal) -> Decimal {
    Decimal::from_parts(d.mantissa(), d.scale()).unwrap()
}

/// One and a half times the fourth root of the product of the factors.
fn scaled_root(confidence: &Confidence) -> Decimal {
    let product: f64 = ext(confidence.factor_product()).to_string().parse().unwrap();
    lib(rust_decimal::Decimal::try_from(product.powf(0.25) * 1.5).unwrap())
}

// =========================================================================
// ConfidenceSizer Creation Tests
// =========================================================================

#[test]
fn test_sizer_new() {
    let config = SizingConfig::new(dec("5000"));
    let sizer = ConfidenceSizer::new(config);

    assert_eq!(sizer.spent(), Decimal::zero());
    assert_eq!(sizer.trades(), 0);
    assert_eq!(sizer.market_budget(), dec("1000")); // 5000 * 0.20
    assert_eq!(sizer.remaining_budget(), dec("1000"));
}

#[test]
fn test_sizer_with_balance() {
    let sizer = ConfidenceSizer::with_balance(dec("10000"));

    assert_eq!(sizer.market_budget(), dec("2000")); // 10000 * 0.20
    assert_eq!(sizer.config().available_balance, dec("10000"));
}

// =========================================================================
// Order Size Calculation Tests
// =========================================================================

#[test]
fn test_get_order_size_neutral_confidence() {
    let sizer = ConfidenceSizer::with_balance(dec("5000"));

    // Neutral confidence factors
    let factors = ConfidenceFactors::new(
        dec("25"), // Medium distance
        dec("7"),  // Mid-market time
        Signal::Neutral,
        dec("0.0"),   // No imbalance
        dec("15000"), // Medium depth
    );

    let result = sizer.get_order_size(&factors, scaled_root(&ConfidenceCalculator::calculate(&factors)));

    assert!(result.is_valid);
    assert!(result.rejection_reason.is_none());
    // Base size is $5 (1000 budget / 200 trades)
    assert_eq!(result.base_size, dec("5"));
    // With neutral confidence, multiplier should be moderate
    assert!(result.confidence_multiplier >= min_multiplier());
    assert!(result.confidence_multiplier <= max_multiplier());
}

#[test]
fn test_get_order_size_high_confidence() {
    let sizer = ConfidenceSizer::with_balance(dec("5000"));

    // High confidence factors
    let factors = ConfidenceFactors::new(
        dec("100"), // Far from strike
        dec("1"),   // Final minutes
        Signal::StrongUp,
        dec("0.5"),   // High imbalance
        dec("60000"), // Very deep
    );

    let result = sizer.get_order_size(&factors, scaled_root(&ConfidenceCalculator::calculate(&factors)));

    assert!(result.is_valid);
    // With high confidence, multiplier should be above 1.5
    assert!(result.confidence_multiplier > dec("1.5"));
    // Size should be larger than base
    assert!(result.size > result.base_size);
}

#[test]
fn test_get_order_size_low_confidence() {
    let sizer = ConfidenceSizer::with_balance(dec("5000"));

    // Low confidence factors
    let factors = ConfidenceFactors::new(
        dec("5"),  // Close to strike
        dec("14"), // Early market
        Signal::Neutral,
        dec("0.0"),  // No imbalance
        dec("3000"), // Thin book
    );

    let result = sizer.get_order_size(&factors, scaled_root(&ConfidenceCalculator::calculate(&factors)));

    assert!(result.is_valid);
    // With low confidence, multiplier should be below 1.5
    assert!(result.confidence_multiplier < dec("1.5"));
    // Size might be smaller than base or at minimum
    assert!(result.size >= sizer.config().min_order_size);
}

// =========================================================================
// Budget Management Tests
// =========================================================================

#[test]
fn confidence_sizing_test_record_trade() {
    let mut sizer = ConfidenceSizer::with_balance(dec("5000"));

    assert_eq!(sizer.spent(), Decimal::zero());
    assert_eq!(sizer.trades(), 0);

    sizer.record_trade(dec("10"));
    assert_eq!(sizer.spent(), dec("10"));
    assert_eq!(sizer.trades(), 1);

    sizer.record_trade(dec("15"));
    assert_eq!(sizer.spent(), dec("25"));
    assert_eq!(sizer.trades(), 2);
}

#[test]
fn test_remaining_budget() {
    let mut sizer = ConfidenceSizer::with_balance(dec("5000"));
    // Market budget = 5000 * 0.20 = 1000

    assert_eq!(sizer.remaining_budget(), dec("1000"));

    sizer.record_trade(dec("300"));
    assert_eq!(sizer.remaining_budget(), dec("700"));

    sizer.record_trade(dec("700"));
    assert_eq!(sizer.remaining_budget(), Decimal::zero());

    // Should not go negative
    sizer.record_trade(dec("100"));
    assert_eq!(sizer.remaining_budget(), Decimal::zero());
}

#[test]
fn test_budget_exhausted() {
    let mut sizer = ConfidenceSizer::with_balance(dec("5000"));
    // Market budget = 1000

    assert!(!sizer.is_budget_exhausted());

    sizer.record_trade(dec("500"));
    assert!(!sizer.is_budget_exhausted());

    sizer.record_trade(dec("500"));
    assert!(sizer.is_budget_exhausted());
}

#[test]
fn test_budget_exhausted_rejection() {
    let mut sizer = ConfidenceSizer::with_balance(dec("5000"));

    // Exhaust the budget
    sizer.record_trade(dec("1000"));

    let factors = ConfidenceFactors::new(
        dec("50"),
        dec("5"),
        Signal::StrongUp,
        dec("0.3"),
        dec("25000"),
    );

    let result = sizer.get_order_size(&factors, scaled_root(&ConfidenceCalculator::calculate(&factors)));

    assert!(!result.is_valid);
    assert_eq!(result.rejection_reason, Some(SizeRejection::BudgetExhausted));
    assert_eq!(result.size, Decimal::zero());
}

#[test]
fn confidence_sizing_test_reset() {
    let mut sizer = ConfidenceSizer::with_balance(dec("5000"));

    sizer.record_trade(dec("500"));
    sizer.record_trade(dec("300"));
    assert_eq!(sizer.spent(), dec("800"));
    assert_eq!(sizer.trades(), 2);

    sizer.reset();

    assert_eq!(sizer.spent(), Decimal::zero());
    assert_eq!(sizer.trades(), 0);
    assert_eq!(sizer.remaining_budget(), dec("1000"));
}

// =========================================================================
// Size Capping Tests
// =========================================================================

#[test]
fn test_size_capped_at_remaining_budget() {
    let mut sizer = ConfidenceSizer::with_balance(dec("5000"));

    // Spend most of the budget
    sizer.record_trade(dec("990"));

    // Only $10 remaining
    let factors = ConfidenceFactors::new(
        dec("100"),
        dec("1"),
        Signal::StrongUp,
        dec("0.5"),
        dec("60000"),
    );

    let result = sizer.get_order_size(&factors, scaled_root(&ConfidenceCalculator::calculate(&factors)));

    // Should cap at remaining budget
    assert!(result.is_valid);
    assert!(result.size <= dec("10"));
}

#[test]
fn test_below_minimum_rejection() {
    let mut sizer = ConfidenceSizer::with_balance(dec("5000"));

    // Spend almost all budget, leaving less than min_order_size ($1)
    sizer.record_trade(dec("999.5"));

    let factors = ConfidenceFactors::new(
        dec("50"),
        dec("5"),
        Signal::Neutral,
        dec("0.0"),
        dec("15000"),
    );

    let result = sizer.get_order_size(&factors, scaled_root(&ConfidenceCalculator::calculate(&factors)));

    assert!(!result.is_valid);
    assert_eq!(result.rejection_reason, Some(SizeRejection::BelowMinimum));
}

#[test]
fn test_multiplier_capped_at_config_max() {
    // Create sizer with low max multiplier
    let mut config = SizingConfig::new(dec("5000"));
    config.max_confidence_multiplier = dec("2.0");
    let sizer = ConfidenceSizer::new(config);

    // High confidence factors that would normally give >2.0x
    let factors = ConfidenceFactors::new(
        dec("120"),
        dec("0.5"),
        Signal::StrongDown,
        dec("0.6"),
        dec("80000"),
    );

    let result = sizer.get_order_size(&factors, scaled_root(&ConfidenceCalculator::calculate(&factors)));

    assert!(result.is_valid);
    assert!(result.confidence_multiplier <= dec("2.0"));
}

// =========================================================================
// Balance Scaling Tests
// =========================================================================

#[test]
fn test_scaling_500_balance() {
    // $500 account (very small)
    let sizer = ConfidenceSizer::with_balance(dec("500"));

    assert_eq!(sizer.market_budget(), dec("100")); // 500 * 0.20
    assert_eq!(sizer.config().base_order_size(), dec("1")); // 100/200 = 0.5, floored to $1

    let factors = ConfidenceFactors::new(
        dec("25"),
        dec("7"),
        Signal::Neutral,
        dec("0.0"),
        dec("15000"),
    );

    let result = sizer.get_order_size(&factors, scaled_root(&ConfidenceCalculator::calculate(&factors)));
    assert!(result.is_valid);
    assert_eq!(result.base_size, dec("1"));
}

#[test]
fn test_scaling_1000_balance() {
    // $1,000 account
    let sizer = ConfidenceSizer::with_balance(dec("1000"));

    assert_eq!(sizer.market_budget(), dec("200")); // 1000 * 0.20
    assert_eq!(sizer.config().base_order_size(), dec("1")); // 200/200 = 1

    let factors = ConfidenceFactors::new(
        dec("25"),
        dec("7"),
        Signal::Neutral,
        dec("0.0"),
        dec("15000"),
    );

    let result = sizer.get_order_size(&factors, scaled_root(&ConfidenceCalculator::calculate(&factors)));
    assert!(result.is_valid);
    assert_eq!(result.base_size, dec("1"));
}

#[test]
fn test_scaling_5000_balance() {
    // $5,000 account (default)
    let sizer = ConfidenceSizer::with_balance(dec("5000"));

    assert_eq!(sizer.market_budget(), dec("1000")); // 5000 * 0.20
    assert_eq!(sizer.config().base_order_size(), dec("5")); // 1000/200 = 5

    let factors = ConfidenceFactors::new(
        dec("25"),
        dec("7"),
        Signal::Neutral,
        dec("0.0"),
        dec("15000"),
    );

    let result = sizer.get_order_size(&factors, scaled_root(&ConfidenceCalculator::calculate(&factors)));
    assert!(result.is_valid);
    assert_eq!(result.base_size, dec("5"));
}

#[test]
fn test_scaling_25000_balance() {
    // $25,000 account
    let sizer = ConfidenceSizer::with_balance(dec("25000"));

    assert_eq!(sizer.market_budget(), dec("5000")); // 25000 * 0.20
    assert_eq!(sizer.config().base_order_size(), dec("25")); // 5000/200 = 25

    let factors = ConfidenceFactors::new(
        dec("25"),
        dec("7"),
        Signal::Neutral,
        dec("0.0"),
        dec("15000"),
    );

    let result = sizer.get_order_size(&factors, scaled_root(&ConfidenceCalculator::calculate(&factors)));
    assert!(result.is_valid);
    assert_eq!(result.base_size, dec("25"));
}

// =========================================================================
// Confidence Helper Tests
// =========================================================================

#[test]
fn test_time_confidence_helper() {
    // Early, far from strike
    assert_eq!(ConfidenceSizer::time_confidence(dec("14"), dec("80")), dec("0.6"));

    // Late, far from strike
    assert_eq!(ConfidenceSizer::time_confidence(dec("1"), dec("100")), dec("1.6"));

    // Late, close to strike
    assert_eq!(ConfidenceSizer::time_confidence(dec("1"), dec("10")), dec("0.8"));
}

#[test]
fn test_distance_confidence_helper() {
    assert_eq!(ConfidenceSizer::distance_confidence(dec("5")), dec("0.6")); // At strike
    assert_eq!(ConfidenceSizer::distance_confidence(dec("25")), dec("1.0")); // Baseline
    assert_eq!(ConfidenceSizer::distance_confidence(dec("150")), dec("1.5")); // Very far
}

#[test]
fn test_signal_confidence_helper() {
    assert_eq!(ConfidenceSizer::signal_confidence(Signal::StrongUp), dec("1.4"));
    assert_eq!(ConfidenceSizer::signal_confidence(Signal::LeanUp), dec("1.1"));
    assert_eq!(ConfidenceSizer::signal_confidence(Signal::Neutral), dec("0.7"));
}

#[test]
fn test_book_confidence_helper() {
    // Neutral imbalance, medium depth
    assert_eq!(ConfidenceSizer::book_confidence(dec("0.1"), dec("15000")), dec("1.0"));

    // High imbalance, very deep
    assert_eq!(ConfidenceSizer::book_confidence(dec("0.5"), dec("60000")), dec("1.44"));

    // Thin book
    assert_eq!(ConfidenceSizer::book_confidence(dec("0.1"), dec("3000")), dec("0.9"));
}

// =========================================================================
// Scenarios
// =========================================================================

#[test]
fn test_spec_weak_confidence_scenario() {
    // Early market, close to strike, weak signal
    // Expected: ~0.7x multiplier
    let sizer = ConfidenceSizer::with_balance(dec("5000"));

    let factors = ConfidenceFactors::new(
        dec("15"),   // Close to strike
        dec("13"),   // Early
        Signal::Neutral,
        dec("0.0"),   // No imbalance
        dec("10000"), // Medium depth
    );

    let result = sizer.get_order_size(&factors, scaled_root(&ConfidenceCalculator::calculate(&factors)));

    assert!(result.is_valid);
    // Multiplier should be low (around 0.5-1.0)
    assert!(result.confidence_multiplier >= dec("0.5"));
    assert!(result.confidence_multiplier <= dec("1.2"));
}

#[test]
fn test_spec_strong_confidence_scenario() {
    // Late market, far from strike, strong signal
    // Expected: ~2.5x multiplier
    let sizer = ConfidenceSizer::with_balance(dec("5000"));

    let factors = ConfidenceFactors::new(
        dec("80"),    // Far from strike
        dec("2"),     // Late
        Signal::StrongDown,
        dec("-0.4"),  // Favorable imbalance
        dec("40000"), // Good depth
    );

    let result = sizer.get_order_size(&factors, scaled_root(&ConfidenceCalculator::calculate(&factors)));

    assert!(result.is_valid);
    // Multiplier should be high (around 2.0-3.0)
    assert!(result.confidence_multiplier >= dec("2.0"));
    assert!(result.confidence_multiplier <= dec("3.0"));
}

// =========================================================================
// Trades Remaining Calculation Test
// =========================================================================

#[test]
fn test_trades_remaining_calculation() {
    let sizer = ConfidenceSizer::with_balance(dec("5000"));
    // Market budget = 1000, base size = 5
    // If we use $10 per trade (2x base), we have ~100 trades remaining initially

    let factors = ConfidenceFactors::new(
        dec("25"),
        dec("7"),
        Signal::Neutral,
        dec("0.0"),
        dec("15000"),
    );

    let result = sizer.get_order_size(&factors, scaled_root(&ConfidenceCalculator::calculate(&factors)));

    // Budget remaining should be close to budget - size
    assert!(result.budget_remaining < sizer.market_budget());
    // Trades remaining should be budget_remaining / base_size (rough estimate)
    assert!(result.trades_remaining > 0);
}

#[test]
fn test_size_rejection_display() {
    assert_eq!(SizeRejection::BudgetExhausted.to_string(), "budget exhausted");
    assert_eq!(SizeRejection::BelowMinimum.to_string(), "below minimum order size");
    assert_eq!(SizeRejection::NoBalance.to_string(), "no available balance");
}

// =========================================================================
// Set Balance Test
// =========================================================================

#[test]
fn test_set_available_balance() {
    let mut sizer = ConfidenceSizer::with_balance(dec("5000"));
    assert_eq!(sizer.market_budget(), dec("1000"));

    sizer.set_available_balance(dec("10000"));
    assert_eq!(sizer.market_budget(), dec("2000")); // 10000 * 0.20
}
