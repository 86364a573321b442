use poly_strategy::confidence::{
    Confidence, ConfidenceCalculator, ConfidenceFactors, max_multiplier, min_multiplier,
};
use poly_strategy::decimal::Decimal;
use poly_strategy::signal::Signal;

/// A decimal from its text.
fn dec(text: &str) -> Decimal {
    let d: rust_decimal::Decimal = text.parse().unwrap();
    Decimal::from_parts(d.mantissa(), d.scale()).unwrap()
}

/// The same number in `rust_decimal`.
fn ext(d: Decimal) -> rust_decimal::Decimal {
    rust_decimal::Decimal::from_i128_with_scale(d.mantissa(), d.scale())
}

/// The same number in the library.
fn lib(d: rust_decimal::Decimal) -> Decimal {
    Decimal::from_parts(d.mantissa(), d.scale()).unwrap()
}

/// One and a half times the fourth root of the product of the factors.
fn scaled_root(confidence: &Confidence) -> Decimal {
    let product: f64 = ext(confidence.factor_product()).to_string().parse().unwrap();
    lib(rust_decimal::Decimal::try_from(product.powf(0.25) * 1.5).unwrap())
}

// =========================================================================
// ConfidenceFactors Tests
// =========================================================================

#[test]
fn test_confidence_factors_new() {
    let factors = ConfidenceFactors::new(
        dec("50"),
        dec("5"),
        Signal::StrongUp,
        dec("0.2"),
        dec("25000"),
    );

    assert_eq!(factors.distance_to_strike, dec("50"));
    assert_eq!(factors.minutes_remaining, dec("5"));
    assert_eq!(factors.signal, Signal::StrongUp);
    assert_eq!(factors.book_imbalance, dec("0.2"));
    assert_eq!(factors.favorable_depth, dec("25000"));
}

// =========================================================================
// Confidence Component Tests
// =========================================================================

#[test]
fn test_confidence_new() {
    let conf = Confidence::new(dec("1.2"), dec("1.3"), dec("1.1"), dec("1.0"));
    assert_eq!(conf.time, dec("1.2"));
    assert_eq!(conf.distance, dec("1.3"));
    assert_eq!(conf.signal, dec("1.1"));
    assert_eq!(conf.book, dec("1.0"));
}

#[test]
fn test_confidence_neutral() {
    let conf = Confidence::neutral();
    assert_eq!(conf.time, Decimal::one());
    assert_eq!(conf.distance, Decimal::one());
    assert_eq!(conf.signal, Decimal::one());
    assert_eq!(conf.book, Decimal::one());

    // Neutral should give ~1.5 multiplier (1.0^0.25 * 1.5)
    let mult = conf.total_multiplier(scaled_root(&conf));
    assert!(mult >= dec("1.4") && mult <= dec("1.6"));
}

#[test]
fn test_confidence_low() {
    let conf = Confidence::low();
    assert_eq!(conf.time, dec("0.6"));
    assert_eq!(conf.distance, dec("0.6"));
    assert_eq!(conf.signal, dec("0.7"));
    assert_eq!(conf.book, dec("0.9"));

    // Low confidence should give multiplier < 1.5
    let mult = conf.total_multiplier(scaled_root(&conf));
    assert!(mult < dec("1.5"));
}

#[test]
fn test_confidence_high() {
    let conf = Confidence::high();
    assert_eq!(conf.time, dec("1.6"));
    assert_eq!(conf.distance, dec("1.5"));
    assert_eq!(conf.signal, dec("1.4"));
    assert_eq!(conf.book, dec("1.2"));

    // High confidence should give multiplier > 1.5
    let mult = conf.total_multiplier(scaled_root(&conf));
    assert!(mult > dec("1.5"));
}

#[test]
fn test_confidence_default() {
    let conf = Confidence::default();
    assert_eq!(conf.time, Decimal::one());
    assert_eq!(conf.distance, Decimal::one());
}

// =========================================================================
// Total Multiplier Tests
// =========================================================================

#[test]
fn test_total_multiplier_caps_at_minimum() {
    // Very low factors
    let conf = Confidence::new(dec("0.1"), dec("0.1"), dec("0.1"), dec("0.1"));
    let mult = conf.total_multiplier(scaled_root(&conf));
    assert_eq!(mult, min_multiplier());
}

#[test]
fn test_total_multiplier_caps_at_maximum() {
    // Very high factors
    let conf = Confidence::new(dec("10.0"), dec("10.0"), dec("10.0"), dec("10.0"));
    let mult = conf.total_multiplier(scaled_root(&conf));
    assert_eq!(mult, max_multiplier());
}

#[test]
fn test_total_multiplier_geometric_mean() {
    // All factors at 1.0 should give 1.5 (1.0^0.25 * 1.5)
    let conf = Confidence::neutral();
    let mult = conf.total_multiplier(scaled_root(&conf));
    // Allow small floating point tolerance
    assert!(mult >= dec("1.49") && mult <= dec("1.51"));
}

#[test]
fn test_total_multiplier_single_high_factor() {
    // One high factor, rest at 1.0
    // Product = 2.0, root = 2^0.25 ≈ 1.189, * 1.5 ≈ 1.78
    let conf = Confidence::new(dec("2.0"), dec("1.0"), dec("1.0"), dec("1.0"));
    let mult = conf.total_multiplier(scaled_root(&conf));
    assert!(mult > dec("1.5") && mult < dec("2.0"));
}

// =========================================================================
// ConfidenceCalculator - Time Confidence Tests
// =========================================================================

#[test]
fn test_time_confidence_early_market() {
    // >12 minutes, far from strike
    let conf = ConfidenceCalculator::time_confidence(dec("14"), dec("80"));
    assert_eq!(conf, dec("0.6")); // Early: 0.6 * 1.0
}

#[test]
fn test_time_confidence_mid_market() {
    // 6-9 minutes, far from strike
    // 7 > 6 gives the baseline time factor, 60 > 50 the full distance modifier
    let conf = ConfidenceCalculator::time_confidence(dec("7"), dec("60"));
    assert_eq!(conf, dec("1.0")); // 1.0 * 1.0 (7 > 6 means mid baseline, 60 > 50 means full distance modifier)
}

#[test]
fn test_time_confidence_late_market() {
    // 3-6 minutes, far from strike
    let conf = ConfidenceCalculator::time_confidence(dec("4"), dec("80"));
    assert_eq!(conf, dec("1.3")); // 1.3 * 1.0
}

#[test]
fn test_time_confidence_final_minutes() {
    // <3 minutes, far from strike
    let conf = ConfidenceCalculator::time_confidence(dec("1"), dec("100"));
    assert_eq!(conf, dec("1.6")); // 1.6 * 1.0
}

#[test]
fn test_time_confidence_close_to_strike() {
    // Late market but close to strike - time factor is diminished
    let conf = ConfidenceCalculator::time_confidence(dec("1"), dec("10"));
    assert_eq!(conf, dec("0.8")); // 1.6 * 0.5
}

#[test]
fn test_time_confidence_medium_distance() {
    // Late market, medium distance
    let conf = ConfidenceCalculator::time_confidence(dec("2"), dec("30"));
    // 1.6 * 0.8 = 1.28
    assert_eq!(conf, dec("1.28"));
}

// =========================================================================
// ConfidenceCalculator - Distance Confidence Tests
// =========================================================================

#[test]
fn test_distance_confidence_very_far() {
    let conf = ConfidenceCalculator::distance_confidence(dec("150"));
    assert_eq!(conf, dec("1.5"));
}

#[test]
fn test_distance_confidence_far() {
    let conf = ConfidenceCalculator::distance_confidence(dec("60"));
    assert_eq!(conf, dec("1.3"));
}

#[test]
fn test_distance_confidence_medium() {
    let conf = ConfidenceCalculator::distance_confidence(dec("35"));
    assert_eq!(conf, dec("1.1"));
}

#[test]
fn test_distance_confidence_baseline() {
    let conf = ConfidenceCalculator::distance_confidence(dec("25"));
    assert_eq!(conf, dec("1.0"));
}

#[test]
fn test_distance_confidence_close() {
    let conf = ConfidenceCalculator::distance_confidence(dec("15"));
    assert_eq!(conf, dec("0.8"));
}

#[test]
fn test_distance_confidence_at_strike() {
    let conf = ConfidenceCalculator::distance_confidence(dec("5"));
    assert_eq!(conf, dec("0.6"));
}

#[test]
fn test_distance_confidence_negative() {
    // Negative distance (below strike) should use absolute value
    let conf = ConfidenceCalculator::distance_confidence(dec("-80"));
    assert_eq!(conf, dec("1.3"));
}

// =========================================================================
// ConfidenceCalculator - Signal Confidence Tests
// =========================================================================

#[test]
fn test_signal_confidence_strong_up() {
    let conf = ConfidenceCalculator::signal_confidence(Signal::StrongUp);
    assert_eq!(conf, dec("1.4"));
}

#[test]
fn test_signal_confidence_strong_down() {
    let conf = ConfidenceCalculator::signal_confidence(Signal::StrongDown);
    assert_eq!(conf, dec("1.4"));
}

#[test]
fn test_signal_confidence_lean_up() {
    let conf = ConfidenceCalculator::signal_confidence(Signal::LeanUp);
    assert_eq!(conf, dec("1.1"));
}

#[test]
fn test_signal_confidence_lean_down() {
    let conf = ConfidenceCalculator::signal_confidence(Signal::LeanDown);
    assert_eq!(conf, dec("1.1"));
}

#[test]
fn test_signal_confidence_neutral() {
    let conf = ConfidenceCalculator::signal_confidence(Signal::Neutral);
    assert_eq!(conf, dec("0.7"));
}

// =========================================================================
// ConfidenceCalculator - Book Confidence Tests
// =========================================================================

#[test]
fn test_book_confidence_neutral_medium_depth() {
    let conf = ConfidenceCalculator::book_confidence(dec("0.1"), dec("15000"));
    assert_eq!(conf, dec("1.0")); // 1.0 * 1.0
}

#[test]
fn test_book_confidence_high_imbalance() {
    let conf = ConfidenceCalculator::book_confidence(dec("0.5"), dec("15000"));
    assert_eq!(conf, dec("1.2")); // 1.2 * 1.0
}

#[test]
fn test_book_confidence_very_deep() {
    let conf = ConfidenceCalculator::book_confidence(dec("0.1"), dec("60000"));
    assert_eq!(conf, dec("1.2")); // 1.0 * 1.2
}

#[test]
fn test_book_confidence_thin() {
    let conf = ConfidenceCalculator::book_confidence(dec("0.1"), dec("3000"));
    assert_eq!(conf, dec("0.9")); // 1.0 * 0.9
}

#[test]
fn test_book_confidence_high_imbalance_deep() {
    let conf = ConfidenceCalculator::book_confidence(dec("0.4"), dec("55000"));
    // 1.2 * 1.2 = 1.44
    assert_eq!(conf, dec("1.44"));
}

#[test]
fn test_book_confidence_high_imbalance_thin() {
    let conf = ConfidenceCalculator::book_confidence(dec("0.5"), dec("2000"));
    // 1.2 * 0.9 = 1.08
    assert_eq!(conf, dec("1.08"));
}

#[test]
fn test_book_confidence_negative_imbalance() {
    // Negative imbalance (more asks) should still consider absolute value
    let conf = ConfidenceCalculator::book_confidence(dec("-0.5"), dec("15000"));
    assert_eq!(conf, dec("1.2")); // 1.2 * 1.0
}

// =========================================================================
// ConfidenceCalculator - Full Calculation Tests
// =========================================================================

#[test]
fn test_calculate_full_confidence() {
    let factors = ConfidenceFactors::new(
        dec("80"),   // Far from strike
        dec("2"),    // 2 minutes remaining
        Signal::StrongUp,
        dec("0.4"),  // High imbalance
        dec("40000"), // Good depth
    );

    let conf = ConfidenceCalculator::calculate(&factors);

    // Time: 1.6 (final minutes, far from strike)
    assert_eq!(conf.time, dec("1.6"));
    // Distance: 1.3 (far)
    assert_eq!(conf.distance, dec("1.3"));
    // Signal: 1.4 (strong)
    assert_eq!(conf.signal, dec("1.4"));
    // Book: 1.2 * 1.1 = 1.32
    assert_eq!(conf.book, dec("1.32"));
}

#[test]
fn test_calculate_low_confidence_scenario() {
    let factors = ConfidenceFactors::new(
        dec("5"),    // Very close to strike
        dec("14"),   // Early in market
        Signal::Neutral,
        dec("0.05"), // Low imbalance
        dec("3000"), // Thin book
    );

    let conf = ConfidenceCalculator::calculate(&factors);

    // Time: 0.6 * 0.5 = 0.3 (early, close to strike)
    assert_eq!(conf.time, dec("0.3"));
    // Distance: 0.6 (at strike)
    assert_eq!(conf.distance, dec("0.6"));
    // Signal: 0.7 (neutral)
    assert_eq!(conf.signal, dec("0.7"));
    // Book: 1.0 * 0.9 = 0.9 (thin)
    assert_eq!(conf.book, dec("0.9"));

    // Total multiplier should be low
    let mult = conf.total_multiplier(scaled_root(&conf));
    assert!(mult <= dec("1.0"));
}

#[test]
fn test_calculate_high_confidence_scenario() {
    let factors = ConfidenceFactors::new(
        dec("120"),  // Very far from strike
        dec("1"),    // Final minute
        Signal::StrongDown,
        dec("0.6"),  // High imbalance
        dec("80000"), // Very deep
    );

    let conf = ConfidenceCalculator::calculate(&factors);

    // All factors should be high
    assert!(conf.time > dec("1.0"));
    assert!(conf.distance > dec("1.0"));
    assert!(conf.signal > dec("1.0"));
    assert!(conf.book > dec("1.0"));

    // Total multiplier should be high (likely capped at 3.0)
    let mult = conf.total_multiplier(scaled_root(&conf));
    assert!(mult > dec("2.0"));
}

#[test]
fn test_spec_example_weak_confidence() {
    // Early market, close to strike, weak signal
    // Expected: ~0.7x multiplier → $0.70 order on $1 base
    let factors = ConfidenceFactors::new(
        dec("15"),   // Close to strike
        dec("13"),   // Early
        Signal::Neutral,
        dec("0.0"),  // No imbalance
        dec("10000"), // Medium depth
    );

    let conf = ConfidenceCalculator::calculate(&factors);
    let mult = conf.total_multiplier(scaled_root(&conf));

    // Should be around 0.7x (give some tolerance)
    assert!(mult >= dec("0.5") && mult <= dec("1.0"));
}

#[test]
fn test_spec_example_strong_confidence() {
    // Late market, far from strike, strong signal
    // Expected: ~2.5x multiplier → $2.50 order on $1 base
    let factors = ConfidenceFactors::new(
        dec("80"),   // Far from strike
        dec("2"),    // Late
        Signal::StrongDown,
        dec("-0.4"), // Favorable imbalance
        dec("40000"), // Good depth
    );

    let conf = ConfidenceCalculator::calculate(&factors);
    let mult = conf.total_multiplier(scaled_root(&conf));

    // Should be around 2.5x (give some tolerance)
    assert!(mult >= dec("2.0") && mult <= dec("3.0"));
}
