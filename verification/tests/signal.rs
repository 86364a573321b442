use poly_strategy::decimal::Decimal;
use poly_strategy::signal::{Signal, calculate_distance, distance_bps, get_signal, get_thresholds};

/// A decimal from its text.
fn dec(text: &str) -> Decimal {
    let d: rust_decimal::Decimal = text.parse().unwrap();
    Decimal::from_parts(d.mantissa(), d.scale()).unwrap()
}

/// The same number in `rust_decimal`.
fn ext(d: Decimal) -> rust_decimal::Decimal {
    rust_decimal::Decimal::from_i128_with_scale(d.mantissa(), d.scale())
}

// =========================================================================
// Signal Enum Tests
// =========================================================================

#[test]
fn test_signal_up_ratio() {
    // Strong 82/18, Lean 65/35
    assert_eq!(Signal::StrongUp.up_ratio(), dec("0.82"));
    assert_eq!(Signal::LeanUp.up_ratio(), dec("0.65"));
    assert_eq!(Signal::Neutral.up_ratio(), dec("0.50"));
    assert_eq!(Signal::LeanDown.up_ratio(), dec("0.35"));
    assert_eq!(Signal::StrongDown.up_ratio(), dec("0.18"));
}

#[test]
fn test_signal_down_ratio() {
    // Strong 82/18, Lean 65/35
    assert_eq!(Signal::StrongUp.down_ratio(), dec("0.18"));
    assert_eq!(Signal::LeanUp.down_ratio(), dec("0.35"));
    assert_eq!(Signal::Neutral.down_ratio(), dec("0.50"));
    assert_eq!(Signal::LeanDown.down_ratio(), dec("0.65"));
    assert_eq!(Signal::StrongDown.down_ratio(), dec("0.82"));
}

#[test]
fn test_signal_ratios_sum_to_one() {
    for signal in [
        Signal::StrongUp,
        Signal::LeanUp,
        Signal::Neutral,
        Signal::LeanDown,
        Signal::StrongDown,
    ] {
        assert_eq!(
            ext(signal.up_ratio()) + ext(signal.down_ratio()),
            rust_decimal::Decimal::ONE,
            "Ratios for {:?} should sum to 1.0",
            signal
        );
    }
}

#[test]
fn test_signal_is_directional() {
    assert!(Signal::StrongUp.is_directional());
    assert!(Signal::LeanUp.is_directional());
    assert!(!Signal::Neutral.is_directional());
    assert!(Signal::LeanDown.is_directional());
    assert!(Signal::StrongDown.is_directional());
}

#[test]
fn test_signal_is_strong() {
    assert!(Signal::StrongUp.is_strong());
    assert!(!Signal::LeanUp.is_strong());
    assert!(!Signal::Neutral.is_strong());
    assert!(!Signal::LeanDown.is_strong());
    assert!(Signal::StrongDown.is_strong());
}

#[test]
fn test_signal_bias_strength() {
    // Strong has 0.32 bias (0.82 - 0.50), Lean has 0.15 bias (0.65 - 0.50)
    assert_eq!(Signal::StrongUp.bias_strength(), dec("0.32"));
    assert_eq!(Signal::LeanUp.bias_strength(), dec("0.15"));
    assert_eq!(Signal::Neutral.bias_strength(), dec("0.00"));
    assert_eq!(Signal::LeanDown.bias_strength(), dec("0.15"));
    assert_eq!(Signal::StrongDown.bias_strength(), dec("0.32"));
}

#[test]
fn test_signal_display() {
    assert_eq!(Signal::StrongUp.to_string(), "STRONG_UP");
    assert_eq!(Signal::LeanUp.to_string(), "LEAN_UP");
    assert_eq!(Signal::Neutral.to_string(), "NEUTRAL");
    assert_eq!(Signal::LeanDown.to_string(), "LEAN_DOWN");
    assert_eq!(Signal::StrongDown.to_string(), "STRONG_DOWN");
}

// =========================================================================
// Threshold Tests (4 Time Brackets)
// =========================================================================

#[test]
fn test_thresholds_early_bracket() {
    // >30 minutes: 0.042% strong, 0.021% lean (base thresholds)
    let thresholds = get_thresholds(dec("35"));
    assert_eq!(thresholds.strong, dec("0.00042"));
    assert_eq!(thresholds.lean, dec("0.00021"));
}

#[test]
fn test_thresholds_mid_bracket() {
    // 10-30 minutes: 0.029% strong, 0.015% lean (factor 0.7)
    let thresholds = get_thresholds(dec("20"));
    assert_eq!(thresholds.strong, dec("0.00029"));
    assert_eq!(thresholds.lean, dec("0.00015"));
}

#[test]
fn test_thresholds_late_bracket() {
    // 3-10 minutes: 0.021% strong, 0.011% lean (factor 0.5)
    let thresholds = get_thresholds(dec("5"));
    assert_eq!(thresholds.strong, dec("0.00021"));
    assert_eq!(thresholds.lean, dec("0.00011"));
}

#[test]
fn test_thresholds_very_late_bracket() {
    // <3 minutes: 0.013% strong, 0.006% lean (factor 0.3)
    let thresholds = get_thresholds(dec("2"));
    assert_eq!(thresholds.strong, dec("0.00013"));
    assert_eq!(thresholds.lean, dec("0.00006"));
}

#[test]
fn test_thresholds_boundary_values() {
    // At exactly 30 min -> mid bracket
    let at_30 = get_thresholds(dec("30"));
    assert_eq!(at_30.strong, dec("0.00029"));

    // At exactly 10 min -> late bracket
    let at_10 = get_thresholds(dec("10"));
    assert_eq!(at_10.strong, dec("0.00021"));

    // At exactly 3 min -> very late bracket
    let at_3 = get_thresholds(dec("3"));
    assert_eq!(at_3.strong, dec("0.00013"));
}

// =========================================================================
// Signal Detection Tests - Percentage distance
// =========================================================================

#[test]
fn test_get_signal_neutral_equal_prices() {
    let signal = get_signal(dec("100000"), dec("100000"), dec("5"));
    assert_eq!(signal, Signal::Neutral);
}

#[test]
fn test_get_signal_strong_up() {
    // 0.025% above strike with 5 minutes (3-10 min bracket)
    // Thresholds at 3-10 min: strong=0.021%, lean=0.011%
    // 0.025% > 0.021% -> StrongUp
    let spot = dec("100025");  // 0.025% above
    let strike = dec("100000");
    let signal = get_signal(spot, strike, dec("5"));
    assert_eq!(signal, Signal::StrongUp);
}

#[test]
fn test_get_signal_lean_up() {
    // 0.015% above strike with 5 minutes (3-10 min bracket)
    // Thresholds at 3-10 min: strong=0.021%, lean=0.011%
    // 0.011% < 0.015% < 0.021% -> LeanUp
    let spot = dec("100015");  // 0.015% above
    let strike = dec("100000");
    let signal = get_signal(spot, strike, dec("5"));
    assert_eq!(signal, Signal::LeanUp);
}

#[test]
fn test_get_signal_strong_down() {
    // 0.025% below strike with 5 minutes
    let spot = dec("99975");  // 0.025% below
    let strike = dec("100000");
    let signal = get_signal(spot, strike, dec("5"));
    assert_eq!(signal, Signal::StrongDown);
}

#[test]
fn test_get_signal_lean_down() {
    // 0.015% below strike with 5 minutes
    let spot = dec("99985");  // 0.015% below
    let strike = dec("100000");
    let signal = get_signal(spot, strike, dec("5"));
    assert_eq!(signal, Signal::LeanDown);
}

#[test]
fn test_get_signal_neutral_within_lean_threshold() {
    // 0.008% above strike with 5 minutes (3-10 min bracket)
    // Thresholds at 3-10 min: strong=0.021%, lean=0.011%
    // 0.008% < 0.011% -> Neutral
    let spot = dec("100008");  // 0.008% above
    let strike = dec("100000");
    let signal = get_signal(spot, strike, dec("5"));
    assert_eq!(signal, Signal::Neutral);
}

#[test]
fn test_get_signal_time_sensitivity() {
    // Same 0.025% distance, different time remaining
    let spot = dec("100025");  // 0.025% above
    let strike = dec("100000");

    // At 35 min: strong=0.042%, lean=0.021%, 0.025% -> LeanUp
    let signal_early = get_signal(spot, strike, dec("35"));
    assert_eq!(signal_early, Signal::LeanUp);

    // At 5 min: strong=0.021%, lean=0.011%, 0.025% -> StrongUp
    let signal_mid = get_signal(spot, strike, dec("5"));
    assert_eq!(signal_mid, Signal::StrongUp);

    // At 1 min: strong=0.013%, lean=0.006%, 0.025% -> StrongUp
    let signal_late = get_signal(spot, strike, dec("1"));
    assert_eq!(signal_late, Signal::StrongUp);
}

#[test]
fn test_get_signal_zero_strike_price() {
    // Edge case: zero strike returns Neutral (division by zero protection)
    let signal = get_signal(dec("100000"), dec("0"), dec("5"));
    assert_eq!(signal, Signal::Neutral);
}

#[test]
fn test_get_signal_zero_minutes() {
    // At 0 minutes, use very late thresholds (strong=0.013%, lean=0.006%)
    let spot = dec("100015");  // 0.015% above
    let strike = dec("100000");
    let signal = get_signal(spot, strike, dec("0"));
    // 0.015% distance >= 0.013% strong threshold -> StrongUp
    assert_eq!(signal, Signal::StrongUp);
}

// =========================================================================
// Distance Calculation Tests
// =========================================================================

#[test]
fn test_calculate_distance_above() {
    let distance = calculate_distance(dec("100500"), dec("100000"));
    assert_eq!(distance, dec("0.005")); // 0.5% above
}

#[test]
fn test_calculate_distance_below() {
    let distance = calculate_distance(dec("99500"), dec("100000"));
    assert_eq!(distance, dec("-0.005")); // 0.5% below
}

#[test]
fn test_calculate_distance_equal() {
    let distance = calculate_distance(dec("100000"), dec("100000"));
    assert_eq!(distance, dec("0"));
}

#[test]
fn test_calculate_distance_zero_strike() {
    let distance = calculate_distance(dec("100000"), dec("0"));
    assert_eq!(distance, dec("0"));
}

#[test]
fn test_distance_bps() {
    assert_eq!(distance_bps(dec("100500"), dec("100000")), 50); // 0.5% = 50 bps
    assert_eq!(distance_bps(dec("99500"), dec("100000")), -50); // -0.5% = -50 bps
    assert_eq!(distance_bps(dec("100000"), dec("100000")), 0);
}
