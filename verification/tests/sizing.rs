use poly_strategy::arb::ArbOpportunity;
use poly_strategy::confidence::{Confidence, ConfidenceCalculator, ConfidenceFactors};
use poly_strategy::confidence_sizing::ConfidenceSizer;
use poly_strategy::config::{SizingConfig as ConfSizingConfig, TradingConfig};
use poly_strategy::decimal::Decimal;
use poly_strategy::signal::Signal;
use poly_strategy::sizing::{
    HybridSizer, PositionSizer, SizingAdjustments, SizingConfig, SizingInput, SizingLimit,
    SizingMode, SizingResult, SizingStrategy, UnifiedSizingResult, create_sizer,
};
use poly_strategy::toxic::{ToxicFlowWarning, ToxicIndicators, ToxicSeverity};
use poly_strategy::types::{CryptoAsset, Inventory, Side, WindowPhase};
use std::str::FromStr;

/// A decimal from its text.
fn dec(text: &str) -> Decimal {
    let d: rust_decimal::Decimal = text.parse().unwrap();
    Decimal::from_parts(d.mantissa(), d.scale()).unwrap()
}

/// The same number in `rust_decimal`.
fn ext(d: Decimal) -> rust_decimal::Decimal {
    rust_decimal::Decimal::from_i128_with_scale(d.mantissa(), d.scale())
}

/// The same number in the library.
fn lib(d: rust_decimal::Decimal) -> Decimal {
    Decimal::from_parts(d.mantissa(), d.scale()).unwrap()
}

/// One and a half times the fourth root of the product of the factors.
fn scaled_root(confidence: &Confidence) -> Decimal {
    let product: f64 = ext(confidence.factor_product()).to_string().parse().unwrap();
    lib(rust_decimal::Decimal::try_from(product.powf(0.25) * 1.5).unwrap())
}

/// The scaled root for market conditions.
fn root_of(factors: &ConfidenceFactors) -> Decimal {
    scaled_root(&ConfidenceCalculator::calculate(factors))
}

/// The scaled root for neutral conditions.
fn neutral_root() -> Decimal {
    root_of(&ConfidenceFactors::neutral())
}

fn create_test_opportunity(
    yes_ask: Decimal,
    no_ask: Decimal,
    max_size: Decimal,
) -> ArbOpportunity {
    let combined_cost = lib(ext(yes_ask) + ext(no_ask));
    let margin = lib(rust_decimal::Decimal::ONE - ext(combined_cost));
    ArbOpportunity {
        event_id: "event1".to_string(),
        asset: CryptoAsset::Btc,
        yes_token_id: "yes_token".to_string(),
        no_token_id: "no_token".to_string(),
        yes_ask,
        no_ask,
        combined_cost,
        margin,
        margin_bps: (ext(margin) * ext(dec("10000"))).try_into().unwrap_or(0),
        max_size,
        seconds_remaining: 300,
        phase: WindowPhase::Early,
        required_threshold: dec("0.025"),
        confidence: 75,
        spot_price: Some(dec("100500")),
        strike_price: dec("100000"),
        detected_at_ms: 1234567890,
    }
}

fn create_toxic_warning(severity: ToxicSeverity) -> ToxicFlowWarning {
    ToxicFlowWarning {
        token_id: "token1".to_string(),
        side: Side::Buy,
        order_size: dec("5000"),
        avg_order_size: dec("100"),
        size_multiplier: dec("50"),
        time_since_last_ms: 100,
        bbo_shift_bps: Some(100),
        severity,
        detected_at_ms: 1234567890,
        indicators: ToxicIndicators {
            large_order: true,
            sudden_appearance: true,
            ..Default::default()
        },
    }
}

#[test]
fn sizing_test_config_default() {
    let config = SizingConfig::default();
    assert_eq!(config.base_order_size, dec("50"));
    assert_eq!(config.max_position_per_market, dec("1000"));
    assert_eq!(config.max_total_exposure, dec("5000"));
    assert_eq!(config.min_order_size, dec("1"));
    assert_eq!(config.max_liquidity_take, dec("0.5"));
}

#[test]
fn test_basic_sizing() {
    let sizer = PositionSizer::default();
    let opportunity = create_test_opportunity(dec("0.45"), dec("0.52"), dec("1000"));

    let result = sizer.calculate_size(&opportunity, None, Decimal::zero(), None);

    assert!(result.is_valid);
    assert_eq!(result.size, dec("50")); // Base order size
    assert_eq!(result.limit_reason, Some(SizingLimit::BaseSize));
    assert_eq!(result.adjustments.combined_multiplier, Decimal::one());
}

#[test]
fn test_liquidity_limited() {
    let sizer = PositionSizer::default();
    // Very small liquidity: only 20 shares available
    let opportunity = create_test_opportunity(dec("0.45"), dec("0.52"), dec("20"));

    let result = sizer.calculate_size(&opportunity, None, Decimal::zero(), None);

    assert!(result.is_valid);
    // Limited by liquidity take (50% of 20 = 10)
    assert_eq!(result.size, dec("10"));
    assert_eq!(result.limit_reason, Some(SizingLimit::LiquidityTakeLimit));
}

#[test]
fn test_position_limited() {
    let sizer = PositionSizer::default();
    let opportunity = create_test_opportunity(dec("0.45"), dec("0.52"), dec("1000"));

    // Already have $950 exposure in this market
    let mut inventory = Inventory::new("event1".to_string());
    inventory.yes_cost_basis = dec("475");
    inventory.no_cost_basis = dec("475");

    let result = sizer.calculate_size(&opportunity, Some(&inventory), Decimal::zero(), None);

    assert!(result.is_valid);
    // Remaining capacity: $1000 - $950 = $50
    // At combined cost 0.97, max shares = 50 / 0.97 ≈ 51.5
    // Base size of 50 should still fit
    assert!(result.size <= dec("52"));
}

#[test]
fn test_position_limit_exceeded() {
    let sizer = PositionSizer::default();
    let opportunity = create_test_opportunity(dec("0.45"), dec("0.52"), dec("1000"));

    // Already at max position
    let mut inventory = Inventory::new("event1".to_string());
    inventory.yes_cost_basis = dec("500");
    inventory.no_cost_basis = dec("500");

    let result = sizer.calculate_size(&opportunity, Some(&inventory), Decimal::zero(), None);

    assert!(!result.is_valid);
    assert_eq!(result.limit_reason, Some(SizingLimit::PositionLimit));
}

#[test]
fn test_exposure_limited() {
    let sizer = PositionSizer::default();
    let opportunity = create_test_opportunity(dec("0.45"), dec("0.52"), dec("1000"));

    // Already have $4990 total exposure
    let result = sizer.calculate_size(&opportunity, None, dec("4990"), None);

    assert!(result.is_valid);
    // Remaining: $10 / 0.97 ≈ 10.3 shares
    assert!(result.size < dec("11"));
    assert_eq!(result.limit_reason, Some(SizingLimit::ExposureLimit));
}

#[test]
fn test_exposure_limit_exceeded() {
    let sizer = PositionSizer::default();
    let opportunity = create_test_opportunity(dec("0.45"), dec("0.52"), dec("1000"));

    // Already at max exposure
    let result = sizer.calculate_size(&opportunity, None, dec("5000"), None);

    assert!(!result.is_valid);
    assert_eq!(result.limit_reason, Some(SizingLimit::ExposureLimit));
}

#[test]
fn test_inventory_imbalance_adjustment() {
    let sizer = PositionSizer::default();
    let opportunity = create_test_opportunity(dec("0.45"), dec("0.52"), dec("1000"));

    // Skewed inventory (imbalance = 0.4, multiplier = 0.75)
    let mut inventory = Inventory::new("event1".to_string());
    inventory.yes_shares = dec("70");
    inventory.no_shares = dec("30");
    inventory.yes_cost_basis = dec("31.5");  // 70 * 0.45
    inventory.no_cost_basis = dec("15.6");   // 30 * 0.52

    let result = sizer.calculate_size(&opportunity, Some(&inventory), Decimal::zero(), None);

    assert!(result.is_valid);
    assert_eq!(result.adjustments.inventory_multiplier, dec("0.75"));
    // Base 50 * 0.75 = 37.5
    assert_eq!(result.size, dec("37.5"));
    assert_eq!(result.limit_reason, Some(SizingLimit::ImbalanceAdjustment));
}

#[test]
fn test_toxic_flow_adjustment() {
    let sizer = PositionSizer::default();
    let opportunity = create_test_opportunity(dec("0.45"), dec("0.52"), dec("1000"));
    let warning = create_toxic_warning(ToxicSeverity::Medium);

    let result = sizer.calculate_size(&opportunity, None, Decimal::zero(), Some(&warning));

    assert!(result.is_valid);
    assert_eq!(result.adjustments.toxic_multiplier, dec("0.50"));
    // Base 50 * 0.50 = 25
    assert_eq!(result.size, dec("25"));
    assert_eq!(result.limit_reason, Some(SizingLimit::ToxicFlowAdjustment));
}

#[test]
fn test_combined_adjustments() {
    let sizer = PositionSizer::default();
    let opportunity = create_test_opportunity(dec("0.45"), dec("0.52"), dec("1000"));
    let warning = create_toxic_warning(ToxicSeverity::Low); // 0.75x

    // Skewed inventory (0.75x)
    let mut inventory = Inventory::new("event1".to_string());
    inventory.yes_shares = dec("70");
    inventory.no_shares = dec("30");
    inventory.yes_cost_basis = dec("31.5");
    inventory.no_cost_basis = dec("15.6");

    let result = sizer.calculate_size(&opportunity, Some(&inventory), Decimal::zero(), Some(&warning));

    assert!(result.is_valid);
    assert_eq!(result.adjustments.inventory_multiplier, dec("0.75"));
    assert_eq!(result.adjustments.toxic_multiplier, dec("0.75"));
    // Combined = 0.75 * 0.75 = 0.5625
    assert_eq!(result.adjustments.combined_multiplier, dec("0.5625"));
    // Base 50 * 0.5625 = 28.125
    assert_eq!(result.size, dec("28.125"));
}

#[test]
fn test_critical_toxic_blocks_trade() {
    let sizer = PositionSizer::default();
    let opportunity = create_test_opportunity(dec("0.45"), dec("0.52"), dec("1000"));
    let warning = create_toxic_warning(ToxicSeverity::Critical); // 0x

    let result = sizer.calculate_size(&opportunity, None, Decimal::zero(), Some(&warning));

    // Critical toxic flow = 0 multiplier -> size = 0 -> below minimum
    assert!(!result.is_valid);
    assert_eq!(result.limit_reason, Some(SizingLimit::BelowMinimum));
}

#[test]
fn test_below_minimum() {
    let config = SizingConfig {
        base_order_size: dec("2"),
        min_order_size: dec("1"),
        ..Default::default()
    };
    let sizer = PositionSizer::new(config);
    let opportunity = create_test_opportunity(dec("0.45"), dec("0.52"), dec("1000"));
    let warning = create_toxic_warning(ToxicSeverity::High); // 0.25x

    let result = sizer.calculate_size(&opportunity, None, Decimal::zero(), Some(&warning));

    // 2 * 0.25 = 0.5 < 1 minimum
    assert!(!result.is_valid);
    assert_eq!(result.limit_reason, Some(SizingLimit::BelowMinimum));
}

#[test]
fn test_no_liquidity() {
    let sizer = PositionSizer::default();
    let opportunity = create_test_opportunity(dec("0.45"), dec("0.52"), dec("0"));

    let result = sizer.calculate_size(&opportunity, None, Decimal::zero(), None);

    assert!(!result.is_valid);
    assert_eq!(result.limit_reason, Some(SizingLimit::NoOpportunity));
}

#[test]
fn test_can_trade() {
    let sizer = PositionSizer::default();

    // Fresh start
    assert!(sizer.can_trade(Decimal::zero(), Decimal::zero()));

    // Below limits
    assert!(sizer.can_trade(dec("500"), dec("2000")));

    // At position limit
    assert!(!sizer.can_trade(dec("1000"), dec("2000")));

    // At exposure limit
    assert!(!sizer.can_trade(dec("500"), dec("5000")));
}

#[test]
fn test_max_possible_size() {
    let sizer = PositionSizer::default();

    // Fresh start at combined_cost = 0.97
    let max = sizer.max_possible_size(Decimal::zero(), Decimal::zero(), dec("0.97"));
    // Limited by position: 1000 / 0.97 ≈ 1030
    assert!(max > dec("1000") && max < dec("1100"));

    // Already have $500 position
    let max = sizer.max_possible_size(dec("500"), dec("500"), dec("0.97"));
    // Remaining position: 500 / 0.97 ≈ 515
    assert!(max > dec("500") && max < dec("520"));

    // Zero cost (edge case)
    let max = sizer.max_possible_size(Decimal::zero(), Decimal::zero(), Decimal::zero());
    assert_eq!(max, Decimal::zero());
}

#[test]
fn test_expected_profit_calculation() {
    let sizer = PositionSizer::default();
    // YES: 0.45, NO: 0.52, combined = 0.97, margin = 0.03
    let opportunity = create_test_opportunity(dec("0.45"), dec("0.52"), dec("1000"));

    let result = sizer.calculate_size(&opportunity, None, Decimal::zero(), None);

    assert!(result.is_valid);
    // Size: 50, margin: 0.03
    // Expected profit: 50 * 0.03 = 1.50
    assert_eq!(result.expected_profit, dec("1.5"));
    // Expected cost: 50 * 0.97 = 48.5
    assert_eq!(result.expected_cost, dec("48.5"));
}

#[test]
fn test_sizing_limit_display() {
    assert_eq!(SizingLimit::BaseSize.to_string(), "base size");
    assert_eq!(SizingLimit::PositionLimit.to_string(), "position limit");
    assert_eq!(SizingLimit::ExposureLimit.to_string(), "exposure limit");
    assert_eq!(SizingLimit::LiquidityLimit.to_string(), "liquidity limit");
    assert_eq!(SizingLimit::BelowMinimum.to_string(), "below minimum");
}

#[test]
fn test_from_trading_config() {
    let trading_config = TradingConfig {
        base_order_size: dec("100"),
        max_position_per_market: dec("2000"),
        max_total_exposure: dec("10000"),
        ..Default::default()
    };

    let sizer = PositionSizer::from_trading_config(&trading_config);

    assert_eq!(sizer.config.base_order_size, dec("100"));
    assert_eq!(sizer.config.max_position_per_market, dec("2000"));
    assert_eq!(sizer.config.max_total_exposure, dec("10000"));
}

#[test]
fn test_crisis_inventory_heavily_reduced() {
    let sizer = PositionSizer::default();
    let opportunity = create_test_opportunity(dec("0.45"), dec("0.52"), dec("1000"));

    // Crisis inventory (imbalance = 0.9, multiplier = 0.25)
    let mut inventory = Inventory::new("event1".to_string());
    inventory.yes_shares = dec("95");
    inventory.no_shares = dec("5");
    inventory.yes_cost_basis = dec("42.75");
    inventory.no_cost_basis = dec("2.60");

    let result = sizer.calculate_size(&opportunity, Some(&inventory), Decimal::zero(), None);

    assert!(result.is_valid);
    assert_eq!(result.adjustments.inventory_multiplier, dec("0.25"));
    // Base 50 * 0.25 = 12.5
    assert_eq!(result.size, dec("12.5"));
    assert_eq!(result.limit_reason, Some(SizingLimit::ImbalanceAdjustment));
}

#[test]
fn test_exposed_inventory_should_rebalance() {
    let mut inventory = Inventory::new("event1".to_string());
    inventory.yes_shares = dec("85");
    inventory.no_shares = dec("15");

    // Exposed state should recommend rebalancing
    assert!(inventory.state().should_rebalance());
}

// =========================================================================
// SizingMode Tests
// =========================================================================

#[test]
fn test_sizing_mode_default() {
    let mode: SizingMode = Default::default();
    assert_eq!(mode, SizingMode::Limits);
}

#[test]
fn test_sizing_mode_parse() {
    assert_eq!(SizingMode::parse("limits"), Some(SizingMode::Limits));
    assert_eq!(SizingMode::parse("LIMITS"), Some(SizingMode::Limits));
    assert_eq!(SizingMode::parse("confidence"), Some(SizingMode::Confidence));
    assert_eq!(SizingMode::parse("CONFIDENCE"), Some(SizingMode::Confidence));
    assert_eq!(SizingMode::parse("hybrid"), Some(SizingMode::Hybrid));
    assert_eq!(SizingMode::parse("HYBRID"), Some(SizingMode::Hybrid));
    assert_eq!(SizingMode::parse("invalid"), None);
}

#[test]
fn test_sizing_mode_from_str_trait() {
    assert_eq!(SizingMode::from_str("limits").unwrap(), SizingMode::Limits);
    assert_eq!(SizingMode::from_str("hybrid").unwrap(), SizingMode::Hybrid);
    assert!(SizingMode::from_str("invalid").is_err());
}

#[test]
fn test_sizing_mode_display() {
    assert_eq!(SizingMode::Limits.to_string(), "limits");
    assert_eq!(SizingMode::Confidence.to_string(), "confidence");
    assert_eq!(SizingMode::Hybrid.to_string(), "hybrid");
}

#[test]
fn test_sizing_input_new() {
    let opportunity = create_test_opportunity(dec("0.45"), dec("0.52"), dec("1000"));
    let input = SizingInput::new(&opportunity, None, Decimal::zero(), None, neutral_root());

    assert_eq!(input.total_exposure, Decimal::zero());
    assert!(input.inventory.is_none());
    assert!(input.toxic_warning.is_none());
    assert!(input.confidence_factors.is_none());
}

#[test]
fn test_sizing_input_with_confidence() {
    let opportunity = create_test_opportunity(dec("0.45"), dec("0.52"), dec("1000"));
    let factors = ConfidenceFactors::neutral();

    let input = SizingInput::new(&opportunity, None, Decimal::zero(), None, neutral_root())
        .with_confidence(factors, root_of(&factors));

    assert!(input.confidence_factors.is_some());
}

// =========================================================================
// UnifiedSizingResult Tests
// =========================================================================

#[test]
fn test_unified_result_invalid() {
    let result = UnifiedSizingResult::invalid("test reason", SizingMode::Limits);

    assert!(!result.is_valid);
    assert_eq!(result.size, Decimal::zero());
    assert_eq!(result.limit_reason, Some("test reason".to_string()));
    assert_eq!(result.strategy, SizingMode::Limits);
}

#[test]
fn test_limits_sizer_implements_strategy() {
    let sizer = PositionSizer::default();

    assert_eq!(sizer.mode(), SizingMode::Limits);
    assert!(sizer.can_trade(Decimal::zero(), Decimal::zero()));

    let opportunity = create_test_opportunity(dec("0.45"), dec("0.52"), dec("1000"));
    let input = SizingInput::new(&opportunity, None, Decimal::zero(), None, neutral_root());
    let result = sizer.calculate(&input);

    assert!(result.is_valid);
    assert_eq!(result.strategy, SizingMode::Limits);
}

#[test]
fn test_confidence_sizer_implements_strategy() {
    let config = ConfSizingConfig::new(dec("5000"));
    let sizer = ConfidenceSizer::new(config);

    assert_eq!(sizer.mode(), SizingMode::Confidence);
    assert!(sizer.can_trade(Decimal::zero(), Decimal::zero()));

    let opportunity = create_test_opportunity(dec("0.45"), dec("0.52"), dec("1000"));
    let factors = ConfidenceFactors::neutral();
    let input = SizingInput::new(&opportunity, None, Decimal::zero(), None, neutral_root())
        .with_confidence(factors, root_of(&factors));
    let result = sizer.calculate(&input);

    assert!(result.is_valid);
    assert_eq!(result.strategy, SizingMode::Confidence);
}

#[test]
fn test_confidence_sizer_requires_factors() {
    let config = ConfSizingConfig::new(dec("5000"));
    let sizer = ConfidenceSizer::new(config);

    let opportunity = create_test_opportunity(dec("0.45"), dec("0.52"), dec("1000"));
    // No confidence factors provided
    let input = SizingInput::new(&opportunity, None, Decimal::zero(), None, neutral_root());
    let result = sizer.calculate(&input);

    // Should reject without factors
    assert!(!result.is_valid);
    assert!(result.limit_reason.unwrap().contains("confidence factors required"));
}

// =========================================================================
// HybridSizer Tests
// =========================================================================

#[test]
fn test_hybrid_sizer_creation() {
    let trading_config = TradingConfig::default();
    let sizer = HybridSizer::from_trading_config(&trading_config);

    assert_eq!(sizer.mode(), SizingMode::Hybrid);
}

#[test]
fn test_hybrid_sizer_with_confidence() {
    let trading_config = TradingConfig::default();
    let sizer = HybridSizer::from_trading_config(&trading_config);

    let opportunity = create_test_opportunity(dec("0.45"), dec("0.52"), dec("1000"));
    let factors = ConfidenceFactors::neutral();
    let input = SizingInput::new(&opportunity, None, Decimal::zero(), None, neutral_root())
        .with_confidence(factors, root_of(&factors));

    let result = sizer.calculate(&input);

    assert!(result.is_valid);
    assert_eq!(result.strategy, SizingMode::Hybrid);
    // Should have non-trivial confidence multiplier
    assert!(result.confidence_multiplier > Decimal::zero());
}

#[test]
fn test_hybrid_sizer_without_confidence_uses_neutral() {
    let trading_config = TradingConfig::default();
    let sizer = HybridSizer::from_trading_config(&trading_config);

    let opportunity = create_test_opportunity(dec("0.45"), dec("0.52"), dec("1000"));
    // No confidence factors - should use neutral defaults
    let input = SizingInput::new(&opportunity, None, Decimal::zero(), None, neutral_root());

    let result = sizer.calculate(&input);

    assert!(result.is_valid);
    assert_eq!(result.strategy, SizingMode::Hybrid);
}

#[test]
fn test_hybrid_sizer_respects_limits() {
    let trading_config = TradingConfig::default();
    let sizer = HybridSizer::from_trading_config(&trading_config);

    let opportunity = create_test_opportunity(dec("0.45"), dec("0.52"), dec("1000"));
    // Provide high confidence factors that would suggest a large size
    let factors = ConfidenceFactors::new(
        dec("100"), // Far from strike
        dec("1"),   // Final minute
        Signal::StrongUp,
        dec("0.5"), // High imbalance
        dec("60000"), // Deep book
    );
    let input = SizingInput::new(&opportunity, None, Decimal::zero(), None, neutral_root())
        .with_confidence(factors, root_of(&factors));

    let result = sizer.calculate(&input);

    assert!(result.is_valid);
    // Size should be capped by limits (base_order_size = 50)
    // Even with high confidence, limits apply
    assert!(result.size <= dec("150")); // 50 * 3.0 max multiplier
}

#[test]
fn test_hybrid_sizer_can_trade() {
    let trading_config = TradingConfig::default();
    let sizer = HybridSizer::from_trading_config(&trading_config);

    // Fresh start
    assert!(sizer.can_trade(Decimal::zero(), Decimal::zero()));

    // At limits
    assert!(!sizer.can_trade(dec("1000"), Decimal::zero())); // Position limit
    assert!(!sizer.can_trade(Decimal::zero(), dec("5000"))); // Exposure limit
}

// =========================================================================
// Factory Function Tests
// =========================================================================

#[test]
fn test_create_sizer_limits() {
    let trading_config = TradingConfig::default();
    let sizer = create_sizer(SizingMode::Limits, &trading_config);

    assert_eq!(sizer.mode(), SizingMode::Limits);
}

#[test]
fn test_create_sizer_confidence() {
    let trading_config = TradingConfig::default();
    let sizer = create_sizer(SizingMode::Confidence, &trading_config);

    assert_eq!(sizer.mode(), SizingMode::Confidence);
}

#[test]
fn test_create_sizer_hybrid() {
    let trading_config = TradingConfig::default();
    let sizer = create_sizer(SizingMode::Hybrid, &trading_config);

    assert_eq!(sizer.mode(), SizingMode::Hybrid);
}

#[test]
fn test_factory_sizer_usable() {
    let trading_config = TradingConfig::default();
    let sizer = create_sizer(SizingMode::Hybrid, &trading_config);

    let opportunity = create_test_opportunity(dec("0.45"), dec("0.52"), dec("1000"));
    let input = SizingInput::new(&opportunity, None, Decimal::zero(), None, neutral_root());

    let result = sizer.calculate(&input);
    assert!(result.is_valid);
}

#[test]
fn limits_alone_leave_the_multiplier_at_one() {
    let result = SizingResult {
        size: dec("10"),
        is_valid: true,
        expected_cost: dec("9.7"),
        expected_profit: dec("0.3"),
        limit_reason: Some(SizingLimit::ImbalanceAdjustment),
        adjustments: SizingAdjustments {
            inventory_multiplier: dec("0.5"),
            toxic_multiplier: dec("1"),
            combined_multiplier: dec("0.5"),
            size_before_adjustments: dec("20"),
        },
    };
    let opportunity = create_test_opportunity(dec("0.45"), dec("0.52"), dec("1000"));
    let unified = UnifiedSizingResult::from_limits_result(&result, &opportunity);
    assert_eq!(unified.confidence_multiplier, dec("1"));
    assert_eq!(unified.size, dec("10"));
    assert_eq!(unified.expected_cost, dec("9.7"));
    assert_eq!(unified.limit_reason, Some(SizingLimit::ImbalanceAdjustment.to_string()));
    assert_eq!(unified.strategy, SizingMode::Limits);
}
