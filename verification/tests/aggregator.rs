use poly_strategy::aggregator::{AggregatedDecision, DecisionAggregator, DecisionSummary, EngineDecision};
use poly_strategy::arb::ArbOpportunity;
use poly_strategy::confidence::Confidence;
use poly_strategy::decimal::Decimal;
use poly_strategy::directional::DirectionalOpportunity;
use poly_strategy::maker::MakerOpportunity;
use poly_strategy::signal::Signal;
use poly_strategy::types::{CryptoAsset, EngineType, Side, WindowPhase};

/// A decimal from its text.
fn dec(text: &str) -> Decimal {
    let d: rust_decimal::Decimal = text.parse().unwrap();
    Decimal::from_parts(d.mantissa(), d.scale()).unwrap()
}

fn create_test_arb() -> ArbOpportunity {
    ArbOpportunity {
        event_id: "test-event".to_string(),
        asset: CryptoAsset::Btc,
        yes_token_id: "yes-token".to_string(),
        no_token_id: "no-token".to_string(),
        yes_ask: dec("0.48"),
        no_ask: dec("0.50"),
        combined_cost: dec("0.98"),
        margin: dec("0.02"),
        margin_bps: 200,
        max_size: dec("100"),
        seconds_remaining: 300,
        phase: WindowPhase::Mid,
        required_threshold: dec("0.015"),
        confidence: 80,
        spot_price: Some(dec("100000")),
        strike_price: dec("100000"),
        detected_at_ms: 0,
    }
}

fn create_test_directional() -> DirectionalOpportunity {
    DirectionalOpportunity {
        event_id: "test-event".to_string(),
        yes_token_id: "yes-token".to_string(),
        no_token_id: "no-token".to_string(),
        signal: Signal::StrongUp,
        confidence: Confidence::neutral(),
        spot_price: dec("100500"),
        strike_price: dec("100000"),
        distance: dec("0.005"),
        minutes_remaining: dec("5"),
        yes_ask: dec("0.48"),
        no_ask: dec("0.50"),
        combined_cost: dec("0.98"),
        yes_imbalance: dec("0"),
        no_imbalance: dec("0"),
        detected_at_ms: 0,
        binance_lead: None,
    }
}

fn create_test_maker() -> MakerOpportunity {
    MakerOpportunity {
        event_id: "test-event".to_string(),
        token_id: "yes-token".to_string(),
        side: Side::Buy,
        price: dec("0.45"),
        size: dec("50"),
        expected_rebate: dec("0.01"),
        spread_bps: 100,
        qualifies_for_rewards: true,
        minutes_remaining: dec("5"),
        best_bid: dec("0.44"),
        best_ask: dec("0.46"),
        detected_at_ms: 0,
    }
}

// =========================================================================
// EngineDecision Tests
// =========================================================================

#[test]
fn test_engine_decision_type() {
    let arb = EngineDecision::Arbitrage(create_test_arb());
    assert_eq!(arb.engine_type(), EngineType::Arbitrage);

    let dir = EngineDecision::Directional(create_test_directional());
    assert_eq!(dir.engine_type(), EngineType::Directional);

    let maker = EngineDecision::Maker(vec![create_test_maker()]);
    assert_eq!(maker.engine_type(), EngineType::MakerRebates);
}

#[test]
fn test_engine_decision_event_id() {
    let arb = EngineDecision::Arbitrage(create_test_arb());
    assert_eq!(arb.event_id(), "test-event");

    let maker_empty = EngineDecision::Maker(vec![]);
    assert_eq!(maker_empty.event_id(), "");
}

#[test]
fn test_engine_decision_expected_value() {
    let arb = EngineDecision::Arbitrage(create_test_arb());
    // margin * max_size = 0.02 * 100 = 2.00
    assert_eq!(arb.expected_value(), dec("2"));

    let dir = EngineDecision::Directional(create_test_directional());
    // 1.0 - 0.98 = 0.02
    assert_eq!(dir.expected_value(), dec("0.02"));

    let maker = EngineDecision::Maker(vec![create_test_maker()]);
    // sum of rebates = 0.01
    assert_eq!(maker.expected_value(), dec("0.01"));
}

#[test]
fn test_engine_decision_concurrency() {
    let arb = EngineDecision::Arbitrage(create_test_arb());
    let dir = EngineDecision::Directional(create_test_directional());
    let maker = EngineDecision::Maker(vec![create_test_maker()]);

    // Maker can run with anything
    assert!(maker.can_run_concurrently_with(&arb));
    assert!(maker.can_run_concurrently_with(&dir));
    assert!(arb.can_run_concurrently_with(&maker));
    assert!(dir.can_run_concurrently_with(&maker));

    // Arb and Directional are mutually exclusive
    assert!(!arb.can_run_concurrently_with(&dir));
    assert!(!dir.can_run_concurrently_with(&arb));
}

#[test]
fn test_engine_decision_accessors() {
    let arb = EngineDecision::Arbitrage(create_test_arb());
    assert!(arb.as_arbitrage().is_some());
    assert!(arb.as_directional().is_none());
    assert!(arb.as_maker().is_none());

    let dir = EngineDecision::Directional(create_test_directional());
    assert!(dir.as_arbitrage().is_none());
    assert!(dir.as_directional().is_some());
    assert!(dir.as_maker().is_none());

    let maker = EngineDecision::Maker(vec![create_test_maker()]);
    assert!(maker.as_arbitrage().is_none());
    assert!(maker.as_directional().is_none());
    assert!(maker.as_maker().is_some());
    assert_eq!(maker.as_maker().unwrap().len(), 1);
}

// =========================================================================
// AggregatedDecision Tests
// =========================================================================

#[test]
fn test_aggregated_decision_should_act() {
    let empty = AggregatedDecision::default();
    assert!(!empty.should_act());

    let with_primary = AggregatedDecision {
        primary: Some(EngineDecision::Arbitrage(create_test_arb())),
        ..Default::default()
    };
    assert!(with_primary.should_act());
}

#[test]
fn test_aggregated_decision_primary_engine() {
    let empty = AggregatedDecision::default();
    assert!(empty.primary_engine().is_none());

    let with_arb = AggregatedDecision {
        primary: Some(EngineDecision::Arbitrage(create_test_arb())),
        ..Default::default()
    };
    assert_eq!(with_arb.primary_engine(), Some(EngineType::Arbitrage));
}

// =========================================================================
// DecisionAggregator Tests
// =========================================================================

#[test]
fn test_aggregator_default() {
    let agg = DecisionAggregator::default();
    assert_eq!(agg.priority.len(), 3);
    assert_eq!(agg.priority[0], EngineType::Arbitrage);
    assert_eq!(agg.priority[1], EngineType::Directional);
    assert_eq!(agg.priority[2], EngineType::MakerRebates);
    assert!(agg.allow_concurrent_maker);
}

#[test]
fn test_aggregator_with_priority() {
    let agg = DecisionAggregator::with_priority(vec![
        EngineType::Directional,
        EngineType::Arbitrage,
    ]);
    assert_eq!(agg.priority[0], EngineType::Directional);
    assert_eq!(agg.priority[1], EngineType::Arbitrage);
}

#[test]
fn test_aggregator_get_priority() {
    let agg = DecisionAggregator::default();
    assert_eq!(agg.get_priority(EngineType::Arbitrage), Some(0));
    assert_eq!(agg.get_priority(EngineType::Directional), Some(1));
    assert_eq!(agg.get_priority(EngineType::MakerRebates), Some(2));
}

#[test]
fn test_aggregator_has_higher_priority() {
    let agg = DecisionAggregator::default();
    assert!(agg.has_higher_priority(EngineType::Arbitrage, EngineType::Directional));
    assert!(agg.has_higher_priority(EngineType::Directional, EngineType::MakerRebates));
    assert!(agg.has_higher_priority(EngineType::Arbitrage, EngineType::MakerRebates));

    assert!(!agg.has_higher_priority(EngineType::Directional, EngineType::Arbitrage));
    assert!(!agg.has_higher_priority(EngineType::MakerRebates, EngineType::Directional));
}

// =========================================================================
// aggregate() Tests
// =========================================================================

#[test]
fn test_aggregate_no_opportunities() {
    let agg = DecisionAggregator::default();
    let result = agg.aggregate(None, None, vec![]);

    assert!(!result.should_act());
    assert!(result.primary.is_none());
    assert!(result.concurrent_maker.is_none());
    assert!(!result.summary.has_arb);
    assert!(!result.summary.has_directional);
    assert!(!result.summary.has_maker);
}

#[test]
fn test_aggregate_arb_only() {
    let agg = DecisionAggregator::default();
    let result = agg.aggregate(Some(create_test_arb()), None, vec![]);

    assert!(result.should_act());
    assert_eq!(result.primary_engine(), Some(EngineType::Arbitrage));
    assert!(result.summary.has_arb);
    assert_eq!(result.summary.arb_margin_bps, Some(200));
    assert_eq!(result.summary.winning_engine, Some(EngineType::Arbitrage));
}

#[test]
fn test_aggregate_directional_only() {
    let agg = DecisionAggregator::default();
    let result = agg.aggregate(None, Some(create_test_directional()), vec![]);

    assert!(result.should_act());
    assert_eq!(result.primary_engine(), Some(EngineType::Directional));
    assert!(result.summary.has_directional);
    assert!(result.summary.directional_signal.is_some());
    assert_eq!(result.summary.winning_engine, Some(EngineType::Directional));
}

#[test]
fn test_aggregate_maker_only() {
    let agg = DecisionAggregator::default();
    let result = agg.aggregate(None, None, vec![create_test_maker()]);

    assert!(result.should_act());
    assert_eq!(result.primary_engine(), Some(EngineType::MakerRebates));
    assert!(result.summary.has_maker);
    assert_eq!(result.summary.maker_count, 1);
    assert_eq!(result.summary.winning_engine, Some(EngineType::MakerRebates));
    // No concurrent maker since maker is primary
    assert!(result.concurrent_maker.is_none());
}

#[test]
fn test_aggregate_arb_wins_over_directional() {
    let agg = DecisionAggregator::default();
    let result = agg.aggregate(
        Some(create_test_arb()),
        Some(create_test_directional()),
        vec![],
    );

    // Arb should win due to higher priority
    assert_eq!(result.primary_engine(), Some(EngineType::Arbitrage));
    assert!(result.summary.has_arb);
    assert!(result.summary.has_directional);
    assert_eq!(result.summary.winning_engine, Some(EngineType::Arbitrage));
}

#[test]
fn test_aggregate_arb_wins_over_maker() {
    let agg = DecisionAggregator::default();
    let result = agg.aggregate(
        Some(create_test_arb()),
        None,
        vec![create_test_maker()],
    );

    // Arb is primary, maker runs concurrently
    assert_eq!(result.primary_engine(), Some(EngineType::Arbitrage));
    assert!(result.concurrent_maker.is_some());
    assert_eq!(result.concurrent_maker.as_ref().unwrap().len(), 1);
}

#[test]
fn test_aggregate_directional_wins_over_maker() {
    let agg = DecisionAggregator::default();
    let result = agg.aggregate(
        None,
        Some(create_test_directional()),
        vec![create_test_maker()],
    );

    // Directional is primary, maker runs concurrently
    assert_eq!(result.primary_engine(), Some(EngineType::Directional));
    assert!(result.concurrent_maker.is_some());
}

#[test]
fn test_aggregate_all_opportunities() {
    let agg = DecisionAggregator::default();
    let result = agg.aggregate(
        Some(create_test_arb()),
        Some(create_test_directional()),
        vec![create_test_maker()],
    );

    // Arb wins, maker runs concurrently
    assert_eq!(result.primary_engine(), Some(EngineType::Arbitrage));
    assert!(result.concurrent_maker.is_some());
    assert!(result.summary.has_arb);
    assert!(result.summary.has_directional);
    assert!(result.summary.has_maker);
}

#[test]
fn test_aggregate_custom_priority() {
    // Directional first, then arb
    let agg = DecisionAggregator::with_priority(vec![
        EngineType::Directional,
        EngineType::Arbitrage,
        EngineType::MakerRebates,
    ]);

    let result = agg.aggregate(
        Some(create_test_arb()),
        Some(create_test_directional()),
        vec![],
    );

    // Directional should win due to higher priority in this config
    assert_eq!(result.primary_engine(), Some(EngineType::Directional));
}

#[test]
fn test_aggregate_no_concurrent_maker_when_disabled() {
    let mut agg = DecisionAggregator::default();
    agg.set_allow_concurrent_maker(false);

    let result = agg.aggregate(
        Some(create_test_arb()),
        None,
        vec![create_test_maker()],
    );

    // Arb is primary, but no concurrent maker
    assert_eq!(result.primary_engine(), Some(EngineType::Arbitrage));
    assert!(result.concurrent_maker.is_none());
}

#[test]
fn test_decision_summary_default() {
    let summary = DecisionSummary::default();
    assert!(!summary.has_arb);
    assert!(!summary.has_directional);
    assert!(!summary.has_maker);
    assert!(summary.winning_engine.is_none());
}
