use poly_strategy::config::EnginesConfig;
use poly_strategy::decimal::Decimal;
use poly_strategy::maker_orders::{ActiveMakerOrder, MakerOrderConfig};
use poly_strategy::market::{TrackedMarket, WindowOpenEvent};
use poly_strategy::steps::{ArbStep, FillAmounts};
use poly_strategy::strategy::{StrategyState, StrikeChoice, TradeAction, TradingGate};
use poly_strategy::strategy_config::StrategyConfig;
use poly_strategy::types::{CryptoAsset, PriceLevel, Side};

const NOW: i64 = 1_770_742_800_000;

/// A decimal from its text.
fn dec(text: &str) -> Decimal {
    let d: rust_decimal::Decimal = text.parse().unwrap();
    Decimal::from_parts(d.mantissa(), d.scale()).unwrap()
}

fn window_open_event(event_id: &str, asset: CryptoAsset) -> WindowOpenEvent {
    WindowOpenEvent {
        event_id: event_id.to_string(),
        condition_id: format!("{}-cond", event_id),
        asset,
        yes_token_id: format!("{}-yes", event_id),
        no_token_id: format!("{}-no", event_id),
        strike_price: dec("100000"),
        window_start_ms: NOW,
        window_end_ms: NOW + 15 * 60 * 1000,
    }
}

/// Opens a window as the event says, if it has a strike.
fn open_window(state: &mut StrategyState, event: &WindowOpenEvent) {
    match state.choose_strike(event) {
        StrikeChoice::Use(strike_price) => {
            let event = WindowOpenEvent { strike_price, ..event.clone() };
            state.open_market(&event, dec("5"), NOW);
        }
        StrikeChoice::AskPage | StrikeChoice::Reject => {}
    }
}

fn book_snapshot(state: &mut StrategyState, token_id: &str, asks: Vec<(Decimal, Decimal)>) {
    state.record_book_snapshot(
        token_id,
        vec![PriceLevel::new(dec("0.40"), dec("100"))],
        asks.into_iter().map(|(p, s)| PriceLevel::new(p, s)).collect(),
        NOW,
    );
}

#[test]
fn test_strategy_loop_creation() {
    let state = StrategyState::new(StrategyConfig::default(), EnginesConfig::default(), NOW);
    assert_eq!(state.market_count(), 0);
}

#[test]
fn test_window_open_tracking() {
    let mut state = StrategyState::new(StrategyConfig::default(), EnginesConfig::default(), NOW);
    state.record_chainlink_price(CryptoAsset::Btc, dec("100000"), NOW);
    open_window(&mut state, &window_open_event("event1", CryptoAsset::Btc));

    assert_eq!(state.market_count(), 1);
}

#[test]
fn test_spot_price_update() {
    let mut state = StrategyState::new(StrategyConfig::default(), EnginesConfig::default(), NOW);
    state.handle_spot_price(CryptoAsset::Btc, dec("100500"), NOW, NOW);

    assert_eq!(*state.spot_prices.get(CryptoAsset::Btc), Some(dec("100500")));
}

#[test]
fn test_arb_detection_and_execution() {
    // Arbitrage is off by default
    let mut engines_config = EnginesConfig::default();
    engines_config.arbitrage.enabled = true;
    let mut state = StrategyState::new(StrategyConfig::default(), engines_config, NOW);
    state.record_chainlink_price(CryptoAsset::Btc, dec("100000"), NOW);
    open_window(&mut state, &window_open_event("event1", CryptoAsset::Btc));
    // YES ask at 0.45 (100 shares)
    book_snapshot(&mut state, "event1-yes", vec![(dec("0.45"), dec("100"))]);
    assert!(state.evaluate("event1", NOW).is_none());
    // NO ask at 0.52 (100 shares) - combined = 0.97, margin = 3%
    book_snapshot(&mut state, "event1-no", vec![(dec("0.52"), dec("100"))]);

    let evaluation = state.evaluate("event1", NOW).unwrap();
    assert!(!evaluation.blocked);
    let decision = evaluation.aggregated.primary.unwrap();
    let opportunity = decision.as_arbitrage().unwrap().clone();
    assert_eq!(opportunity.margin, dec("0.03"));

    // Both legs are bought and booked
    let step = state.size_arbitrage("event1", &opportunity, Decimal::zero(), None);
    let sizing = match step {
        ArbStep::Place(sizing) => sizing,
        other => panic!("expected an order, got {:?}", other),
    };
    let (yes, no) = state.arb_orders(&opportunity, &sizing);
    assert_eq!(yes.request_id, "arb-0-yes");
    assert_eq!(no.request_id, "arb-0-no");
    assert_eq!(yes.price, dec("0.45"));
    assert_eq!(no.price, dec("0.52"));
    assert!(matches!(
        state.size_arbitrage("event1", &opportunity, Decimal::zero(), None),
        ArbStep::InFlight
    ));
    let fill = FillAmounts { size: sizing.size, cost: dec("20"), fee: dec("0.001") };
    state.finish_arb("event1", fill, fill, false);
    let market = state.markets.get("event1").unwrap();
    assert_eq!(market.inventory.yes_shares, sizing.size);
    assert_eq!(market.inventory.no_cost_basis, dec("20"));
    assert!(matches!(
        state.size_arbitrage("event1", &opportunity, Decimal::zero(), None),
        ArbStep::Positioned
    ));
}

#[test]
fn test_trading_disabled_skips_opportunities() {
    let mut engines_config = EnginesConfig::default();
    engines_config.arbitrage.enabled = true;
    let mut state = StrategyState::new(StrategyConfig::default(), engines_config, NOW);
    // Trading not enabled
    let mut gate = TradingGate::new();
    assert!(!gate.can_trade());
    let mut orders = 0;
    state.record_chainlink_price(CryptoAsset::Btc, dec("100000"), NOW);
    orders += state.evaluate_if_open(&gate, "event1", NOW).iter().count();
    open_window(&mut state, &window_open_event("event1", CryptoAsset::Btc));
    orders += state.evaluate_if_open(&gate, "event1", NOW).iter().count();
    book_snapshot(&mut state, "event1-yes", vec![(dec("0.45"), dec("100"))]);
    orders += state.evaluate_if_open(&gate, "event1", NOW).iter().count();
    book_snapshot(&mut state, "event1-no", vec![(dec("0.52"), dec("100"))]);
    orders += state.evaluate_if_open(&gate, "event1", NOW).iter().count();
    assert_eq!(orders, 0);
    assert_eq!(state.decision_counter, 0);

    // The same books make an opportunity once trading is enabled, and no longer when it is stopped
    gate.enable_trading();
    assert!(state.evaluate_if_open(&gate, "event1", NOW).is_some());
    gate.trip_circuit_breaker();
    assert!(state.evaluate_if_open(&gate, "event1", NOW).is_none());
}

#[test]
fn strike_of_a_new_window() {
    let state = StrategyState::new(StrategyConfig::default(), EnginesConfig::default(), NOW);
    let event = window_open_event("event1", CryptoAsset::Btc);
    // Live, without a Chainlink price: the page, else the strike that the window was found with
    let choice = state.choose_strike(&event);
    assert!(matches!(choice, StrikeChoice::AskPage));
    let page = Some(dec("99990"));
    assert_eq!(StrategyState::settle_strike(choice, page, event.strike_price), page);
    let found = Some(dec("100000"));
    assert_eq!(StrategyState::settle_strike(choice, None, event.strike_price), found);
    assert_eq!(StrategyState::settle_strike(choice, None, dec("0")), None);
    let fixed = StrikeChoice::Use(dec("1"));
    assert_eq!(StrategyState::settle_strike(fixed, page, event.strike_price), Some(dec("1")));
    assert_eq!(StrategyState::settle_strike(StrikeChoice::Reject, page, dec("5")), None);
}

#[test]
fn test_circuit_breaker_trips_on_failures() {
    let mut gate = TradingGate::new();
    gate.enable_trading();
    assert!(gate.can_trade());

    // Simulate consecutive failures
    assert!(!gate.record_failure(3)); // 1
    assert!(!gate.record_failure(3)); // 2
    assert!(gate.record_failure(3)); // 3 - should trip

    // Now can_trade should return false
    gate.trip_circuit_breaker();
    assert!(!gate.can_trade());
}

#[test]
fn test_trade_action_variants() {
    assert_eq!(TradeAction::Execute, TradeAction::Execute);
    assert_ne!(TradeAction::Execute, TradeAction::SkipSizing);
    assert_ne!(TradeAction::SkipToxic, TradeAction::SkipDisabled);
}

#[test]
fn test_strategy_config_default() {
    let config = StrategyConfig::default();
    assert_eq!(config.max_consecutive_failures, 3);
    assert!(config.block_on_toxic_high);
}

#[test]
fn test_maker_order_config_default() {
    let config = MakerOrderConfig::default();
    assert_eq!(config.stale_threshold_ms, 5000);
    assert_eq!(config.price_refresh_threshold_bps, 20);
    assert_eq!(config.max_orders_per_market, 4);
}

// =========================================================================
// ActiveMakerOrder Tests
// =========================================================================

#[test]
fn test_active_maker_order_new() {
    let order = ActiveMakerOrder::new(
        "order-123".to_string(),
        "token-abc".to_string(),
        Side::Buy,
        dec("0.45"),
        dec("100"),
        1000,
    );

    assert_eq!(order.order_id, "order-123");
    assert_eq!(order.token_id, "token-abc");
    assert_eq!(order.side, Side::Buy);
    assert_eq!(order.price, dec("0.45"));
    assert_eq!(order.original_size, dec("100"));
    assert_eq!(order.remaining_size, dec("100"));
    assert_eq!(order.filled_size, Decimal::zero());
    assert_eq!(order.placed_at_ms, 1000);
    assert_eq!(order.updated_at_ms, 1000);
}

#[test]
fn test_active_maker_order_is_stale() {
    let order = ActiveMakerOrder::new(
        "order-1".to_string(),
        "token-1".to_string(),
        Side::Buy,
        dec("0.50"),
        dec("50"),
        1000, // placed at 1000ms
    );

    // Not stale yet (only 4000ms passed, threshold is 5000)
    assert!(!order.is_stale(5000, 5000));

    // Now it's stale (5001ms passed > 5000 threshold)
    assert!(order.is_stale(6001, 5000));

    // Exactly at threshold - not stale
    assert!(!order.is_stale(6000, 5000));
}

#[test]
fn test_active_maker_order_needs_price_refresh() {
    let order = ActiveMakerOrder::new(
        "order-1".to_string(),
        "token-1".to_string(),
        Side::Buy,
        dec("0.50"),
        dec("50"),
        1000,
    );

    // Small price change (0.1% = 10 bps) - no refresh needed at 20 bps threshold
    assert!(!order.needs_price_refresh(dec("0.4995"), 20));

    // Large price change (1% = 100 bps) - needs refresh
    assert!(order.needs_price_refresh(dec("0.495"), 20));

    // Price at exactly threshold (0.2% = 20 bps)
    // diff = 0.001, price = 0.50, diff/price = 0.002 = 20 bps
    assert!(!order.needs_price_refresh(dec("0.499"), 20)); // Not > threshold

    // Just over threshold
    assert!(order.needs_price_refresh(dec("0.4989"), 20)); // >20 bps
}

#[test]
fn test_active_maker_order_needs_price_refresh_zero_price() {
    let order = ActiveMakerOrder::new(
        "order-1".to_string(),
        "token-1".to_string(),
        Side::Buy,
        Decimal::zero(), // Zero price
        dec("50"),
        1000,
    );

    // Should not trigger refresh with zero price
    assert!(!order.needs_price_refresh(dec("0.50"), 20));
}

#[test]
fn test_active_maker_order_record_fill() {
    let mut order = ActiveMakerOrder::new(
        "order-1".to_string(),
        "token-1".to_string(),
        Side::Buy,
        dec("0.50"),
        dec("100"),
        1000,
    );

    // First partial fill
    order.record_fill(dec("30"), 2000);
    assert_eq!(order.filled_size, dec("30"));
    assert_eq!(order.remaining_size, dec("70"));
    assert_eq!(order.updated_at_ms, 2000);
    assert!(!order.is_fully_filled());

    // Second partial fill
    order.record_fill(dec("50"), 3000);
    assert_eq!(order.filled_size, dec("80"));
    assert_eq!(order.remaining_size, dec("20"));
    assert_eq!(order.updated_at_ms, 3000);
    assert!(!order.is_fully_filled());

    // Final fill
    order.record_fill(dec("20"), 4000);
    assert_eq!(order.filled_size, dec("100"));
    assert_eq!(order.remaining_size, Decimal::zero());
    assert_eq!(order.updated_at_ms, 4000);
    assert!(order.is_fully_filled());
}

#[test]
fn test_active_maker_order_is_fully_filled() {
    let mut order = ActiveMakerOrder::new(
        "order-1".to_string(),
        "token-1".to_string(),
        Side::Buy,
        dec("0.50"),
        dec("100"),
        1000,
    );

    assert!(!order.is_fully_filled());

    order.record_fill(dec("100"), 2000);
    assert!(order.is_fully_filled());
}

#[test]
fn test_active_maker_order_overfill() {
    let mut order = ActiveMakerOrder::new(
        "order-1".to_string(),
        "token-1".to_string(),
        Side::Buy,
        dec("0.50"),
        dec("100"),
        1000,
    );

    // Overfill (shouldn't happen but handle gracefully)
    order.record_fill(dec("150"), 2000);
    assert_eq!(order.filled_size, dec("150"));
    assert_eq!(order.remaining_size, dec("-50")); // Negative remaining
    assert!(order.is_fully_filled()); // Still counts as fully filled
}

#[test]
fn test_active_maker_order_count() {
    let mut state = StrategyState::new(StrategyConfig::default(), EnginesConfig::default(), NOW);
    state.record_chainlink_price(CryptoAsset::Btc, dec("100000"), NOW);
    open_window(&mut state, &window_open_event("event1", CryptoAsset::Btc));

    // No maker orders have been placed yet
    assert_eq!(state.active_maker_order_count("event1"), 0);
    assert_eq!(state.active_maker_order_count("nonexistent"), 0);
}

#[test]
fn test_tracked_market_has_active_maker_orders() {
    let event = WindowOpenEvent {
        event_id: "test-event".to_string(),
        condition_id: "test-cond".to_string(),
        asset: CryptoAsset::Btc,
        yes_token_id: "yes-token".to_string(),
        no_token_id: "no-token".to_string(),
        strike_price: dec("100000"),
        window_start_ms: NOW,
        window_end_ms: NOW + 15 * 60 * 1000,
    };

    let market =
        TrackedMarket::new_for_backtest(&event, dec("100"), &StrategyConfig::default(), NOW);
    assert_eq!(market.active_maker_orders.len(), 0);
}
