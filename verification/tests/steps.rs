use poly_strategy::config::{EnginesConfig, ExecutionConfig, ExecutionMode};
use poly_strategy::confidence::Confidence;
use poly_strategy::decimal::Decimal;
use poly_strategy::directional::DirectionalOpportunity;
use poly_strategy::maker::MakerOpportunity;
use poly_strategy::maker_orders::MakerOrderConfig;
use poly_strategy::market::{HedgeAction, WindowOpenEvent};
use poly_strategy::position::SkipReason;
use poly_strategy::signal::Signal;
use poly_strategy::steps::{
    ChaseStep, ChaseStop, DirectionalOrder, DirectionalOutcome, DirectionalStart, FillAmounts,
    MakerResult, MakerStep, OrderType, OrderUpdate, adjust_for_lead, next_chase_step, order_style,
    price_per_share, volume_cents,
};
use poly_strategy::strategy::{
    PendingOrderType, StrategyError, StrategyState, StrikeChoice, TradeAction, TradingGate,
};
use poly_strategy::strategy_config::StrategyConfig;
use poly_strategy::types::{CryptoAsset, EngineType, Inventory, Outcome, PriceLevel, Side};

const NOW: i64 = 1_770_742_800_000;

/// A decimal from its text.
fn dec(text: &str) -> Decimal {
    lib(text.parse().unwrap())
}

/// The same number in `rust_decimal`.
fn ext(d: Decimal) -> rust_decimal::Decimal {
    rust_decimal::Decimal::from_i128_with_scale(d.mantissa(), d.scale())
}

/// The same number in the library.
fn lib(d: rust_decimal::Decimal) -> Decimal {
    Decimal::from_parts(d.mantissa(), d.scale()).unwrap()
}

/// Square root, computed in floating point.
fn square_root(x: Decimal) -> Decimal {
    let root = ext(x).to_string().parse::<f64>().unwrap().sqrt();
    lib(rust_decimal::Decimal::try_from(root).unwrap())
}

fn event(id: &str, end_ms: i64) -> WindowOpenEvent {
    WindowOpenEvent {
        event_id: id.to_string(),
        condition_id: format!("{}-cond", id),
        asset: CryptoAsset::Btc,
        yes_token_id: format!("{}-yes", id),
        no_token_id: format!("{}-no", id),
        strike_price: dec("100000"),
        window_start_ms: NOW,
        window_end_ms: end_ms,
    }
}

fn level(price: &str, size: &str) -> PriceLevel {
    PriceLevel::new(dec(price), dec(size))
}

/// A state with one market, two minutes before its end, with the spot price above the strike.
fn state() -> StrategyState {
    let mut state = StrategyState::new(StrategyConfig::default(), EnginesConfig::default(), NOW);
    state.open_market(&event("event1", NOW + 120_000), dec("5"), NOW);
    state.record_spot_price(CryptoAsset::Btc, dec("100050"), NOW);
    state.record_book_snapshot(
        "event1-yes",
        vec![level("0.49", "1000")],
        vec![level("0.50", "1000")],
        NOW,
    );
    state.record_book_snapshot(
        "event1-no",
        vec![level("0.47", "1000")],
        vec![level("0.48", "1000")],
        NOW,
    );
    state
}

fn opportunity(signal: Signal) -> DirectionalOpportunity {
    DirectionalOpportunity {
        event_id: "event1".to_string(),
        yes_token_id: "event1-yes".to_string(),
        no_token_id: "event1-no".to_string(),
        signal,
        confidence: Confidence::neutral(),
        spot_price: dec("100050"),
        strike_price: dec("100000"),
        distance: dec("0.0005"),
        minutes_remaining: dec("2"),
        yes_ask: dec("0.50"),
        no_ask: dec("0.48"),
        combined_cost: dec("0.98"),
        yes_imbalance: dec("0"),
        no_imbalance: dec("0"),
        detected_at_ms: NOW,
        binance_lead: None,
    }
}

fn nothing() -> FillAmounts {
    FillAmounts { size: dec("0"), cost: dec("0"), fee: dec("0") }
}

#[test]
fn volumes_in_cents() {
    assert_eq!(volume_cents(dec("12.349")), 1234);
    assert_eq!(volume_cents(dec("-1")), 0);
    assert_eq!(volume_cents(dec("300000000000000000")), 0);
}

#[test]
fn price_of_a_fill() {
    let fill = FillAmounts { size: dec("20"), cost: dec("9.6"), fee: dec("0") };
    assert_eq!(price_per_share(&fill), dec("0.48"));
    assert_eq!(price_per_share(&nothing()), dec("0"));
}

#[test]
fn styles_of_orders() {
    let limit = ExecutionConfig {
        execution_mode: ExecutionMode::Limit,
        chase_enabled: true,
        ..ExecutionConfig::default()
    };
    assert_eq!(order_style(&limit, false), (OrderType::Gtc, true));
    assert_eq!(order_style(&limit, true), (OrderType::Gtc, false));
    let market = ExecutionConfig { execution_mode: ExecutionMode::Market, ..limit };
    assert_eq!(order_style(&market, false), (OrderType::Ioc, false));
}

#[test]
fn following_a_price() {
    let zero = dec("0");
    let bid = Some(dec("0.47"));
    let closed = Some(ChaseStop::MarketClosed);
    let refused = Some(ChaseStop::PostOnlyRejected);
    assert!(matches!(next_chase_step(closed, true, dec("5"), 0, bid), ChaseStep::Closed));
    match next_chase_step(refused, false, zero, 1, bid) {
        ChaseStep::RetryAt(price) => assert_eq!(price, dec("0.47")),
        other => panic!("{:?}", other),
    }
    assert!(matches!(next_chase_step(refused, false, zero, 2, bid), ChaseStep::MaxRetries));
    assert!(matches!(next_chase_step(refused, false, zero, 0, None), ChaseStep::NoFreshPrice));
    assert!(matches!(
        next_chase_step(refused, false, zero, 0, Some(zero)),
        ChaseStep::NoFreshPrice
    ));
    assert!(matches!(
        next_chase_step(Some(ChaseStop::Other), false, dec("1"), 0, bid),
        ChaseStep::Filled
    ));
    assert!(matches!(next_chase_step(None, true, zero, 0, bid), ChaseStep::Filled));
    assert!(matches!(next_chase_step(None, false, zero, 0, bid), ChaseStep::Failed));
}

#[test]
fn lead_of_binance() {
    let mut config = StrategyConfig::default();
    config.binance_lead_enabled = true;
    config.lead_confirm_boost = dec("0.10");
    config.lead_oppose_cut = dec("0.30");
    let up = Some(dec("0.001"));
    let base = dec("0.5");
    assert_eq!(adjust_for_lead(&config, Signal::LeanUp, up, base), dec("0.55"));
    assert_eq!(adjust_for_lead(&config, Signal::StrongDown, up, base), dec("0.35"));
    assert_eq!(adjust_for_lead(&config, Signal::LeanUp, up, dec("0.95")), dec("1"));
    assert_eq!(adjust_for_lead(&config, Signal::LeanUp, None, base), base);
    config.binance_lead_enabled = false;
    assert_eq!(adjust_for_lead(&config, Signal::LeanUp, up, base), base);
}

#[test]
fn engines_look_at_a_market() {
    let mut state = state();
    let evaluation = state.evaluate("event1", NOW).unwrap();
    assert_eq!(evaluation.asset, CryptoAsset::Btc);
    assert!(!evaluation.blocked);
    assert_eq!(evaluation.aggregated.primary_engine(), Some(EngineType::Directional));
    assert!(state.evaluate("unknown", NOW).is_none());
    // A market that has ended is not looked at, but its time runs on
    assert!(state.evaluate("event1", NOW + 120_000).is_none());
    assert_eq!(state.markets.get("event1").unwrap().state.seconds_remaining, 0);
}

#[test]
fn a_directional_trade_from_signal_to_fill() {
    let mut state = state();
    let opp = opportunity(Signal::StrongUp);
    let (distance, product) = match state.begin_directional("event1", &opp) {
        DirectionalStart::Ready { distance_dollars, confidence_product } => {
            (distance_dollars, confidence_product)
        }
        other => panic!("{:?}", other),
    };
    assert_eq!(distance, dec("50"));
    // The range of the asset is taken over
    assert_eq!(state.markets.get("event1").unwrap().position_manager.atr(), dec("20"));
    let decision =
        state.decide_directional("event1", &opp, distance, square_root(product), dec("0"));
    assert!(!decision.check_hedge);
    assert_eq!(decision.snapshot.event_id, "event1");
    assert_eq!(decision.pivot.multiplier, dec("1"));
    let size = match decision.outcome {
        DirectionalOutcome::Execute { size, .. } => size,
        other => panic!("{:?}", other),
    };
    let before = state.markets.get("event1").unwrap().budget_remaining();
    let request = match state.prepare_directional(&opp, size, dec("1.5")) {
        DirectionalOrder::Place(request) => request,
        other => panic!("{:?}", other),
    };
    assert_eq!(request.request_id, "dir-0-yes");
    assert_eq!(request.token_id, "event1-yes");
    assert_eq!(request.outcome, Outcome::Yes);
    assert_eq!(request.side, Side::Buy);
    assert_eq!(request.price, dec("0.50"));
    assert!(state.is_pending("event1", PendingOrderType::Directional));
    assert!(matches!(state.begin_directional("event1", &opp), DirectionalStart::InFlight));

    let cost = lib(ext(request.size) * ext(request.price));
    let fill = FillAmounts { size: request.size, cost, fee: dec("0") };
    state.finish_directional("event1", true, fill, false, size, dec("1.5"));
    assert!(!state.is_pending("event1", PendingOrderType::Directional));
    let market = state.markets.get("event1").unwrap();
    assert_eq!(market.inventory.yes_shares, request.size);
    assert_eq!(ext(market.budget_remaining()), ext(before) - ext(cost));
    // The next order has to wait
    assert!(matches!(state.begin_directional("event1", &opp), DirectionalStart::CoolingDown));
}

#[test]
fn an_order_without_fill_gives_its_budget_back() {
    let mut state = state();
    let before = state.markets.get("event1").unwrap().budget_remaining();
    let opp = opportunity(Signal::StrongDown);
    let request = match state.prepare_directional(&opp, dec("7"), dec("9")) {
        DirectionalOrder::Place(request) => request,
        other => panic!("{:?}", other),
    };
    assert_eq!(request.request_id, "dir-0-no");
    assert_eq!(request.token_id, "event1-no");
    // 7 / 0.48 = 14.6
    assert_eq!(request.size, dec("14"));
    assert_eq!(state.markets.get("event1").unwrap().last_confidence, dec("3"));
    // Still pending: nothing changes
    state.finish_directional("event1", false, nothing(), true, dec("7"), dec("3"));
    assert!(state.is_pending("event1", PendingOrderType::Directional));
    state.finish_directional("event1", false, nothing(), false, dec("7"), dec("3"));
    assert!(!state.is_pending("event1", PendingOrderType::Directional));
    assert_eq!(state.markets.get("event1").unwrap().budget_remaining(), before);
}

#[test]
fn no_order_without_market_or_price() {
    let mut state = state();
    let mut opp = opportunity(Signal::StrongUp);
    state.order_books.clear();
    let before = state.markets.get("event1").unwrap().budget_remaining();
    assert!(matches!(
        state.prepare_directional(&opp, dec("7"), dec("1")),
        DirectionalOrder::NoPrice
    ));
    assert!(!state.is_pending("event1", PendingOrderType::Directional));
    assert_eq!(state.markets.get("event1").unwrap().budget_remaining(), before);
    opp.event_id = "unknown".to_string();
    assert!(matches!(
        state.prepare_directional(&opp, dec("7"), dec("1")),
        DirectionalOrder::NoMarket
    ));
}

#[test]
fn outcomes_of_a_directional_decision() {
    let mut state = state();
    let opp = opportunity(Signal::StrongUp);
    state.begin_directional("event1", &opp);
    let outcome = |state: &StrategyState, root: &str, exposure: &str| {
        state.decide_directional("event1", &opp, dec("50"), dec(root), dec(exposure)).outcome
    };
    // Too little confidence is not worth a record
    match outcome(&state, "0.1", "0") {
        DirectionalOutcome::Skip { reason, record } => {
            assert_eq!(reason, SkipReason::LowConfidence);
            assert!(!record);
        }
        other => panic!("{:?}", other),
    }
    // The account is full, or nearly
    let limit = ext(state.config.sizing_config.max_total_exposure);
    assert!(state.has_capacity(dec("0")));
    assert!(!state.has_capacity(lib(limit)));
    assert!(matches!(
        state.decide_directional("event1", &opp, dec("50"), dec("0.9"), lib(limit)).outcome,
        DirectionalOutcome::NoCapacity
    ));
    let nearly = lib(limit - ext(dec("0.5")));
    assert!(matches!(
        state.decide_directional("event1", &opp, dec("50"), dec("0.9"), nearly).outcome,
        DirectionalOutcome::TooSmall
    ));
    let almost = lib(limit - ext(dec("1.5")));
    match state.decide_directional("event1", &opp, dec("50"), dec("0.9"), almost).outcome {
        DirectionalOutcome::Execute { size, .. } => assert_eq!(size, dec("1.5")),
        other => panic!("{:?}", other),
    }
}

#[test]
fn adjusted_confidence_decides() {
    let mut state = state();
    let mut opp = opportunity(Signal::StrongUp);
    state.config.binance_lead_enabled = true;
    state.config.lead_confirm_boost = dec("0.10");
    state.config.lead_oppose_cut = dec("0.50");
    state.begin_directional("event1", &opp);
    let decide = |state: &StrategyState, opp: &DirectionalOpportunity| {
        state.decide_directional("event1", opp, dec("50"), dec("0.8"), dec("0"))
    };
    let plain = decide(&state, &opp);
    // 0.8, and a fifth more so far from the strike
    assert_eq!(plain.confidence, dec("0.96"));
    assert!(matches!(plain.outcome, DirectionalOutcome::Execute { .. }));
    // A lead the other way halves the confidence, which is then below the price
    opp.binance_lead = Some(dec("-0.001"));
    let cut = decide(&state, &opp);
    assert_eq!(cut.base_confidence, dec("0.96"));
    assert_eq!(cut.confidence, dec("0.48"));
    match cut.outcome {
        DirectionalOutcome::Skip { reason, .. } => assert_eq!(reason, SkipReason::LowConfidence),
        other => panic!("{:?}", other),
    }
    // A lead the same way raises it, to one at most
    opp.binance_lead = Some(dec("0.001"));
    let boosted = decide(&state, &opp);
    match boosted.outcome {
        DirectionalOutcome::Execute { confidence, .. } => assert_eq!(confidence, dec("1")),
        other => panic!("{:?}", other),
    }
}

#[test]
fn hedging_a_position() {
    let mut state = state();
    state.book_shares("event1", Outcome::Yes, dec("100"), dec("50"));
    state.note_confidence("event1", dec("1"));
    // Without a direction there is nothing to hedge
    assert!(matches!(
        state.check_hedge("event1", 0, dec("0.1"), Signal::LeanUp),
        HedgeAction::Wait
    ));
    state.finish_directional(
        "event1",
        true,
        FillAmounts { size: dec("1"), cost: dec("0.5"), fee: dec("0") },
        false,
        dec("0.5"),
        dec("1"),
    );
    state.note_confidence("event1", dec("1"));
    // The NO side costs 48 cents, more than any tier pays
    assert!(matches!(
        state.check_hedge("event1", 2, dec("0.1"), Signal::StrongDown),
        HedgeAction::TooExpensive
    ));
    state.record_book_snapshot(
        "event1-no",
        vec![level("0.19", "1000")],
        vec![level("0.20", "1000")],
        NOW + 1_000,
    );
    let (shares, price) = match state.check_hedge("event1", 2, dec("0.1"), Signal::StrongDown) {
        HedgeAction::Buy { shares, price } => (shares, price),
        other => panic!("{:?}", other),
    };
    // A quarter of 101 shares
    assert_eq!(shares, dec("25"));
    let request = state.hedge_order("event1", 2, shares, price).unwrap();
    assert_eq!(request.request_id, "hedge-0-t2");
    assert_eq!(request.token_id, "event1-no");
    assert_eq!(request.outcome, Outcome::No);
    assert_eq!(request.order_type, OrderType::Ioc);
    assert!(matches!(
        state.check_hedge("event1", 2, dec("0.1"), Signal::StrongDown),
        HedgeAction::Wait
    ));
    assert!(state.hedge_order("unknown", 0, shares, price).is_none());
}

fn maker(price: &str) -> MakerOpportunity {
    MakerOpportunity {
        event_id: "event1".to_string(),
        token_id: "event1-no".to_string(),
        side: Side::Buy,
        price: dec(price),
        size: dec("50"),
        expected_rebate: dec("0.01"),
        spread_bps: 100,
        qualifies_for_rewards: true,
        minutes_remaining: dec("2"),
        best_bid: dec("0.47"),
        best_ask: dec("0.48"),
        detected_at_ms: NOW,
    }
}

#[test]
fn maker_orders_come_and_go() {
    let mut state = state();
    let config = MakerOrderConfig::default();
    let request = match state.plan_maker(&maker("0.47"), &config) {
        MakerStep::Place(request) => request,
        other => panic!("{:?}", other),
    };
    assert_eq!(request.request_id, "maker-0-no");
    assert_eq!(request.order_type, OrderType::Gtc);
    let pending = MakerResult::Pending { order_id: "o1".to_string() };
    assert_eq!(state.finish_maker(&maker("0.47"), pending, NOW), (TradeAction::Execute, 0));
    assert_eq!(state.active_maker_order_count("event1"), 1);
    assert!(matches!(state.plan_maker(&maker("0.47"), &config), MakerStep::AlreadyThere));
    // A price that moved takes the order back
    let outdated = state.maker_orders_to_cancel(&maker("0.40"), NOW, &config);
    assert_eq!(outdated, vec!["o1".to_string()]);
    assert!(state.maker_orders_to_refresh("event1", NOW, &config).is_empty());
    assert_eq!(state.maker_orders_to_refresh("event1", NOW + 5_001, &config).len(), 1);
    state.order_cancelled("event1", "o1", Some(dec("10")));
    assert_eq!(state.active_maker_order_count("event1"), 0);
    let inventory = &state.markets.get("event1").unwrap().inventory;
    assert_eq!(inventory.no_shares, dec("10"));
    assert_eq!(inventory.no_cost_basis, dec("4.7"));
}

#[test]
fn results_of_maker_orders() {
    let mut state = state();
    let filled = MakerResult::Filled { size: dec("50"), price: dec("0.47"), fee: dec("0.1") };
    assert_eq!(state.finish_maker(&maker("0.47"), filled, NOW), (TradeAction::Execute, 2350));
    let partial = MakerResult::Partial {
        order_id: "o2".to_string(),
        requested: dec("50"),
        filled: dec("20"),
        avg_price: dec("0.47"),
        fee: dec("0"),
    };
    assert_eq!(state.finish_maker(&maker("0.47"), partial, NOW), (TradeAction::Execute, 940));
    let market = state.markets.get("event1").unwrap();
    assert_eq!(market.inventory.no_shares, dec("70"));
    assert_eq!(market.inventory.no_cost_basis, dec("33"));
    assert_eq!(market.active_maker_orders.get("o2").unwrap().remaining_size, dec("30"));
    assert_eq!(
        state.finish_maker(&maker("0.47"), MakerResult::Refused, NOW),
        (TradeAction::SkipSizing, 0)
    );
    // Fills of the resting part
    state.handle_maker_fill("event1", "o2", dec("10"), NOW + 1);
    let market = state.markets.get("event1").unwrap();
    assert_eq!(market.active_maker_orders.get("o2").unwrap().remaining_size, dec("20"));
    state.handle_maker_fill("event1", "o2", dec("20"), NOW + 2);
    assert_eq!(state.active_maker_order_count("event1"), 0);
}

#[test]
fn no_more_orders_than_allowed() {
    let mut state = state();
    let config = MakerOrderConfig { max_orders_per_market: 1, ..MakerOrderConfig::default() };
    let pending = MakerResult::Pending { order_id: "o1".to_string() };
    state.finish_maker(&maker("0.47"), pending, NOW);
    assert!(matches!(state.plan_maker(&maker("0.46"), &config), MakerStep::Full));
    let mut unknown = maker("0.47");
    unknown.event_id = "unknown".to_string();
    assert!(matches!(state.plan_maker(&unknown, &config), MakerStep::NoMarket));
}

#[test]
fn news_about_orders_in_the_background() {
    let mut state = state();
    state.set_pending("event1", PendingOrderType::Directional, true);
    let fill = |side: Side, is_complete: bool| OrderUpdate::Fill {
        market_id: "event1".to_string(),
        outcome: Outcome::No,
        side,
        filled_size: dec("10"),
        avg_price: dec("0.48"),
        fee: dec("0.2"),
        is_complete,
    };
    let position = Inventory::new("event1".to_string());
    let position = state.handle_order_update(&fill(Side::Buy, false), Some(position)).unwrap();
    assert_eq!(position.no_shares, dec("10"));
    assert_eq!(position.no_cost_basis, dec("5"));
    assert!(state.is_pending("event1", PendingOrderType::Directional));
    let position = state.handle_order_update(&fill(Side::Sell, true), Some(position)).unwrap();
    assert_eq!(position.no_shares, dec("0"));
    assert_eq!(position.no_cost_basis, dec("10"));
    assert!(!state.is_pending("event1", PendingOrderType::Directional));
    for update in [
        OrderUpdate::Rejected { market_id: "event1".to_string() },
        OrderUpdate::Cancelled { market_id: "event1".to_string() },
        OrderUpdate::ChaseEnded { market_id: "event1".to_string() },
    ] {
        state.set_pending("event1", PendingOrderType::Directional, true);
        assert!(state.handle_order_update(&update, None).is_none());
        assert!(!state.is_pending("event1", PendingOrderType::Directional));
    }
}

#[test]
fn confidence_at_a_spot_price() {
    let mut state = state();
    let (distance, product) = state.spot_confidence("event1", dec("99900")).unwrap();
    assert_eq!(distance, dec("100"));
    let snapshot =
        state.spot_snapshot("event1", dec("99900"), distance, square_root(product));
    // Below the strike the NO side is favoured
    assert_eq!(snapshot.favorable_price, dec("0.48"));
    assert_eq!(snapshot.distance_dollars, dec("100"));
    assert!(state.spot_confidence("unknown", dec("1")).is_none());
    state.drop_market("event1");
    assert_eq!(state.market_count(), 0);
}

#[test]
fn the_market_that_ends_next() {
    let mut state = state();
    assert_eq!(state.closest_market(NOW), Some("event1".to_string()));
    state.open_market(&event("event2", NOW + 60_000), dec("5"), NOW);
    assert_eq!(state.closest_market(NOW), Some("event2".to_string()));
    assert_eq!(state.closest_market(NOW + 60_000), Some("event1".to_string()));
    assert_eq!(state.closest_market(NOW + 120_000), None);
}

#[test]
fn records_are_numbered() {
    let mut state = state();
    let evaluation = state.evaluate("event1", NOW).unwrap();
    let first = state.record_multi_decision(
        "event1".to_string(),
        CryptoAsset::Btc,
        EngineType::Directional,
        evaluation.aggregated.clone(),
        None,
        None,
        TradeAction::SkipToxic,
        NOW,
        17,
    );
    let second = state.record_multi_decision(
        "event1".to_string(),
        CryptoAsset::Btc,
        EngineType::Directional,
        evaluation.aggregated,
        None,
        None,
        TradeAction::Execute,
        NOW,
        18,
    );
    assert_eq!(first.decision_id, 0);
    assert_eq!(first.latency_us, 17);
    assert_eq!(second.decision_id, 1);
    assert_eq!(second.action, TradeAction::Execute);
}

#[test]
fn windows_open_and_close() {
    let mut state = state();
    assert_eq!(state.event_time_range(), (None, None));
    state.observe_time(NOW);
    state.observe_time(NOW + 5);
    assert_eq!(state.event_time_range(), (Some(NOW), Some(NOW + 5)));
    let report =
        state.record_fill("event1", Outcome::Yes, dec("10"), dec("0.50"), dec("0.01")).unwrap();
    assert_eq!(report.cost, dec("5.01"));
    assert_eq!(report.spot_price, dec("100050"));
    assert_eq!(report.arb_margin, dec("0.02"));
    assert!(state.record_fill("unknown", Outcome::Yes, dec("1"), dec("1"), dec("0")).is_none());
    assert_eq!(state.find_event("event1-no"), Some("event1".to_string()));
    assert_eq!(state.markets_of(CryptoAsset::Btc), vec!["event1".to_string()]);
    assert!(state.markets_of(CryptoAsset::Eth).is_empty());
    let settled = state.close_market("event1").unwrap();
    assert!(settled.yes_wins);
    assert_eq!(settled.payout, dec("10"));
    assert_eq!(settled.realized_pnl, dec("4.99"));
    assert!(state.close_market("event1").is_none());
    assert!(state.find_event("event1-no").is_none());
}

#[test]
fn expired_markets_are_settled() {
    let mut state = state();
    state.open_market(&event("event2", NOW + 60_000), dec("5"), NOW);
    state.record_chainlink_price(CryptoAsset::Btc, dec("99990"), NOW);
    assert_eq!(state.expired_markets(NOW + 60_000), vec!["event2".to_string()]);
    let settled = state.settle_expired(NOW + 60_000);
    assert_eq!(settled.len(), 1);
    assert_eq!(settled[0].event_id, "event2");
    // Chainlink decides where there is a price
    assert_eq!(settled[0].final_spot, dec("99990"));
    assert!(!settled[0].yes_wins);
    assert_eq!(state.market_count(), 1);
    // Its tokens are gone with it, and those of the other market are not
    assert!(state.find_event("event2-yes").is_none());
    assert!(!state.token_to_event.contains_key("event2-no"));
    assert_eq!(state.find_event("event1-yes"), Some("event1".to_string()));
    assert!(state.settle_expired(NOW + 60_000).is_empty());

    // Several at once, each of them once
    state.open_market(&event("event3", NOW + 90_000), dec("5"), NOW);
    let mut ids: Vec<String> =
        state.settle_expired(NOW + 120_000).into_iter().map(|s| s.event_id).collect();
    ids.sort();
    assert_eq!(ids, ["event1", "event3"]);
    assert_eq!(state.market_count(), 0);
    assert_eq!(state.token_to_event.len(), 0);
}

#[test]
fn settlements_keep_their_digits() {
    let mut state = state();
    state.book_shares("event1", Outcome::Yes, dec("10"), dec("4.50"));
    state.book_shares("event1", Outcome::No, dec("2.0"), dec("1.5"));
    let settled = state.close_market("event1").unwrap();
    assert_eq!(ext(settled.cost_basis).to_string(), "6.00");
    assert_eq!(ext(settled.realized_pnl).to_string(), "4.00");
    assert_eq!(ext(settled.no_shares).to_string(), "2.0");
}

#[test]
fn spot_prices_reach_levels_and_regime() {
    let mut state = state();
    let mut now = NOW;
    for (i, price) in [100_100, 99_900, 100_200, 99_800].iter().enumerate() {
        now = NOW + 60_000 * (i as i64 + 1);
        state.handle_spot_price(CryptoAsset::Btc, dec(&price.to_string()), now, now);
    }
    assert_eq!(*state.spot_prices.get(CryptoAsset::Btc), Some(dec("99800")));
    let market = state.markets.get("event1").unwrap();
    assert_eq!(market.state.spot_price, Some(dec("99800")));
    // The average true range that counts is the one after the price
    let atr = state.atr_tracker.get_atr(CryptoAsset::Btc);
    assert!(atr > dec("20"));
    assert_eq!(*state.pivot_tracker.atr.get(CryptoAsset::Btc), Some(atr));
    let bars = state.pivot_tracker.history.get(CryptoAsset::Btc);
    assert_eq!(bars.len(), 4);
    assert_eq!(bars[3].timestamp, now / 1000);
    assert_eq!(bars[3].close, dec("99800"));
}

#[test]
fn choice_of_the_strike() {
    let mut state = state();
    state.config = StrategyConfig::default().with_backtest(true);
    let mut opening = event("event3", NOW + 900_000);
    assert!(matches!(state.choose_strike(&opening), StrikeChoice::Use(_)));
    opening.strike_price = dec("0");
    assert!(matches!(state.choose_strike(&opening), StrikeChoice::Reject));
    state.config.live_oracle = true;
    assert!(matches!(state.choose_strike(&opening), StrikeChoice::AskPage));
    state.record_chainlink_price(CryptoAsset::Btc, dec("100123"), NOW + 500);
    match state.choose_strike(&opening) {
        StrikeChoice::Use(price) => assert_eq!(price, dec("100123")),
        other => panic!("{:?}", other),
    }
}

#[test]
fn only_system_failures_stop_trading() {
    let mut gate = TradingGate::new();
    gate.enable_trading();
    for _ in 0..5 {
        gate.order_failed(false, 3);
    }
    assert!(gate.can_trade());
    gate.order_failed(true, 3);
    gate.order_failed(true, 3);
    gate.record_success();
    gate.order_failed(true, 3);
    assert!(gate.can_trade());
    gate.order_failed(true, 3);
    gate.order_failed(true, 3);
    assert!(!gate.can_trade());
}

#[test]
fn error_texts() {
    assert_eq!(StrategyError::Shutdown.to_string(), "Shutdown requested");
    assert_eq!(
        StrategyError::Internal("boom".to_string()).to_string(),
        "Internal error: boom"
    );
}
