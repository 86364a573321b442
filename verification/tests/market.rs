use poly_strategy::decimal::Decimal;
use poly_strategy::maker_orders::{
    ActiveMakerOrder, MakerOrderConfig, has_order_at, outdated_orders, worn_out_orders,
};
use poly_strategy::market::{
    ConfidenceSnapshot, HedgeAction, TrackedMarket, WindowOpenEvent, seconds_between,
};
use poly_strategy::price_buffer::PriceBuffer;
use poly_strategy::signal::Signal;
use poly_strategy::strategy_config::StrategyConfig;
use poly_strategy::table::Table;
use poly_strategy::toxic::{ToxicFlowWarning, ToxicIndicators, ToxicSeverity};
use poly_strategy::types::{CryptoAsset, Outcome, PriceLevel, Side};

const NOW: i64 = 1_770_742_800_000;

/// A decimal from its text.
fn dec(text: &str) -> Decimal {
    let d: rust_decimal::Decimal = text.parse().unwrap();
    Decimal::from_parts(d.mantissa(), d.scale()).unwrap()
}

fn market() -> TrackedMarket {
    let event = WindowOpenEvent {
        event_id: "event1".to_string(),
        condition_id: "cond1".to_string(),
        asset: CryptoAsset::Btc,
        yes_token_id: "yes1".to_string(),
        no_token_id: "no1".to_string(),
        strike_price: dec("100000"),
        window_start_ms: NOW,
        window_end_ms: NOW + 900_000,
    };
    TrackedMarket::new_for_backtest(&event, dec("100"), &StrategyConfig::default(), NOW)
}

fn warning(severity: ToxicSeverity) -> ToxicFlowWarning {
    ToxicFlowWarning {
        token_id: "yes1".to_string(),
        side: Side::Buy,
        order_size: dec("5000"),
        avg_order_size: dec("100"),
        size_multiplier: dec("50"),
        time_since_last_ms: 100,
        bbo_shift_bps: None,
        severity,
        detected_at_ms: NOW,
        indicators: ToxicIndicators::default(),
    }
}

#[test]
fn new_market() {
    let m = market();
    assert_eq!(m.state.seconds_remaining, 900);
    assert_eq!(m.min_order_size, dec("5"));
    assert_eq!(m.state.strike_price, dec("100000"));
    assert_eq!(m.position_manager.config.total_budget, dec("100"));
    assert_eq!(m.budget_remaining(), dec("100"));
    assert!(!m.has_position());
    assert!(m.position_direction.is_none());
    assert_eq!(m.hedge_tiers_triggered, [false, false, false]);
}

#[test]
fn time_runs_out() {
    let mut m = market();
    m.update_time(NOW + 300_500);
    assert_eq!(m.state.seconds_remaining, 599);
    assert!(!m.is_expired(NOW + 899_999));
    assert!(m.is_expired(NOW + 900_000));
    m.update_time(NOW + 1_000_000);
    assert_eq!(m.state.seconds_remaining, 0);
    assert_eq!(seconds_between(5_500, 1_000), -4);
    assert_eq!(seconds_between(1_000, 5_500), 4);
}

#[test]
fn tokens_and_outcomes() {
    let m = market();
    assert_eq!(m.token_outcome(&"yes1".to_string()), Outcome::Yes);
    assert_eq!(m.token_outcome(&"no1".to_string()), Outcome::No);
}

#[test]
fn the_worst_warning_counts() {
    let mut m = market();
    assert!(m.toxic_warning().is_none());
    m.no_toxic_warning = Some(warning(ToxicSeverity::Low));
    assert_eq!(m.toxic_warning().unwrap().severity, ToxicSeverity::Low);
    m.yes_toxic_warning = Some(warning(ToxicSeverity::High));
    assert_eq!(m.toxic_warning().unwrap().severity, ToxicSeverity::High);
}

#[test]
fn orders_keep_a_distance_in_time() {
    let mut m = market();
    assert!(!m.in_cooldown());
    m.begin_order(dec("10"), Signal::LeanDown, dec("1.25"));
    assert_eq!(m.last_order_ms, Some(NOW));
    assert_eq!(m.last_signal, "LeanDown");
    assert_eq!(m.last_confidence, dec("1.25"));
    assert!(m.in_cooldown());
    m.update_time(NOW + 4_000);
    assert!(m.in_cooldown());
    m.update_time(NOW + 5_000);
    assert!(!m.in_cooldown());
}

#[test]
fn a_reservation_is_given_back() {
    let mut m = market();
    m.begin_order(dec("12.34"), Signal::StrongUp, dec("1"));
    assert_eq!(m.budget_remaining(), dec("87.66"));
    m.cancel_order_budget(dec("12.34"));
    assert_eq!(m.budget_remaining(), dec("100"));
}

#[test]
fn a_fill_takes_the_place_of_the_reservation() {
    let mut m = market();
    m.begin_order(dec("12"), Signal::StrongUp, dec("1"));
    m.book_directional_fill(true, dec("20"), dec("9.6"), dec("12"), dec("1.75"));
    assert_eq!(m.inventory.yes_shares, dec("20"));
    assert_eq!(m.inventory.yes_cost_basis, dec("9.6"));
    assert_eq!(m.position_direction, Some(true));
    assert_eq!(m.peak_confidence, dec("1.75"));
    assert_eq!(m.budget_remaining(), dec("90.4"));
    assert_eq!(m.position_manager.trade_count(), 1);
    // All of it on the UP side
    assert_eq!(m.position_manager.exposure(), (dec("1"), dec("0")));
}

#[test]
fn shares_are_whole_and_not_too_few() {
    let m = market();
    // 10 / 0.48 = 20.8
    assert_eq!(m.directional_shares(dec("10"), dec("0.48")), dec("20"));
    assert_eq!(m.directional_shares(dec("1"), dec("0.48")), dec("5"));
}

#[test]
fn hedge_tiers() {
    let mut m = market();
    m.inventory.record_fill(Outcome::Yes, dec("100"), dec("50"));
    m.position_direction = Some(true);
    m.note_confidence(dec("1"));
    m.note_confidence(dec("0.9"));
    assert_eq!(m.peak_confidence, dec("1"));

    // A drop of 29% is not enough for the first tier
    let ask = Some(dec("0.20"));
    assert!(matches!(m.hedge_action(0, dec("0.71"), Signal::LeanUp, ask), HedgeAction::Wait));
    // 30% is: 10% of 100 shares
    match m.hedge_action(0, dec("0.70"), Signal::LeanUp, ask) {
        HedgeAction::Buy { shares, price } => {
            assert_eq!(shares, dec("10"));
            assert_eq!(price, dec("0.20"));
        }
        other => panic!("{:?}", other),
    }
    assert!(matches!(m.hedge_action(1, dec("0.70"), Signal::LeanUp, ask), HedgeAction::Wait));
    // The first tier pays at most 25 cents, the second 35
    let dear = Some(dec("0.30"));
    assert!(matches!(
        m.hedge_action(0, dec("0.40"), Signal::LeanUp, dear),
        HedgeAction::TooExpensive
    ));
    assert!(matches!(
        m.hedge_action(1, dec("0.40"), Signal::LeanUp, dear),
        HedgeAction::Buy { .. }
    ));
    // The last tier goes by the signal
    assert!(matches!(m.hedge_action(2, dec("0.10"), Signal::LeanUp, ask), HedgeAction::Wait));
    assert!(matches!(m.hedge_action(2, dec("1"), Signal::Neutral, ask), HedgeAction::Wait));
    match m.hedge_action(2, dec("1"), Signal::StrongDown, ask) {
        HedgeAction::Buy { shares, .. } => assert_eq!(shares, dec("25")),
        other => panic!("{:?}", other),
    }
    // Each tier fires once
    m.mark_tier(0);
    assert!(matches!(m.hedge_action(0, dec("0.10"), Signal::LeanUp, ask), HedgeAction::Wait));
    // Without a book there is no price
    assert!(matches!(m.hedge_action(1, dec("0.10"), Signal::LeanUp, None), HedgeAction::Wait));
}

#[test]
fn matched_pairs_pay_whichever_side_wins() {
    let mut m = market();
    m.inventory.record_fill(Outcome::Yes, dec("50"), dec("22.5"));
    m.inventory.record_fill(Outcome::No, dec("50"), dec("26"));
    let up = m.settle(dec("100500"));
    let down = m.settle(dec("99500"));
    assert!(up.yes_wins);
    assert!(!down.yes_wins);
    assert_eq!(up.payout, dec("50"));
    assert_eq!(up.realized_pnl, dec("1.5"));
    assert_eq!(down.realized_pnl, dec("1.5"));
    assert_eq!(up.pnl_cents, Some(150));
    // At the strike YES wins
    assert!(m.settle(dec("100000")).yes_wins);
}

#[test]
fn a_market_without_trades_settles_to_nothing() {
    let s = market().settle(dec("1"));
    assert_eq!(s.realized_pnl, dec("0"));
    assert_eq!(s.pnl_cents, None);
}

#[test]
fn arb_margin_of_the_books() {
    let mut m = market();
    assert_eq!(m.arb_margin_now(), dec("0"));
    m.state.yes_book.asks.push(PriceLevel::new(dec("0.45"), dec("10")));
    m.state.no_book.asks.push(PriceLevel::new(dec("0.52"), dec("10")));
    assert_eq!(m.arb_margin_now(), dec("0.03"));
}

#[test]
fn snapshot_of_confidence() {
    let s = ConfidenceSnapshot::of(
        &"event1".to_string(),
        dec("0.8"),
        450,
        450,
        900,
        dec("50"),
        dec("100"),
        dec("0.55"),
        dec("0.20"),
    );
    assert_eq!(s.time_confidence, dec("0.65"));
    assert_eq!(s.distance_confidence, dec("0.45"));
    assert_eq!(s.min_edge, dec("0.10"));
    assert_eq!(s.ev, dec("0.25"));
    assert_eq!(s.atr_multiple, dec("0.5"));
    assert!(s.would_trade);
}

#[test]
fn recent_prices() {
    let mut buffer = PriceBuffer::new();
    assert!(buffer.lookup(CryptoAsset::Sol, 0).is_none());
    buffer.record(CryptoAsset::Sol, 1_000, dec("150"));
    buffer.record(CryptoAsset::Sol, 2_000, dec("151"));
    buffer.record(CryptoAsset::Sol, 4_000, dec("152"));
    // The nearest in time counts
    assert_eq!(buffer.lookup(CryptoAsset::Sol, 2_400), Some(dec("151")));
    assert_eq!(buffer.lookup(CryptoAsset::Sol, 3_600), Some(dec("152")));
    // Up to two seconds away
    assert_eq!(buffer.lookup(CryptoAsset::Sol, 6_000), Some(dec("152")));
    assert!(buffer.lookup(CryptoAsset::Sol, 6_001).is_none());
    assert!(buffer.lookup(CryptoAsset::Btc, 2_000).is_none());
    // Old prices leave
    for i in 0..200 {
        buffer.record(CryptoAsset::Sol, 10_000 + i, dec("160"));
    }
    assert!(buffer.lookup(CryptoAsset::Sol, 2_000).is_none());
}

#[test]
fn tables_hold_one_value_per_key() {
    let mut table: Table<u32> = Table::new();
    table.insert("a".to_string(), 1);
    table.insert("b".to_string(), 2);
    table.insert("a".to_string(), 3);
    assert_eq!(table.len(), 2);
    assert_eq!(table.get("a"), Some(&3));
    assert!(table.contains_key("b"));
    assert_eq!(table.remove("b"), Some(2));
    assert_eq!(table.remove("b"), None);
    assert_eq!(table.keys(), vec!["a".to_string()]);
    table.clear();
    assert_eq!(table.len(), 0);
}

fn order(id: &str, token: &str, price: &str, placed_at_ms: i64) -> ActiveMakerOrder {
    ActiveMakerOrder::new(
        id.to_string(),
        token.to_string(),
        Side::Buy,
        dec(price),
        dec("50"),
        placed_at_ms,
    )
}

#[test]
fn resting_orders() {
    let config = MakerOrderConfig::default();
    let mut orders: Table<ActiveMakerOrder> = Table::new();
    orders.insert("stale".to_string(), order("stale", "yes1", "0.45", 0));
    orders.insert("moved".to_string(), order("moved", "yes1", "0.40", 9_000));
    orders.insert("good".to_string(), order("good", "yes1", "0.45", 9_000));
    orders.insert("other".to_string(), order("other", "no1", "0.30", 0));
    let mut filled = order("filled", "yes1", "0.45", 9_000);
    filled.record_fill(dec("50"), 9_500);
    orders.insert("filled".to_string(), filled);

    let mut outdated = outdated_orders(&orders, "yes1", dec("0.45"), 10_000, &config);
    outdated.sort();
    assert_eq!(outdated, vec!["filled", "moved", "stale"]);
    let mut worn_out = worn_out_orders(&orders, 10_000, &config);
    worn_out.sort();
    assert_eq!(worn_out, vec!["filled", "other", "stale"]);
    assert!(has_order_at(&orders, "yes1", Side::Buy, dec("0.450")));
    assert!(!has_order_at(&orders, "yes1", Side::Sell, dec("0.45")));
    assert!(!has_order_at(&orders, "no1", Side::Buy, dec("0.45")));
}
