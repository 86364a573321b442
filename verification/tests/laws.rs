use poly_strategy::arb::{ArbDetector, ArbThresholds};
use poly_strategy::atr::AtrTracker;
use poly_strategy::confidence::{ConfidenceCalculator, ConfidenceFactors};
use poly_strategy::confidence_sizing::ConfidenceSizer;
use poly_strategy::config::TradingConfig;
use poly_strategy::decimal::Decimal;
use poly_strategy::directional::DirectionalDetector;
use poly_strategy::maker::{MakerConfig, MakerDetector, calculate_maker_price};
use poly_strategy::maker_orders::ActiveMakerOrder;
use poly_strategy::pivots::{PivotTracker, Regime};
use poly_strategy::position::{Phase, PositionConfig, PositionManager};
use poly_strategy::pricing::{
    SpreadCategory, get_maker_price, is_inside_spread, would_cross_spread,
};
use poly_strategy::regime::{AdaptiveParams, MarketRegime};
use poly_strategy::signal::{Signal, get_signal, get_thresholds};
use poly_strategy::sizing::{HybridSizer, SizingInput, SizingStrategy};
use poly_strategy::strike::{
    CLOSE_PRICE_RETRIES, FetchStep, OPEN_PRICE_RETRIES, next_fetch_step, parse_prices_from_html,
    script_text,
};
use poly_strategy::toxic::{ToxicFlowConfig, ToxicFlowDetector, ToxicIndicators, ToxicSeverity};
use poly_strategy::types::{CryptoAsset, MarketState, OrderBook, PriceLevel, Side, WindowPhase};

/// A decimal from its text.
fn dec(text: &str) -> Decimal {
    let d: rust_decimal::Decimal = text.parse().unwrap();
    Decimal::from_parts(d.mantissa(), d.scale()).unwrap()
}

fn book(bid: Decimal, ask: Decimal) -> OrderBook {
    let mut book = OrderBook::new("token".to_string());
    book.apply_snapshot(
        vec![PriceLevel::new(bid, dec("100"))],
        vec![PriceLevel::new(ask, dec("100"))],
        0,
    );
    book
}

fn market(spot: &str, yes: (&str, &str), no: (&str, &str), seconds: i64) -> MarketState {
    let mut state = MarketState::new(
        "event".to_string(),
        CryptoAsset::Btc,
        "yes".to_string(),
        "no".to_string(),
        dec("100000"),
        seconds,
    );
    state.spot_price = Some(dec(spot));
    state.yes_book = book(dec(yes.0), dec(yes.1));
    state.no_book = book(dec(no.0), dec(no.1));
    state
}

#[test]
fn signals_are_symmetric_and_grow_with_distance() {
    let rank = |signal: Signal| match signal {
        Signal::StrongDown => -2,
        Signal::LeanDown => -1,
        Signal::Neutral => 0,
        Signal::LeanUp => 1,
        Signal::StrongUp => 2,
    };
    for minutes in ["1", "5", "20", "40"] {
        let mut last = -3;
        for offset in -60..=60 {
            let signal = get_signal(Decimal::from_i64(100_000 + offset), dec("100000"), dec(minutes));
            let mirrored =
                get_signal(Decimal::from_i64(100_000 - offset), dec("100000"), dec(minutes));
            assert_eq!(rank(signal), -rank(mirrored));
            assert!(rank(signal) >= last);
            last = rank(signal);
        }
    }
}

#[test]
fn signal_thresholds_tighten() {
    let mut last = dec("1");
    for minutes in ["60", "30", "10", "3", "0"] {
        let thresholds = get_thresholds(dec(minutes));
        assert!(thresholds.lean < thresholds.strong);
        assert!(thresholds.strong <= last);
        last = thresholds.strong;
    }
}

#[test]
fn accepted_pairs_profit_and_have_potential() {
    let detector = ArbDetector::default();
    let good = market("100500", ("0.44", "0.45"), ("0.51", "0.52"), 400);
    let o = detector.detect(&good, 7).unwrap();
    assert!(ArbDetector::has_potential_arb(&good));
    assert!(o.combined_cost < dec("1"));
    assert!(o.margin >= o.required_threshold);
    assert!(o.confidence <= 100);
    assert_eq!(o.detected_at_ms, 7);
    // margin 1.2 times the threshold 15, early 5, size 10, spreads of 207 bps 8, alignment 10
    assert_eq!(o.confidence, 98);
}

#[test]
fn pair_thresholds_fall() {
    let thresholds = ArbThresholds::default();
    let mut last = dec("1");
    for seconds in [900, 301, 300, 121, 120, 0, -1, i64::MIN] {
        let threshold = thresholds.for_phase(thresholds.phase_for_time(seconds));
        assert!(threshold <= last);
        last = threshold;
    }
    assert_eq!(thresholds.phase_for_time(-1), WindowPhase::Late);
}

#[test]
fn potential_is_necessary() {
    let state = market("100250", ("0.48", "0.50"), ("0.46", "0.48"), 300);
    let directional = DirectionalDetector::new();
    assert!(directional.detect(&state, 0).is_ok());
    assert!(directional.has_potential(&state));
    let maker = MakerDetector::new();
    assert!(!maker.detect(&state, None, None, 0).is_empty());
    assert!(maker.has_potential(&state));
}

#[test]
fn confidence_grows_with_time_distance_and_depth() {
    let time = |m: &str, d: &str| ConfidenceCalculator::time_confidence(dec(m), dec(d));
    assert!(time("14", "10") <= time("8", "30"));
    assert!(time("8", "30") <= time("1", "-80"));
    let distance = |d: &str| ConfidenceCalculator::distance_confidence(dec(d));
    assert!(distance("5") <= distance("-25"));
    assert!(distance("-25") <= distance("200"));
    let book = |i: &str, d: &str| ConfidenceCalculator::book_confidence(dec(i), dec(d));
    assert!(book("0.1", "1000") <= book("-0.2", "6000"));
    assert!(book("-0.2", "6000") <= book("0.4", "90000"));
    let signal = |s: Signal| ConfidenceCalculator::signal_confidence(s);
    assert!(signal(Signal::StrongDown) > signal(Signal::LeanUp));
    assert!(signal(Signal::LeanDown) > signal(Signal::Neutral));
}

#[test]
fn orders_grow_with_confidence_within_the_budget() {
    let mut sizer = ConfidenceSizer::with_balance(dec("5000"));
    let factors = ConfidenceFactors::neutral();
    let small = sizer.get_order_size(&factors, dec("0.8"));
    let large = sizer.get_order_size(&factors, dec("2.4"));
    assert_eq!(small.size, dec("4"));
    assert_eq!(large.size, dec("12"));
    sizer.record_trade(dec("990"));
    let last = sizer.get_order_size(&factors, dec("2.4"));
    assert_eq!(last.size, dec("10"));
    assert_eq!(last.budget_remaining, dec("0"));
    sizer.reset();
    assert_eq!(sizer.get_order_size(&factors, dec("2.4")).size, large.size);
}

#[test]
fn trades_grow_with_confidence_and_the_edge_shrinks() {
    let manager = PositionManager::with_budget(dec("1000"));
    let mut last = dec("0");
    for confidence in ["0.1", "0.4", "0.7", "1.0"] {
        let size = manager.calculate_size(dec("300"), dec("1000"), dec(confidence));
        assert!(size >= last);
        last = size;
    }
    // The same expected value is enough later, but not earlier
    let early = manager.should_trade(dec("100"), 800, dec("0.50"), dec("0.20"), 900, dec("0.60"));
    let late = manager.should_trade(dec("100"), 300, dec("0.50"), dec("0.20"), 900, dec("0.60"));
    assert!(!early.is_trade());
    assert!(late.is_trade());
}

#[test]
fn maker_prices_stay_near_the_spread() {
    for (bid, ask) in [
        ("0.40", "0.50"),
        ("0.20", "0.80"),
        ("0.493", "0.507"),
        ("0.4951", "0.4952"),
        ("0.496", "0.499"),
        ("0.501", "0.504"),
        ("0.50", "0.50"),
    ] {
        let book = book(dec(bid), dec(ask));
        for side in [Side::Buy, Side::Sell] {
            let price = get_maker_price(&book, side).unwrap().price;
            let low: rust_decimal::Decimal = bid.parse().unwrap();
            let high: rust_decimal::Decimal = ask.parse().unwrap();
            let cent: rust_decimal::Decimal = "0.01".parse().unwrap();
            let got = rust_decimal::Decimal::from_i128_with_scale(price.mantissa(), price.scale());
            assert!(low - cent <= got && got <= high + cent);
            assert!(!would_cross_spread(&book, side, price));
        }
    }
}

#[test]
fn maker_prices_do_not_cross() {
    // To the nearest cent they would
    let low = book(dec("0.496"), dec("0.499"));
    assert_eq!(get_maker_price(&low, Side::Buy).unwrap().price, dec("0.49"));
    assert_eq!(get_maker_price(&low, Side::Sell).unwrap().price, dec("0.50"));
    let high = book(dec("0.501"), dec("0.504"));
    assert_eq!(get_maker_price(&high, Side::Buy).unwrap().price, dec("0.50"));
    assert_eq!(get_maker_price(&high, Side::Sell).unwrap().price, dec("0.51"));
    let locked = book(dec("0.50"), dec("0.50"));
    assert_eq!(get_maker_price(&locked, Side::Buy).unwrap().price, dec("0.49"));
    assert_eq!(get_maker_price(&locked, Side::Sell).unwrap().price, dec("0.51"));
}

#[test]
fn a_spread_of_one_percent_is_medium() {
    let book = book(dec("0.4975"), dec("0.5025"));
    let result = get_maker_price(&book, Side::Buy).unwrap();
    assert_eq!(result.spread_category, SpreadCategory::Medium);
    assert_eq!(result.placement_ratio, dec("0.30"));
}

#[test]
fn quotes_without_a_maker_price_still_rest() {
    // A spread of 20000 bps
    let book = book(dec("0"), dec("0.5"));
    assert!(get_maker_price(&book, Side::Buy).is_none());
    let config = MakerConfig { max_spread_bps: 20000, ..MakerConfig::default() };
    let o = MakerDetector::with_config(config)
        .detect_for_book("event", &book, None, dec("50"), dec("5"), 0)
        .unwrap();
    assert_eq!(o.side, Side::Buy);
    assert_eq!(o.price, dec("0"));
    assert_eq!(o.spread_bps, 20000);
    assert_eq!(calculate_maker_price(&book, Side::Sell), Some(dec("0.50")));
}

#[test]
fn five_prices_warm_up() {
    let mut tracker = AtrTracker::default();
    let prices: Vec<Decimal> =
        ["95000", "95100", "95000", "95100", "95000"].iter().map(|p| dec(p)).collect();
    tracker.warmup(CryptoAsset::Btc, &prices, 0);
    assert!(tracker.is_warmed_up(CryptoAsset::Btc));
    assert_eq!(tracker.get_atr(CryptoAsset::Btc), dec("100"));
    // Fewer give no range, and the last of them is the current window
    for n in 2..5 {
        let mut tracker = AtrTracker::default();
        tracker.warmup(CryptoAsset::Btc, &prices[..n], 7);
        assert!(!tracker.is_warmed_up(CryptoAsset::Btc));
        assert_eq!(tracker.get_atr(CryptoAsset::Btc), dec("20"));
        let asset = tracker.trackers.get(CryptoAsset::Btc);
        assert_eq!(asset.completed_windows(), 0);
        assert_eq!(asset.current_high, Some(prices[n - 1]));
        assert_eq!(asset.current_low, Some(prices[n - 1]));
        assert_eq!(asset.window_start, Some(7));
    }
}

#[test]
fn half_a_second_is_not_sudden() {
    let check = |at_ms: i64| {
        let mut detector = ToxicFlowDetector::new(ToxicFlowConfig::default());
        let quotes = (Some(dec("0.50")), Some(dec("0.51")));
        for i in 0..15 {
            detector.check_order("token1", Side::Buy, dec("100"), i * 1000, quotes.0, quotes.1);
        }
        detector.check_order("token1", Side::Buy, dec("100"), at_ms, quotes.0, quotes.1)
    };
    assert!(check(14_500).is_none());
    assert!(check(14_499).unwrap().indicators.sudden_appearance);
}

#[test]
fn totals_are_sums() {
    let mut manager = PositionManager::new(PositionConfig::new(dec("1000")));
    for (size, seconds) in [("10.5", 800), ("20.25", 800), ("5", 100), ("0.25", 30)] {
        manager.record_trade(dec(size), dec(size), dec("0"), seconds);
    }
    assert_eq!(manager.total_spent, dec("36"));
    assert_eq!(manager.trade_count, 4);
    assert_eq!(manager.phase_spent.get(Phase::from_seconds(800)), dec("30.75"));
}

#[test]
fn exposure_is_a_share_of_the_total() {
    // Exact shares along the way: 6 of 8, then 7 of 10, then 10 of 40
    let mut manager = PositionManager::new(PositionConfig::new(dec("1000")));
    for (size, up, down) in [("8", "6", "2"), ("2", "1", "1"), ("30", "3", "27")] {
        manager.record_trade(dec(size), dec(up), dec(down), 300);
    }
    assert_eq!(manager.exposure(), (dec("0.25"), dec("0.75")));
    // Otherwise they are off by the rounding of each trade
    let mut manager = PositionManager::new(PositionConfig::new(dec("1000")));
    for (size, up, down) in [("3", "1", "2"), ("4", "1", "3"), ("6", "2", "4")] {
        manager.record_trade(dec(size), dec(up), dec(down), 300);
    }
    let (up, down) = manager.exposure();
    let near = |share: Decimal, numerator: i64| {
        let share = rust_decimal::Decimal::from_i128_with_scale(share.mantissa(), share.scale());
        let exact = rust_decimal::Decimal::from(numerator) / rust_decimal::Decimal::from(13);
        (share - exact).abs() < rust_decimal::Decimal::new(100, 28)
    };
    assert!(near(up, 4));
    assert!(near(down, 9));
}

#[test]
fn levels_never_speak_for_both_directions() {
    let tracker = PivotTracker::default();
    let levels = [None, Some("99900"), Some("100000"), Some("100080"), Some("104000")];
    for support in levels {
        for resistance in levels {
            for price in ["99950", "100000", "100060", "103000", "103900"] {
                for regime in [Regime::Ranging, Regime::Trending, Regime::Unknown] {
                    let factor = |up: bool| {
                        tracker.calc_raw_factor(
                            dec(price),
                            support.map(dec),
                            resistance.map(dec),
                            dec("200"),
                            up,
                            regime,
                        )
                    };
                    let (up, down) = (factor(true), factor(false));
                    assert!(dec("-1") <= up && up <= dec("1"));
                    assert!(dec("-1") <= down && down <= dec("1"));
                    let zero = dec("0");
                    assert!((up >= zero && down <= zero) || (up <= zero && down >= zero));
                    if support.is_none() && resistance.is_none() {
                        assert_eq!(up, zero);
                        assert_eq!(down, zero);
                    }
                }
            }
        }
    }
}

#[test]
fn an_order_is_refreshed_above_the_threshold() {
    let order = ActiveMakerOrder::new(
        "order-1".to_string(),
        "token-1".to_string(),
        Side::Buy,
        dec("0.50"),
        dec("50"),
        1000,
    );
    // 20.4 basis points
    assert!(order.needs_price_refresh(dec("0.49898"), 20));
    assert!(!order.needs_price_refresh(dec("0.49898"), 21));
    // Further away than any number of basis points that fits into 32 bits
    assert!(order.needs_price_refresh(dec("5000000"), 20));
}

#[test]
fn inside_the_spread_nothing_is_taken() {
    let book = book(dec("0.40"), dec("0.50"));
    assert!(is_inside_spread(&book, dec("0.45")));
    assert!(!would_cross_spread(&book, Side::Buy, dec("0.45")));
    assert!(!would_cross_spread(&book, Side::Sell, dec("0.45")));
}

#[test]
fn the_nearest_levels_count() {
    let mut tracker = PivotTracker::default();
    tracker.set_atr(CryptoAsset::Btc, dec("100"));
    tracker.support_levels.set(CryptoAsset::Btc, vec![dec("99000"), dec("99900"), dec("99500")]);
    tracker.resistance_levels.set(CryptoAsset::Btc, vec![dec("101000"), dec("100100")]);
    let up = tracker.calculate_confidence(CryptoAsset::Btc, dec("99920"), true);
    assert_eq!(up.support, Some(dec("99900")));
    assert_eq!(up.resistance, Some(dec("100100")));
    assert_eq!(up.range_position, Some(dec("0.1")));
    assert!(up.raw_factor > dec("0"));
    let down = tracker.calculate_confidence(CryptoAsset::Btc, dec("99920"), false);
    assert!(down.raw_factor < dec("0"));
    // Levels matter less in a trend
    assert!(Regime::Trending.pivot_weight() < Regime::Ranging.pivot_weight());
    // Without levels nothing changes
    let none = tracker.calculate_confidence(CryptoAsset::Eth, dec("3000"), true);
    assert_eq!(none.multiplier, dec("1"));
}

#[test]
fn ranges_have_a_minimum_and_are_bounded_in_number() {
    let mut tracker = AtrTracker::new(10, 2);
    for i in 0..10 {
        tracker.record_price(CryptoAsset::Btc, dec("95000"), 20 * i);
        tracker.record_price(CryptoAsset::Btc, dec("95001"), 20 * i + 1);
    }
    assert!(tracker.trackers.get(CryptoAsset::Btc).completed_windows() <= 2);
    assert_eq!(tracker.get_atr(CryptoAsset::Btc), dec("20"));
}

#[test]
fn wild_markets_are_traded_more_selectively() {
    let calm = AdaptiveParams::for_regime(MarketRegime::from_atr_ratio(dec("0.5")), dec("0.5"));
    let wild = AdaptiveParams::for_regime(MarketRegime::from_atr_ratio(dec("2")), dec("2"));
    assert!(calm.max_edge_factor < wild.max_edge_factor);
}

#[test]
fn more_indicators_are_never_less_severe() {
    let none = ToxicIndicators::default();
    let one = ToxicIndicators { large_order: true, ..none };
    let two = ToxicIndicators { sudden_appearance: true, ..one };
    let three = ToxicIndicators { bbo_shift: true, ..two };
    let detector = ToxicFlowDetector::new(ToxicFlowConfig::default());
    let severity = |i: &ToxicIndicators| detector.calculate_severity(i, dec("50"));
    assert!(severity(&none) <= severity(&one));
    assert!(severity(&one) <= severity(&two));
    assert!(severity(&two) <= severity(&three));
    assert!(ToxicSeverity::High.size_multiplier() < ToxicSeverity::Low.size_multiplier());
}

#[test]
fn a_hybrid_order_fits_both_sizers() {
    let sizer = HybridSizer::from_trading_config(&TradingConfig::default());
    let good = market("100500", ("0.44", "0.45"), ("0.51", "0.52"), 400);
    let opportunity = ArbDetector::default().detect(&good, 0).unwrap();
    let input = SizingInput::new(&opportunity, None, dec("0"), None, dec("1.5"));
    let hybrid = sizer.calculate(&input);
    let limits = sizer.limits_sizer().calculate(&input);
    assert!(hybrid.is_valid);
    assert!(hybrid.size <= limits.size);
}

#[test]
fn prices_on_a_page() {
    assert_eq!(script_text("no script here"), None);
    let page = "<script id=\"__NEXT_DATA__\" type=\"application/json\">{\"a\":1}</script>";
    assert_eq!(script_text(page), Some("{\"a\":1}"));
    let broken = "<script id=\"__NEXT_DATA__\" type=\"application/json\">{\"a\":</script>";
    assert!(parse_prices_from_html(broken, CryptoAsset::Btc).is_none());
}

#[test]
fn pages_are_asked_again() {
    let price = Some(dec("69483.3"));
    assert!(matches!(next_fetch_step(price, 4, OPEN_PRICE_RETRIES), FetchStep::Done(_)));
    assert!(matches!(next_fetch_step(None, 0, OPEN_PRICE_RETRIES), FetchStep::Retry));
    assert!(matches!(
        next_fetch_step(None, CLOSE_PRICE_RETRIES, CLOSE_PRICE_RETRIES),
        FetchStep::GiveUp
    ));
}
