use poly_strategy::decimal::Decimal;
use poly_strategy::maker::{MakerConfig, MakerDetector, MakerOpportunity, MakerSkipReason, calculate_maker_price};
use poly_strategy::types::{
    CryptoAsset, MarketState, OrderBook, PriceLevel, RewardsConfig, Side, calculate_imbalance,
};

/// A decimal from its text.
fn dec(text: &str) -> Decimal {
    let d: rust_decimal::Decimal = text.parse().unwrap();
    Decimal::from_parts(d.mantissa(), d.scale()).unwrap()
}

fn create_test_market_state(seconds_remaining: i64) -> MarketState {
    MarketState::new(
        "test-event".to_string(),
        CryptoAsset::Btc,
        "yes-token".to_string(),
        "no-token".to_string(),
        dec("100000"),
        seconds_remaining,
    )
}

fn add_book_levels(
    book: &mut OrderBook,
    bid_price: Decimal,
    bid_size: Decimal,
    ask_price: Decimal,
    ask_size: Decimal,
) {
    book.apply_snapshot(
        vec![PriceLevel::new(bid_price, bid_size)],
        vec![PriceLevel::new(ask_price, ask_size)],
        0,
    );
}

// =========================================================================
// MakerSkipReason Tests
// =========================================================================

#[test]
fn maker_test_skip_reason_display() {
    assert_eq!(MakerSkipReason::BookNotReady.to_string(), "book not ready");
    assert_eq!(MakerSkipReason::SpreadTooWide.to_string(), "spread too wide for rewards");
    assert_eq!(MakerSkipReason::SpreadTooNarrow.to_string(), "spread too narrow");
    assert_eq!(MakerSkipReason::NoRewardsConfig.to_string(), "no rewards config");
    assert_eq!(MakerSkipReason::RewardsNotActive.to_string(), "rewards not active");
    assert_eq!(MakerSkipReason::InsufficientTime.to_string(), "insufficient time");
    assert_eq!(MakerSkipReason::BelowMinSize.to_string(), "below min size for rewards");
    assert_eq!(MakerSkipReason::ExtremeImbalance.to_string(), "extreme book imbalance");
}

// =========================================================================
// MakerOpportunity Tests
// =========================================================================

#[test]
fn test_opportunity_is_buy_sell() {
    let buy_opp = MakerOpportunity {
        event_id: "test".to_string(),
        token_id: "token".to_string(),
        side: Side::Buy,
        price: dec("0.45"),
        size: dec("50"),
        expected_rebate: dec("0.01"),
        spread_bps: 100,
        qualifies_for_rewards: true,
        minutes_remaining: dec("5"),
        best_bid: dec("0.44"),
        best_ask: dec("0.46"),
        detected_at_ms: 0,
    };

    assert!(buy_opp.is_buy());
    assert!(!buy_opp.is_sell());

    let sell_opp = MakerOpportunity {
        side: Side::Sell,
        ..buy_opp.clone()
    };

    assert!(!sell_opp.is_buy());
    assert!(sell_opp.is_sell());
}

#[test]
fn test_opportunity_spread_ratio() {
    let opp = MakerOpportunity {
        event_id: "test".to_string(),
        token_id: "token".to_string(),
        side: Side::Buy,
        price: dec("0.45"),
        size: dec("50"),
        expected_rebate: dec("0"),
        spread_bps: 444, // ~4.4% spread
        qualifies_for_rewards: false,
        minutes_remaining: dec("5"),
        best_bid: dec("0.44"),
        best_ask: dec("0.46"),
        detected_at_ms: 0,
    };

    // spread = 0.02, mid = 0.45
    // ratio = 0.02 / 0.45 = 0.0444...
    let ratio = opp.spread_ratio();
    assert!(ratio > dec("0.044") && ratio < dec("0.045"));
}

// =========================================================================
// MakerConfig Tests
// =========================================================================

#[test]
fn maker_test_config_default() {
    let config = MakerConfig::default();
    assert_eq!(config.min_seconds_remaining, 120);
    assert_eq!(config.min_spread_bps, 50);
    assert_eq!(config.max_spread_bps, 1000);
    assert_eq!(config.default_order_size, dec("50"));
    assert_eq!(config.max_imbalance_ratio, dec("0.80"));
    assert_eq!(config.estimated_pool_share, dec("0.001"));
}

// =========================================================================
// MakerDetector Tests
// =========================================================================

#[test]
fn maker_test_detector_creation() {
    let detector = MakerDetector::new();
    assert_eq!(detector.config.min_seconds_remaining, 120);

    let custom_config = MakerConfig {
        min_seconds_remaining: 300,
        ..Default::default()
    };
    let detector2 = MakerDetector::with_config(custom_config);
    assert_eq!(detector2.config.min_seconds_remaining, 300);
}

#[test]
fn maker_test_detector_default() {
    let detector = MakerDetector::default();
    assert_eq!(detector.config.min_seconds_remaining, 120);
}

#[test]
fn test_detect_for_book_no_bbo() {
    let detector = MakerDetector::new();
    let book = OrderBook::new("test".to_string());

    let result = detector.detect_for_book(
        "event",
        &book,
        None,
        dec("50"),
        dec("5"),
        0,
    );
    assert_eq!(result.unwrap_err(), MakerSkipReason::BookNotReady);
}

#[test]
fn test_detect_for_book_spread_too_narrow() {
    let detector = MakerDetector::new();
    let mut book = OrderBook::new("test".to_string());
    // Very tight spread
    add_book_levels(&mut book, dec("0.4995"), dec("100"), dec("0.5005"), dec("100"));

    let result = detector.detect_for_book(
        "event",
        &book,
        None,
        dec("50"),
        dec("5"),
        0,
    );
    // Spread = 0.001, mid = 0.50, spread_bps = 20
    // 20 < 50 (min_spread_bps) -> SpreadTooNarrow
    assert_eq!(result.unwrap_err(), MakerSkipReason::SpreadTooNarrow);
}

#[test]
fn test_detect_for_book_spread_too_wide() {
    let detector = MakerDetector::new();
    let mut book = OrderBook::new("test".to_string());
    // Very wide spread: 0.30 bid, 0.70 ask = ~57% spread
    add_book_levels(&mut book, dec("0.30"), dec("100"), dec("0.70"), dec("100"));

    let result = detector.detect_for_book(
        "event",
        &book,
        None,
        dec("50"),
        dec("5"),
        0,
    );
    // Spread = 0.40, mid = 0.50, spread_bps = 8000
    // 8000 > 1000 (max_spread_bps) -> SpreadTooWide
    assert_eq!(result.unwrap_err(), MakerSkipReason::SpreadTooWide);
}

#[test]
fn test_detect_for_book_rewards_not_active() {
    let detector = MakerDetector::new();
    let mut book = OrderBook::new("test".to_string());
    // Use a spread that is within our config limits but would pass all other checks
    // We need spread 50-1000 bps, and rewards max_spread >= spread for this to reach rewards check
    add_book_levels(&mut book, dec("0.485"), dec("100"), dec("0.50"), dec("100"));
    // spread = 0.015, mid = 0.4925, spread_bps = ~305

    // Set inactive rewards with high max_spread so we don't fail on spread check
    let inactive_rewards = RewardsConfig::new(dec("10"), 500, dec("100"), false);

    let result = detector.detect_for_book(
        "event",
        &book,
        Some(&inactive_rewards),
        dec("50"),
        dec("5"),
        0,
    );
    assert_eq!(result.unwrap_err(), MakerSkipReason::RewardsNotActive);
}

#[test]
fn test_detect_for_book_spread_exceeds_rewards_max() {
    let detector = MakerDetector::new();
    let mut book = OrderBook::new("test".to_string());
    // Spread: ~10% = 1000 bps
    add_book_levels(&mut book, dec("0.45"), dec("100"), dec("0.55"), dec("100"));

    // Rewards max spread is 200 bps
    let rewards = RewardsConfig::new(dec("10"), 200, dec("100"), true);

    let result = detector.detect_for_book(
        "event",
        &book,
        Some(&rewards),
        dec("50"),
        dec("5"),
        0,
    );
    // Spread = 0.10, mid = 0.50, spread_bps = 2000
    // 2000 > 200 (rewards max) -> SpreadTooWide
    assert_eq!(result.unwrap_err(), MakerSkipReason::SpreadTooWide);
}

#[test]
fn test_detect_for_book_extreme_imbalance() {
    let config = MakerConfig {
        max_imbalance_ratio: dec("0.50"), // Stricter threshold for test
        ..Default::default()
    };
    let detector = MakerDetector::with_config(config);

    let mut book = OrderBook::new("test".to_string());
    // Extreme imbalance: 1000 bids vs 50 asks
    add_book_levels(&mut book, dec("0.47"), dec("1000"), dec("0.50"), dec("50"));

    let result = detector.detect_for_book(
        "event",
        &book,
        None,
        dec("50"),
        dec("5"),
        0,
    );
    // Imbalance = (1000 - 50) / 1050 = 0.905
    // 0.905 > 0.50 -> ExtremeImbalance
    assert_eq!(result.unwrap_err(), MakerSkipReason::ExtremeImbalance);
}

#[test]
fn test_detect_for_book_success_no_rewards() {
    let detector = MakerDetector::new();
    let mut book = OrderBook::new("test".to_string());
    // Good spread: ~5.3% = 530 bps
    add_book_levels(&mut book, dec("0.47"), dec("100"), dec("0.50"), dec("100"));

    let result = detector.detect_for_book(
        "event",
        &book,
        None,
        dec("50"),
        dec("5"),
        0,
    );

    assert!(result.is_ok());
    let opp = result.unwrap();
    assert_eq!(opp.event_id, "event");
    assert_eq!(opp.token_id, "test");
    assert_eq!(opp.size, dec("50"));
    assert!(!opp.qualifies_for_rewards);
    assert_eq!(opp.expected_rebate, Decimal::zero());
    assert_eq!(opp.best_bid, dec("0.47"));
    assert_eq!(opp.best_ask, dec("0.50"));
}

#[test]
fn test_detect_for_book_success_with_rewards() {
    let detector = MakerDetector::new();
    let mut book = OrderBook::new("test".to_string());
    // Good spread: ~3.1% = 310 bps (under 500 bps reward max)
    add_book_levels(&mut book, dec("0.485"), dec("100"), dec("0.50"), dec("100"));

    // Rewards config: min_size=10, max_spread=500, active=true
    let rewards = RewardsConfig::new(dec("10"), 500, dec("100"), true);

    let result = detector.detect_for_book(
        "event",
        &book,
        Some(&rewards),
        dec("50"),
        dec("5"),
        0,
    );

    assert!(result.is_ok());
    let opp = result.unwrap();
    assert!(opp.qualifies_for_rewards);
    assert!(opp.expected_rebate > Decimal::zero());
    assert_eq!(opp.size, dec("50")); // Max of requested and min_size
}

#[test]
fn test_detect_for_book_respects_min_size() {
    let detector = MakerDetector::new();
    let mut book = OrderBook::new("test".to_string());
    add_book_levels(&mut book, dec("0.485"), dec("100"), dec("0.50"), dec("100"));

    // Rewards config with high min_size
    let rewards = RewardsConfig::new(dec("100"), 500, dec("1000"), true);

    let result = detector.detect_for_book(
        "event",
        &book,
        Some(&rewards),
        dec("50"), // Request 50, but min is 100
        dec("5"),
        0,
    );

    assert!(result.is_ok());
    let opp = result.unwrap();
    assert_eq!(opp.size, dec("100")); // Should be bumped to min_size
}

#[test]
fn test_detect_for_book_side_selection() {
    let detector = MakerDetector::new();

    // Bid-heavy book -> should suggest Sell
    let mut bid_heavy = OrderBook::new("test".to_string());
    add_book_levels(&mut bid_heavy, dec("0.47"), dec("200"), dec("0.50"), dec("50"));

    let result = detector.detect_for_book(
        "event",
        &bid_heavy,
        None,
        dec("50"),
        dec("5"),
        0,
    );
    assert!(result.is_ok());
    assert_eq!(result.unwrap().side, Side::Sell);

    // Ask-heavy book -> should suggest Buy
    let mut ask_heavy = OrderBook::new("test".to_string());
    add_book_levels(&mut ask_heavy, dec("0.47"), dec("50"), dec("0.50"), dec("200"));

    let result = detector.detect_for_book(
        "event",
        &ask_heavy,
        None,
        dec("50"),
        dec("5"),
        0,
    );
    assert!(result.is_ok());
    assert_eq!(result.unwrap().side, Side::Buy);
}

// =========================================================================
// detect() Method Tests
// =========================================================================

#[test]
fn maker_test_detect_insufficient_time() {
    let detector = MakerDetector::new();
    let mut state = create_test_market_state(60); // Only 1 minute left
    add_book_levels(&mut state.yes_book, dec("0.47"), dec("100"), dec("0.50"), dec("100"));
    add_book_levels(&mut state.no_book, dec("0.47"), dec("100"), dec("0.50"), dec("100"));

    let opportunities = detector.detect(&state, None, None, 0);
    assert!(opportunities.is_empty()); // Need 2+ minutes
}

#[test]
fn test_detect_returns_multiple_opportunities() {
    let detector = MakerDetector::new();
    let mut state = create_test_market_state(300);
    add_book_levels(&mut state.yes_book, dec("0.47"), dec("100"), dec("0.50"), dec("100"));
    add_book_levels(&mut state.no_book, dec("0.47"), dec("100"), dec("0.50"), dec("100"));

    let opportunities = detector.detect(&state, None, None, 0);
    // Should get opportunities for both YES and NO books
    assert_eq!(opportunities.len(), 2);
}

#[test]
fn test_detect_uses_suggested_size() {
    let detector = MakerDetector::new();
    let mut state = create_test_market_state(300);
    add_book_levels(&mut state.yes_book, dec("0.47"), dec("100"), dec("0.50"), dec("100"));

    let opportunities = detector.detect(&state, None, Some(dec("100")), 0);
    assert!(!opportunities.is_empty());
    assert_eq!(opportunities[0].size, dec("100"));
}

// =========================================================================
// has_potential() Tests
// =========================================================================

#[test]
fn maker_test_has_potential_insufficient_time() {
    let detector = MakerDetector::new();
    let state = create_test_market_state(60); // Only 1 minute
    assert!(!detector.has_potential(&state));
}

#[test]
fn test_has_potential_no_books() {
    let detector = MakerDetector::new();
    let state = create_test_market_state(300);
    assert!(!detector.has_potential(&state));
}

#[test]
fn test_has_potential_spread_out_of_range() {
    let detector = MakerDetector::new();
    let mut state = create_test_market_state(300);
    // Very tight spread
    add_book_levels(&mut state.yes_book, dec("0.499"), dec("100"), dec("0.501"), dec("100"));
    assert!(!detector.has_potential(&state));
}

#[test]
fn maker_test_has_potential_valid() {
    let detector = MakerDetector::new();
    let mut state = create_test_market_state(300);
    add_book_levels(&mut state.yes_book, dec("0.47"), dec("100"), dec("0.50"), dec("100"));
    assert!(detector.has_potential(&state));
}

// =========================================================================
// min_order_size() Tests
// =========================================================================

#[test]
fn test_min_order_size_no_config() {
    let detector = MakerDetector::new();
    let size = detector.min_order_size(None);
    assert_eq!(size, dec("50")); // Default order size
}

#[test]
fn test_min_order_size_inactive_rewards() {
    let detector = MakerDetector::new();
    let inactive = RewardsConfig::new(dec("100"), 200, dec("1000"), false);
    let size = detector.min_order_size(Some(&inactive));
    assert_eq!(size, dec("50")); // Falls back to default
}

#[test]
fn test_min_order_size_active_rewards() {
    let detector = MakerDetector::new();
    let rewards = RewardsConfig::new(dec("25"), 200, dec("1000"), true);
    let size = detector.min_order_size(Some(&rewards));
    assert_eq!(size, dec("25")); // Uses rewards min_size
}

// =========================================================================
// calculate_imbalance() Tests
// =========================================================================

#[test]
fn maker_test_calculate_imbalance_equal() {
    let mut book = OrderBook::new("test".to_string());
    add_book_levels(&mut book, dec("0.45"), dec("100"), dec("0.50"), dec("100"));
    let imbalance = calculate_imbalance(&book);
    assert_eq!(imbalance, Decimal::zero());
}

#[test]
fn maker_test_calculate_imbalance_bid_heavy() {
    let mut book = OrderBook::new("test".to_string());
    add_book_levels(&mut book, dec("0.45"), dec("300"), dec("0.50"), dec("100"));
    let imbalance = calculate_imbalance(&book);
    // (300 - 100) / 400 = 0.5
    assert_eq!(imbalance, dec("0.5"));
}

#[test]
fn maker_test_calculate_imbalance_ask_heavy() {
    let mut book = OrderBook::new("test".to_string());
    add_book_levels(&mut book, dec("0.45"), dec("100"), dec("0.50"), dec("300"));
    let imbalance = calculate_imbalance(&book);
    // (100 - 300) / 400 = -0.5
    assert_eq!(imbalance, dec("-0.5"));
}

#[test]
fn test_calculate_imbalance_empty() {
    let book = OrderBook::new("test".to_string());
    let imbalance = calculate_imbalance(&book);
    assert_eq!(imbalance, Decimal::zero());
}

// =========================================================================
// calculate_maker_price() Tests
// =========================================================================

#[test]
fn test_calculate_maker_price_wide_spread() {
    let mut book = OrderBook::new("test".to_string());
    add_book_levels(&mut book, dec("0.40"), dec("100"), dec("0.50"), dec("100"));
    // spread = 0.10, mid = 0.45, spread_ratio = 22% > 3%

    // Buy: bid + spread * 0.40 = 0.40 + 0.10 * 0.40 = 0.44
    let buy_price = calculate_maker_price(&book, Side::Buy);
    assert_eq!(buy_price, Some(dec("0.44")));

    // Sell: ask - spread * 0.40 = 0.50 - 0.10 * 0.40 = 0.46
    let sell_price = calculate_maker_price(&book, Side::Sell);
    assert_eq!(sell_price, Some(dec("0.46")));
}

#[test]
fn test_calculate_maker_price_medium_spread() {
    let mut book = OrderBook::new("test".to_string());
    add_book_levels(&mut book, dec("0.49"), dec("100"), dec("0.51"), dec("100"));
    // spread = 0.02, mid = 0.50, spread_ratio = 4%; 0.493 and 0.507 give 2.8%
    book.bids.clear();
    book.asks.clear();
    add_book_levels(&mut book, dec("0.493"), dec("100"), dec("0.507"), dec("100"));
    // spread = 0.014, mid = 0.50, spread_ratio = 2.8% (between 1-3%)

    // Buy: bid + spread * 0.30 = 0.493 + 0.014 * 0.30 = 0.4972
    let buy_price = calculate_maker_price(&book, Side::Buy);
    assert_eq!(buy_price, Some(dec("0.50"))); // Rounded

    // Sell: ask - spread * 0.30 = 0.507 - 0.014 * 0.30 = 0.5028
    let sell_price = calculate_maker_price(&book, Side::Sell);
    assert_eq!(sell_price, Some(dec("0.50"))); // Rounded
}

#[test]
fn test_calculate_maker_price_tight_spread() {
    let mut book = OrderBook::new("test".to_string());
    add_book_levels(&mut book, dec("0.498"), dec("100"), dec("0.502"), dec("100"));
    // spread = 0.004, mid = 0.50, spread_ratio = 0.8% < 1%

    // Buy: bid + spread * 0 = bid = 0.498
    let buy_price = calculate_maker_price(&book, Side::Buy);
    assert_eq!(buy_price, Some(dec("0.50"))); // Rounded

    // Sell: ask - spread * 0 = ask = 0.502
    let sell_price = calculate_maker_price(&book, Side::Sell);
    assert_eq!(sell_price, Some(dec("0.50"))); // Rounded
}

#[test]
fn test_calculate_maker_price_no_bbo() {
    let book = OrderBook::new("test".to_string());
    assert!(calculate_maker_price(&book, Side::Buy).is_none());
    assert!(calculate_maker_price(&book, Side::Sell).is_none());
}
