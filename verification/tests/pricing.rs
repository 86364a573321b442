use poly_strategy::decimal::Decimal;
use poly_strategy::pricing::{
    MakerPriceResult, SpreadCategory, get_maker_price, get_maker_prices_both_sides, is_inside_spread,
    price_improvement_bps, would_cross_spread,
};
use poly_strategy::types::{OrderBook, PriceLevel, Side};

/// A decimal from its text.
fn dec(text: &str) -> Decimal {
    let d: rust_decimal::Decimal = text.parse().unwrap();
    Decimal::from_parts(d.mantissa(), d.scale()).unwrap()
}

fn create_book_with_bbo(bid: Decimal, ask: Decimal) -> OrderBook {
    let mut book = OrderBook::new("test".to_string());
    book.apply_snapshot(
        vec![PriceLevel::new(bid, dec("100"))],
        vec![PriceLevel::new(ask, dec("100"))],
        0,
    );
    book
}

// =========================================================================
// SpreadCategory Tests
// =========================================================================

#[test]
fn test_spread_category_placement_ratio() {
    assert_eq!(SpreadCategory::Wide.placement_ratio(), dec("0.40"));
    assert_eq!(SpreadCategory::Medium.placement_ratio(), dec("0.30"));
    assert_eq!(SpreadCategory::Tight.placement_ratio(), dec("0.0"));
}

#[test]
fn test_spread_category_description() {
    assert_eq!(SpreadCategory::Wide.description(), "wide (>3%)");
    assert_eq!(SpreadCategory::Medium.description(), "medium (1-3%)");
    assert_eq!(SpreadCategory::Tight.description(), "tight (<1%)");
}

#[test]
fn test_spread_category_display() {
    assert_eq!(SpreadCategory::Wide.to_string(), "wide (>3%)");
    assert_eq!(SpreadCategory::Medium.to_string(), "medium (1-3%)");
    assert_eq!(SpreadCategory::Tight.to_string(), "tight (<1%)");
}

// =========================================================================
// get_maker_price Tests - Wide Spread (>3%)
// =========================================================================

#[test]
fn test_wide_spread_buy() {
    // bid=0.40, ask=0.50
    // spread = 0.10, mid = 0.45, spread_ratio = 22.2% > 3%
    let book = create_book_with_bbo(dec("0.40"), dec("0.50"));
    let result = get_maker_price(&book, Side::Buy).unwrap();

    assert_eq!(result.spread_category, SpreadCategory::Wide);
    assert_eq!(result.placement_ratio, dec("0.40"));

    // price = bid + spread * 0.40 = 0.40 + 0.10 * 0.40 = 0.44
    assert_eq!(result.price, dec("0.44"));
}

#[test]
fn test_wide_spread_sell() {
    // bid=0.40, ask=0.50
    let book = create_book_with_bbo(dec("0.40"), dec("0.50"));
    let result = get_maker_price(&book, Side::Sell).unwrap();

    assert_eq!(result.spread_category, SpreadCategory::Wide);

    // price = ask - spread * 0.40 = 0.50 - 0.10 * 0.40 = 0.46
    assert_eq!(result.price, dec("0.46"));
}

#[test]
fn test_wide_spread_very_wide() {
    // bid=0.20, ask=0.80
    // spread = 0.60, mid = 0.50, spread_ratio = 120% >> 3%
    let book = create_book_with_bbo(dec("0.20"), dec("0.80"));
    let result = get_maker_price(&book, Side::Buy).unwrap();

    assert_eq!(result.spread_category, SpreadCategory::Wide);

    // price = bid + spread * 0.40 = 0.20 + 0.60 * 0.40 = 0.44
    assert_eq!(result.price, dec("0.44"));
}

// =========================================================================
// get_maker_price Tests - Medium Spread (1-3%)
// =========================================================================

#[test]
fn test_medium_spread_buy() {
    // Need spread ratio between 1-3%
    // bid=0.49, ask=0.51 => spread=0.02, mid=0.50, ratio=4% (too high)
    // bid=0.493, ask=0.507 => spread=0.014, mid=0.50, ratio=2.8% (in range)
    let book = create_book_with_bbo(dec("0.493"), dec("0.507"));
    let result = get_maker_price(&book, Side::Buy).unwrap();

    assert_eq!(result.spread_category, SpreadCategory::Medium);
    assert_eq!(result.placement_ratio, dec("0.30"));

    // price = bid + spread * 0.30 = 0.493 + 0.014 * 0.30 = 0.4972 -> 0.50 rounded
    assert_eq!(result.price, dec("0.50"));
}

#[test]
fn test_medium_spread_sell() {
    let book = create_book_with_bbo(dec("0.493"), dec("0.507"));
    let result = get_maker_price(&book, Side::Sell).unwrap();

    assert_eq!(result.spread_category, SpreadCategory::Medium);

    // price = ask - spread * 0.30 = 0.507 - 0.014 * 0.30 = 0.5028 -> 0.50 rounded
    assert_eq!(result.price, dec("0.50"));
}

#[test]
fn test_medium_spread_boundary_high() {
    // bid=0.497, ask=0.503 => spread=0.006, mid=0.50, ratio=1.2%
    let book = create_book_with_bbo(dec("0.497"), dec("0.503"));
    let result = get_maker_price(&book, Side::Buy).unwrap();

    assert_eq!(result.spread_category, SpreadCategory::Medium);
}

// =========================================================================
// get_maker_price Tests - Tight Spread (<1%)
// =========================================================================

#[test]
fn test_tight_spread_buy() {
    // bid=0.498, ask=0.502
    // spread = 0.004, mid = 0.50, ratio = 0.8% < 1%
    let book = create_book_with_bbo(dec("0.498"), dec("0.502"));
    let result = get_maker_price(&book, Side::Buy).unwrap();

    assert_eq!(result.spread_category, SpreadCategory::Tight);
    assert_eq!(result.placement_ratio, dec("0.0"));

    // price = bid + spread * 0 = bid = 0.498 -> 0.50 rounded
    assert_eq!(result.price, dec("0.50"));
}

#[test]
fn test_tight_spread_sell() {
    let book = create_book_with_bbo(dec("0.498"), dec("0.502"));
    let result = get_maker_price(&book, Side::Sell).unwrap();

    assert_eq!(result.spread_category, SpreadCategory::Tight);

    // price = ask - spread * 0 = ask = 0.502 -> 0.50 rounded
    assert_eq!(result.price, dec("0.50"));
}

#[test]
fn test_tight_spread_very_tight() {
    // bid=0.4995, ask=0.5005
    // spread = 0.001, mid = 0.50, ratio = 0.2% < 1%
    let book = create_book_with_bbo(dec("0.4995"), dec("0.5005"));
    let result = get_maker_price(&book, Side::Buy).unwrap();

    assert_eq!(result.spread_category, SpreadCategory::Tight);
    // price = 0.4995 -> 0.50 rounded
    assert_eq!(result.price, dec("0.50"));
}

// =========================================================================
// get_maker_price Tests - Edge Cases
// =========================================================================

#[test]
fn test_empty_book_returns_none() {
    let book = OrderBook::new("test".to_string());
    assert!(get_maker_price(&book, Side::Buy).is_none());
    assert!(get_maker_price(&book, Side::Sell).is_none());
}

#[test]
fn test_no_bid_returns_none() {
    let mut book = OrderBook::new("test".to_string());
    book.asks.push(PriceLevel::new(dec("0.50"), dec("100")));
    assert!(get_maker_price(&book, Side::Buy).is_none());
}

#[test]
fn test_no_ask_returns_none() {
    let mut book = OrderBook::new("test".to_string());
    book.bids.push(PriceLevel::new(dec("0.45"), dec("100")));
    assert!(get_maker_price(&book, Side::Buy).is_none());
}

#[test]
fn test_spread_bps_calculation() {
    // bid=0.40, ask=0.50, spread=0.10, mid=0.45
    // spread_bps = (0.10 / 0.45) * 10000 = 2222
    let book = create_book_with_bbo(dec("0.40"), dec("0.50"));
    let result = get_maker_price(&book, Side::Buy).unwrap();

    assert_eq!(result.spread_bps, 2222);
}

#[test]
fn test_rounding_to_cents() {
    // bid=0.412, ask=0.588
    // spread = 0.176, mid = 0.50, ratio = 35.2% > 3%
    // Buy: 0.412 + 0.176 * 0.40 = 0.412 + 0.0704 = 0.4824 -> 0.48
    let book = create_book_with_bbo(dec("0.412"), dec("0.588"));
    let result = get_maker_price(&book, Side::Buy).unwrap();

    assert_eq!(result.price, dec("0.48"));

    // Sell: 0.588 - 0.176 * 0.40 = 0.588 - 0.0704 = 0.5176 -> 0.52
    let sell_result = get_maker_price(&book, Side::Sell).unwrap();
    assert_eq!(sell_result.price, dec("0.52"));
}

// =========================================================================
// get_maker_prices_both_sides Tests
// =========================================================================

#[test]
fn test_both_sides() {
    let book = create_book_with_bbo(dec("0.40"), dec("0.50"));
    let (buy, sell) = get_maker_prices_both_sides(&book).unwrap();

    assert_eq!(buy.price, dec("0.44"));
    assert_eq!(sell.price, dec("0.46"));
    assert_eq!(buy.spread_category, sell.spread_category);
}

#[test]
fn test_both_sides_empty_book() {
    let book = OrderBook::new("test".to_string());
    assert!(get_maker_prices_both_sides(&book).is_none());
}

// =========================================================================
// is_inside_spread Tests
// =========================================================================

#[test]
fn test_is_inside_spread_true() {
    let book = create_book_with_bbo(dec("0.40"), dec("0.50"));
    assert!(is_inside_spread(&book, dec("0.45")));
    assert!(is_inside_spread(&book, dec("0.41")));
    assert!(is_inside_spread(&book, dec("0.49")));
}

#[test]
fn test_is_inside_spread_false_at_edges() {
    let book = create_book_with_bbo(dec("0.40"), dec("0.50"));
    assert!(!is_inside_spread(&book, dec("0.40"))); // At bid
    assert!(!is_inside_spread(&book, dec("0.50"))); // At ask
    assert!(!is_inside_spread(&book, dec("0.39"))); // Below bid
    assert!(!is_inside_spread(&book, dec("0.51"))); // Above ask
}

#[test]
fn test_is_inside_spread_empty_book() {
    let book = OrderBook::new("test".to_string());
    assert!(!is_inside_spread(&book, dec("0.45")));
}

// =========================================================================
// would_cross_spread Tests
// =========================================================================

#[test]
fn test_would_cross_spread_buy() {
    let book = create_book_with_bbo(dec("0.40"), dec("0.50"));

    // Buy at or above ask crosses
    assert!(would_cross_spread(&book, Side::Buy, dec("0.50")));
    assert!(would_cross_spread(&book, Side::Buy, dec("0.55")));

    // Buy below ask doesn't cross
    assert!(!would_cross_spread(&book, Side::Buy, dec("0.49")));
    assert!(!would_cross_spread(&book, Side::Buy, dec("0.45")));
}

#[test]
fn test_would_cross_spread_sell() {
    let book = create_book_with_bbo(dec("0.40"), dec("0.50"));

    // Sell at or below bid crosses
    assert!(would_cross_spread(&book, Side::Sell, dec("0.40")));
    assert!(would_cross_spread(&book, Side::Sell, dec("0.35")));

    // Sell above bid doesn't cross
    assert!(!would_cross_spread(&book, Side::Sell, dec("0.41")));
    assert!(!would_cross_spread(&book, Side::Sell, dec("0.45")));
}

#[test]
fn test_would_cross_spread_empty_book() {
    let book = OrderBook::new("test".to_string());
    assert!(!would_cross_spread(&book, Side::Buy, dec("0.50")));
    assert!(!would_cross_spread(&book, Side::Sell, dec("0.40")));
}

// =========================================================================
// price_improvement_bps Tests
// =========================================================================

#[test]
fn test_price_improvement_buy() {
    // bid=0.40, ask=0.50, mid=0.45
    // Buy at 0.44 improves 0.04 from bid
    // improvement_bps = (0.04 / 0.45) * 10000 = 888
    let book = create_book_with_bbo(dec("0.40"), dec("0.50"));
    let improvement = price_improvement_bps(&book, Side::Buy, dec("0.44")).unwrap();

    assert_eq!(improvement, 888);
}

#[test]
fn test_price_improvement_sell() {
    // bid=0.40, ask=0.50, mid=0.45
    // Sell at 0.46 improves 0.04 from ask
    // improvement_bps = (0.04 / 0.45) * 10000 = 888
    let book = create_book_with_bbo(dec("0.40"), dec("0.50"));
    let improvement = price_improvement_bps(&book, Side::Sell, dec("0.46")).unwrap();

    assert_eq!(improvement, 888);
}

#[test]
fn test_price_improvement_zero() {
    let book = create_book_with_bbo(dec("0.40"), dec("0.50"));

    // No improvement when at reference price
    let buy_at_bid = price_improvement_bps(&book, Side::Buy, dec("0.40")).unwrap();
    assert_eq!(buy_at_bid, 0);

    let sell_at_ask = price_improvement_bps(&book, Side::Sell, dec("0.50")).unwrap();
    assert_eq!(sell_at_ask, 0);
}

#[test]
fn test_price_improvement_empty_book() {
    let book = OrderBook::new("test".to_string());
    assert!(price_improvement_bps(&book, Side::Buy, dec("0.45")).is_none());
    assert!(price_improvement_bps(&book, Side::Sell, dec("0.45")).is_none());
}

// =========================================================================
// MakerPriceResult Tests
// =========================================================================

#[test]
fn test_maker_price_result_equality() {
    let result1 = MakerPriceResult {
        price: dec("0.44"),
        spread_category: SpreadCategory::Wide,
        placement_ratio: dec("0.40"),
        spread_bps: 2222,
    };

    let result2 = MakerPriceResult {
        price: dec("0.44"),
        spread_category: SpreadCategory::Wide,
        placement_ratio: dec("0.40"),
        spread_bps: 2222,
    };

    assert_eq!(result1, result2);

    let result3 = MakerPriceResult {
        price: dec("0.45"),
        ..result1
    };

    assert_ne!(result1, result3);
}

#[test]
fn test_maker_price_result_clone() {
    let result = MakerPriceResult {
        price: dec("0.44"),
        spread_category: SpreadCategory::Wide,
        placement_ratio: dec("0.40"),
        spread_bps: 2222,
    };

    let cloned = result;
    assert_eq!(result.price, cloned.price);
    assert_eq!(result.spread_category, cloned.spread_category);
}
