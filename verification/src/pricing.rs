//! Prices for maker orders inside the spread.
//!
//! The wider the spread, the further inside it an order is placed, in whole cents, but never where
//! it would take liquidity:
//!
//! - above 3% of the mid price: 40% of the spread away from the own side
//! - from 1% to 3%: 30%
//! - otherwise: at the own side's best price

use vstd::prelude::*;
use crate::decimal::{
    Decimal, coefficient_limit, difference, divided, half_even, lemma_exact, lemma_product_shrinks,
    lemma_rounded_monotone, lemma_to_places_near, lemma_unrounded, lit, magnitude, num, pow10,
    product, representable, sum, to_places, units, whole_u32,
};
use crate::types::{OrderBook, Side};

verus! {

/// A maker price and how it came about.
#[derive(Clone, Copy, Debug, PartialEq, Eq)]
pub struct MakerPriceResult {
    pub price: Decimal,
    /// Width of the spread.
    pub spread_category: SpreadCategory,
    /// Share of the spread by which the price lies inside it.
    pub placement_ratio: Decimal,
    /// Spread over mid price in basis points.
    pub spread_bps: u32,
}

/// Width of a spread.
#[derive(Clone, Copy, Debug, PartialEq, Eq, Structural)]
pub enum SpreadCategory {
    /// Above 3% of the mid price.
    Wide,
    /// From 1% to 3% of the mid price.
    Medium,
    /// Below 1% of the mid price.
    Tight,
}

impl SpreadCategory {
    /// Share of the spread by which an order is placed inside it.
    pub open spec fn spec_placement_ratio(self) -> int {
        match self {
            SpreadCategory::Wide => units(40, 2),
            SpreadCategory::Medium => units(30, 2),
            SpreadCategory::Tight => 0,
        }
    }

    /// Share of the spread by which an order is placed inside it.
    pub fn placement_ratio(&self) -> (r: Decimal)
        ensures
            r@ == self.spec_placement_ratio(),
    {
        match self {
            SpreadCategory::Wide => Decimal::new(40, 2),
            SpreadCategory::Medium => Decimal::new(30, 2),
            SpreadCategory::Tight => Decimal::zero(),
        }
    }

    /// Description of the width.
    pub open spec fn spec_description(self) -> Seq<char> {
        match self {
            SpreadCategory::Wide => "wide (>3%)"@,
            SpreadCategory::Medium => "medium (1-3%)"@,
            SpreadCategory::Tight => "tight (<1%)"@,
        }
    }

    /// Description of the width.
    pub fn description(&self) -> (r: &'static str)
        ensures
            r@ == self.spec_description(),
    {
        match self {
            SpreadCategory::Wide => "wide (>3%)",
            SpreadCategory::Medium => "medium (1-3%)",
            SpreadCategory::Tight => "tight (<1%)",
        }
    }

    /// Description of the width.
    pub fn to_string(&self) -> (r: String)
        ensures
            r@ == self.spec_description(),
    {
        self.description().to_owned()
    }
}

/// Width of a spread that is `ratio` of the mid price.
pub open spec fn category_of(ratio: int) -> SpreadCategory {
    if ratio > units(3, 2) {
        SpreadCategory::Wide
    } else if ratio >= units(1, 2) {
        SpreadCategory::Medium
    } else {
        SpreadCategory::Tight
    }
}

/// Best ask less best bid.
pub open spec fn spread_of(book: OrderBook) -> Option<int> {
    difference(num(book.ask()->0), num(book.bid()->0))
}

/// Spread over mid price.
pub open spec fn spread_ratio_of(book: OrderBook) -> Option<int> {
    divided(spread_of(book), book.mid())
}

/// Whether the quotes of a book are positive and do not cross.
pub open spec fn quotes_sound(book: OrderBook) -> bool {
    &&& book.has_quotes()
    &&& book.bid()->0@ > 0
    &&& book.ask()->0@ > 0
    &&& spread_of(book)->0 >= 0
}

/// Whether a maker price can be given for the book.
pub open spec fn priceable(book: OrderBook) -> bool {
    quotes_sound(book) && book.mid()->0 > 0
}

/// The maker price before it is rounded to cents.
pub open spec fn raw_maker_price(book: OrderBook, side: Side) -> Option<int> {
    let inside = product(
        spread_of(book),
        Some(category_of(spread_ratio_of(book)->0).spec_placement_ratio()),
    );
    match side {
        Side::Buy => sum(num(book.bid()->0), inside),
        Side::Sell => difference(num(book.ask()->0), inside),
    }
}

/// The whole cents right below a price.
pub open spec fn cents_below(v: int) -> Option<int> {
    if to_places(v, 2) < v {
        Some(to_places(v, 2))
    } else {
        difference(Some(to_places(v, 2)), lit(1, 2))
    }
}

/// The whole cents right above a price.
pub open spec fn cents_above(v: int) -> Option<int> {
    if to_places(v, 2) > v {
        Some(to_places(v, 2))
    } else {
        sum(Some(to_places(v, 2)), lit(1, 2))
    }
}

/// Whether an order at a price would take liquidity.
pub open spec fn crosses(book: OrderBook, side: Side, price: int) -> bool {
    match side {
        Side::Buy => book.ask() is Some && price >= book.ask()->0@,
        Side::Sell => book.bid() is Some && price <= book.bid()->0@,
    }
}

/// The maker price in whole cents: the nearest, or the nearest that takes no liquidity.
pub open spec fn maker_price_of(book: OrderBook, side: Side) -> Option<int> {
    let near = to_places(raw_maker_price(book, side)->0, 2);
    if !crosses(book, side, near) {
        Some(near)
    } else {
        match side {
            Side::Buy => cents_below(book.ask()->0@),
            Side::Sell => cents_above(book.bid()->0@),
        }
    }
}

/// Whether prices near that of the other side can be written in cents.
pub open spec fn counts_in_cents(book: OrderBook, side: Side) -> bool {
    match side {
        Side::Buy => book.ask()->0@ <= units(coefficient_limit() - 2, 2),
        Side::Sell => book.bid()->0@ <= units(coefficient_limit() - 2, 2),
    }
}

/// The cents next to a price are strictly on one side of it, and at most one cent away.
proof fn lemma_cents_beside(v: int)
    requires
        0 <= v <= units(coefficient_limit() - 2, 2),
    ensures
        cents_below(v) is Some && v - units(1, 2) <= cents_below(v)->0 < v,
        cents_above(v) is Some && v < cents_above(v)->0 <= v + units(1, 2),
{
    let cent = pow10(26);
    let near = to_places(v, 2);
    let h = half_even(v, cent);
    lemma_to_places_near(v, 2);
    assert(near == h * cent);
    assert(-1 <= h <= coefficient_limit() - 2) by (nonlinear_arith)
        requires
            0 <= v <= (coefficient_limit() - 2) * cent,
            2 * v - cent <= 2 * (h * cent) <= 2 * v + cent,
            cent > 0,
    ;
    if h == -1 {
        assert(h * cent == -cent);
    }
    assert((h - 1) * cent == near - cent && (h + 1) * cent == near + cent) by (nonlinear_arith)
        requires
            near == h * cent,
    ;
    assert(1 * cent == cent);
    lemma_exact(near - cent, 1, h - 1, 26);
    lemma_exact(near + cent, 1, h + 1, 26);
}

/// Whether the arithmetic of a maker price stays within range.
pub open spec fn maker_price_fits(book: OrderBook, side: Side) -> bool {
    book.has_quotes() ==> {
        &&& spread_of(book) is Some
        &&& quotes_sound(book) ==> book.mid() is Some
        &&& priceable(book) ==> {
            &&& product(spread_ratio_of(book), lit(10000, 0)) is Some
            &&& raw_maker_price(book, side) is Some
            &&& maker_price_of(book, side) is Some
        }
    }
}

/// Whether `m` is the maker price for one side of the book.
pub open spec fn is_maker_price(book: OrderBook, side: Side, m: MakerPriceResult) -> bool {
    &&& Some(m.price@) == maker_price_of(book, side)
    &&& m.spread_category == category_of(spread_ratio_of(book)->0)
    &&& m.placement_ratio@ == m.spread_category.spec_placement_ratio()
    &&& m.spread_bps == match whole_u32(product(spread_ratio_of(book), lit(10000, 0))->0) {
        Some(bps) => bps,
        None => u32::MAX,
    }
}

/// Maker price for one side of the book, at which no liquidity is taken; nothing unless both sides
/// have sound quotes. Prices that are too large to be written in cents may still cross.
pub fn get_maker_price(book: &OrderBook, side: Side) -> (r: Option<MakerPriceResult>)
    requires
        maker_price_fits(*book, side),
    ensures
        match r {
            Some(m) => {
                &&& priceable(*book)
                &&& is_maker_price(*book, side, m)
                &&& counts_in_cents(*book, side) ==> !crosses(*book, side, m.price@)
            },
            None => !priceable(*book),
        },
{
    let (bid, ask) = match (book.best_bid(), book.best_ask()) {
        (Some(bid), Some(ask)) => (bid, ask),
        _ => {
            return None;
        },
    };
    let spread = ask.minus(bid);
    if bid <= Decimal::zero() || ask <= Decimal::zero() || spread < Decimal::zero() {
        return None;
    }
    let mid = bid.plus(ask).over(Decimal::new(2, 0));
    if mid <= Decimal::zero() {
        return None;
    }
    let spread_ratio = spread.over(mid);
    let category = if spread_ratio > Decimal::new(3, 2) {
        SpreadCategory::Wide
    } else if spread_ratio >= Decimal::new(1, 2) {
        SpreadCategory::Medium
    } else {
        SpreadCategory::Tight
    };
    let placement_ratio = category.placement_ratio();
    let spread_bps: u32 = match spread_ratio.times(Decimal::new(10000, 0)).to_u32() {
        Some(bps) => bps,
        None => u32::MAX,
    };
    let inside = spread.times(placement_ratio);
    let raw_price = match side {
        Side::Buy => bid.plus(inside),
        Side::Sell => ask.minus(inside),
    };
    let near = raw_price.round_dp(2);
    let price = if !would_cross_spread(book, side, near) {
        near
    } else {
        match side {
            Side::Buy => {
                let cents = ask.round_dp(2);
                if cents < ask {
                    cents
                } else {
                    cents.minus(Decimal::new(1, 2))
                }
            },
            Side::Sell => {
                let cents = bid.round_dp(2);
                if cents > bid {
                    cents
                } else {
                    cents.plus(Decimal::new(1, 2))
                }
            },
        }
    };
    proof {
        if counts_in_cents(*book, side) {
            match side {
                Side::Buy => lemma_cents_beside(ask@),
                Side::Sell => lemma_cents_beside(bid@),
            }
        }
    }
    Some(
        MakerPriceResult {
            price,
            spread_category: category,
            placement_ratio,
            spread_bps,
        },
    )
}

/// Maker prices for a buy and a sell order.
pub fn get_maker_prices_both_sides(book: &OrderBook) -> (r: Option<
    (MakerPriceResult, MakerPriceResult),
>)
    requires
        maker_price_fits(*book, Side::Buy),
        maker_price_fits(*book, Side::Sell),
    ensures
        match r {
            Some((buy, sell)) => {
                &&& priceable(*book)
                &&& is_maker_price(*book, Side::Buy, buy)
                &&& is_maker_price(*book, Side::Sell, sell)
                &&& counts_in_cents(*book, Side::Buy) ==> !crosses(*book, Side::Buy, buy.price@)
                &&& counts_in_cents(*book, Side::Sell) ==> !crosses(*book, Side::Sell, sell.price@)
            },
            None => !priceable(*book),
        },
{
    match (get_maker_price(book, Side::Buy), get_maker_price(book, Side::Sell)) {
        (Some(buy), Some(sell)) => Some((buy, sell)),
        _ => None,
    }
}

/// Whether a price lies strictly between best bid and best ask.
pub fn is_inside_spread(book: &OrderBook, price: Decimal) -> (r: bool)
    ensures
        r == (book.has_quotes() && book.bid()->0@ < price@ && price@ < book.ask()->0@),
{
    match (book.best_bid(), book.best_ask()) {
        (Some(bid), Some(ask)) => price > bid && price < ask,
        _ => false,
    }
}

/// Whether an order at this price would take liquidity.
pub fn would_cross_spread(book: &OrderBook, side: Side, price: Decimal) -> (r: bool)
    ensures
        r == crosses(*book, side, price@),
{
    match side {
        Side::Buy => match book.best_ask() {
            Some(ask) => price >= ask,
            None => false,
        },
        Side::Sell => match book.best_bid() {
            Some(bid) => price <= bid,
            None => false,
        },
    }
}

/// How much better a price is than the own side's best price, over mid price in basis points.
pub open spec fn improvement_of(book: OrderBook, side: Side, price: Decimal) -> Option<int> {
    product(
        divided(
            match side {
                Side::Buy => difference(num(price), num(book.bid()->0)),
                Side::Sell => difference(num(book.ask()->0), num(price)),
            },
            book.mid(),
        ),
        lit(10000, 0),
    )
}

/// Distance of a maker price from the own side's best price in whole basis points of the mid
/// price; nothing without quotes on both sides or with a mid price that is not positive.
pub fn price_improvement_bps(book: &OrderBook, side: Side, price: Decimal) -> (r: Option<u32>)
    requires
        book.has_quotes() ==> book.mid() is Some && (book.mid()->0 > 0 ==> improvement_of(
            *book,
            side,
            price,
        ) is Some),
    ensures
        r is Some <==> book.has_quotes() && book.mid()->0 > 0,
        r is Some ==> r->0 == match whole_u32(
            magnitude(improvement_of(*book, side, price))->0,
        ) {
            Some(bps) => bps,
            None => 0,
        },
{
    let (bid, ask) = match (book.best_bid(), book.best_ask()) {
        (Some(bid), Some(ask)) => (bid, ask),
        _ => {
            return None;
        },
    };
    let mid = bid.plus(ask).over(Decimal::new(2, 0));
    if mid <= Decimal::zero() {
        return None;
    }
    let improvement = match side {
        Side::Buy => price.minus(bid),
        Side::Sell => ask.minus(price),
    };
    match improvement.over(mid).times(Decimal::new(10000, 0)).abs().to_u32() {
        Some(bps) => Some(bps),
        None => Some(0),
    }
}

/// A price strictly inside the spread never takes liquidity, on either side.
pub proof fn law_inside_is_maker(book: OrderBook, price: Decimal)
    requires
        book.has_quotes(),
        book.bid()->0@ < price@ && price@ < book.ask()->0@,
    ensures
        !crosses(book, Side::Buy, price@),
        !crosses(book, Side::Sell, price@),
{
}

/// A maker price takes no liquidity, and before it is rounded to cents it lies between the quotes;
/// rounding moves it at most one cent beyond the own side's best price. The quotes of a book are
/// decimals, and so is their difference for prices up to one dollar.
pub proof fn law_price_stays_in_spread(book: OrderBook, side: Side, m: MakerPriceResult)
    requires
        priceable(book),
        maker_price_fits(book, side),
        is_maker_price(book, side, m),
        representable(book.bid()->0@),
        representable(book.ask()->0@),
        representable(book.ask()->0@ - book.bid()->0@),
    ensures
        book.bid()->0@ <= raw_maker_price(book, side)->0 <= book.ask()->0@,
        counts_in_cents(book, side) ==> match side {
            Side::Buy => book.bid()->0@ - units(1, 2) <= m.price@ < book.ask()->0@,
            Side::Sell => book.bid()->0@ < m.price@ <= book.ask()->0@ + units(1, 2),
        },
{
    let bid = book.bid()->0@;
    let ask = book.ask()->0@;
    let ratio = category_of(spread_ratio_of(book)->0).spec_placement_ratio();
    lemma_unrounded(ask - bid);
    lemma_product_shrinks(ask - bid, ratio);
    let inside = product(spread_of(book), Some(ratio))->0;
    lemma_unrounded(bid);
    lemma_unrounded(ask);
    match side {
        Side::Buy => {
            lemma_rounded_monotone(bid, 1, bid + inside, 1);
            lemma_rounded_monotone(bid + inside, 1, ask, 1);
        },
        Side::Sell => {
            lemma_rounded_monotone(bid, 1, ask - inside, 1);
            lemma_rounded_monotone(ask - inside, 1, ask, 1);
        },
    }
    lemma_to_places_near(raw_maker_price(book, side)->0, 2);
    if counts_in_cents(book, side) {
        match side {
            Side::Buy => lemma_cents_beside(ask),
            Side::Sell => lemma_cents_beside(bid),
        }
    }
}

/// An order is placed inside the spread by two fifths of it where it is wide, by three tenths where
/// it is medium, and not at all where it is tight: a buy above the bid, a sale as far below the ask.
pub proof fn law_orders_go_inside_the_spread(book: OrderBook, by: int)
    requires
        book.has_quotes(),
        ({
            let spread = book.asks@[0].price@ - book.bids@[0].price@;
            &&& spread_ratio_of(book)->0 > units(3, 2) ==> 10 * by == 4 * spread
            &&& units(1, 2) <= spread_ratio_of(book)->0 <= units(3, 2) ==> 10 * by == 3 * spread
            &&& spread_ratio_of(book)->0 < units(1, 2) ==> by == 0
            &&& representable(spread)
            &&& representable(by)
            &&& representable(book.bids@[0].price@ + by)
            &&& representable(book.asks@[0].price@ - by)
        }),
    ensures
        raw_maker_price(book, Side::Buy) == Some(book.bids@[0].price@ + by),
        raw_maker_price(book, Side::Sell) == Some(book.asks@[0].price@ - by),
{
    let spread = book.asks@[0].price@ - book.bids@[0].price@;
    let ratio = category_of(spread_ratio_of(book)->0).spec_placement_ratio();
    let p = pow10(26);
    let h = pow10(28);
    lemma_unrounded(spread);
    assert(spread * ratio == h * by) by (nonlinear_arith)
        requires
            h == 100 * p,
            (ratio == 40 * p && 10 * by == 4 * spread) || (ratio == 30 * p && 10 * by == 3 * spread)
                || (ratio == 0 && by == 0),
    ;
    crate::decimal::lemma_exact_value(spread * ratio, h, by);
    lemma_unrounded(book.bids@[0].price@ + by);
    lemma_unrounded(book.asks@[0].price@ - by);
}

/// The width of a spread is what lies between the quotes over their mean; the wider it is, the further
/// inside an order is placed.
pub proof fn law_width_of_a_spread(book: OrderBook, mean: int, ratio: int, wider: int)
    requires
        book.has_quotes(),
        ({
            let bid = book.bids@[0].price@;
            let ask = book.asks@[0].price@;
            &&& 2 * mean == bid + ask
            &&& mean > 0
            &&& (ask - bid) * pow10(28) == mean * ratio
            &&& representable(mean)
            &&& representable(ratio)
            &&& representable(ask - bid)
            &&& representable(bid + ask)
        }),
        spread_ratio_of(book) is Some,
        ratio <= wider,
    ensures
        spread_ratio_of(book) == Some(ratio),
        category_of(ratio).spec_placement_ratio() <= category_of(wider).spec_placement_ratio(),
        category_of(ratio) is Tight <==> ratio < units(1, 2),
        category_of(ratio) is Wide <==> ratio > units(3, 2),
{
    let bid = book.bids@[0].price@;
    let ask = book.asks@[0].price@;
    let p = pow10(28);
    lemma_unrounded(ask - bid);
    lemma_unrounded(bid + ask);
    assert((bid + ask) * p == (2 * p) * mean) by (nonlinear_arith)
        requires
            2 * mean == bid + ask,
    ;
    crate::decimal::lemma_exact_value((bid + ask) * p, 2 * p, mean);
    crate::decimal::lemma_exact_value((ask - bid) * p, mean, ratio);
}

/// A maker price is the cent nearest to where the order is to be placed, wherever that is a cent or
/// more away from the other side.
pub proof fn law_prices_are_the_nearest_cents(book: OrderBook, side: Side, m: MakerPriceResult)
    requires
        book.has_quotes(),
        raw_maker_price(book, side) is Some,
        is_maker_price(book, side, m),
        side is Buy ==> raw_maker_price(book, side)->0 <= book.asks@[0].price@ - units(1, 2),
        side is Sell ==> raw_maker_price(book, side)->0 >= book.bids@[0].price@ + units(1, 2),
    ensures
        2 * (m.price@ - raw_maker_price(book, side)->0) <= units(1, 2),
        2 * (raw_maker_price(book, side)->0 - m.price@) <= units(1, 2),
        m.price@ % units(1, 2) == 0,
{
    let raw = raw_maker_price(book, side)->0;
    let cent = pow10(26);
    lemma_to_places_near(raw, 2);
    assert(units(1, 2) == cent);
    let h = half_even(raw, cent);
    assert((h * cent) % cent == 0) by (nonlinear_arith)
        requires
            cent > 0,
    ;
}

/// A buy takes liquidity at the best ask or above, a sale at the best bid or below, and neither
/// without quotes on the other side.
pub proof fn law_what_crosses(book: OrderBook, price: int)
    ensures
        crosses(book, Side::Buy, price) <==> book.asks@.len() > 0 && price >= book.asks@[0].price@,
        crosses(book, Side::Sell, price) <==> book.bids@.len() > 0 && price <= book.bids@[0].price@,
{
}

/// A price at the own side's best is no improvement, and a buy above the bid is as much of one as a
/// sale equally far below the ask.
pub proof fn law_improvement_has_no_side(book: OrderBook, buy: Decimal, sell: Decimal)
    requires
        book.has_quotes(),
        book.mid() is Some,
        book.mid()->0 > 0,
        buy@ - book.bids@[0].price@ == book.asks@[0].price@ - sell@,
    ensures
        improvement_of(book, Side::Buy, buy) == improvement_of(book, Side::Sell, sell),
        buy@ == book.bids@[0].price@ ==> improvement_of(book, Side::Buy, buy) == Some(0int),
{
    let mid = book.mid()->0;
    if buy@ == book.bids@[0].price@ {
        lemma_exact(0, 1, 0, 0);
        lemma_exact(0, mid, 0, 0);
        lemma_exact(0, pow10(28), 0, 0);
        crate::decimal::law_off_edge(0, mid);
        assert(0 * pow10(28) == 0);
        assert(0 * units(10000, 0) == 0);
        assert(divided(Some(0int), book.mid()) == Some(0int));
        assert(0 < coefficient_limit() * mid) by (nonlinear_arith)
            requires
                mid > 0,
                coefficient_limit() > 0,
        ;
    }
}

} // verus!
