//! Assets, order books, markets and inventories.

use vstd::prelude::*;
use crate::decimal::{
    Decimal, difference, divided, lemma_edge_sign, lemma_quotient_sign, lemma_rounded_negated,
    lemma_sign, lemma_total_prefix, lit, magnitude, num, pow10, product,
    product_scale, quotient, representable, sum, sum_scale, total, units, whole_u32,
};

verus! {

/// A crypto asset with up-or-down markets.
#[derive(Clone, Copy, Debug, PartialEq, Eq, Structural, Hash, PartialOrd, Ord)]
pub enum CryptoAsset {
    Btc,
    Eth,
    Sol,
    Xrp,
}

impl CryptoAsset {
    /// Typical dollar range of a 15-minute window, before any window was measured.
    pub open spec fn spec_estimated_atr_15m(self) -> int {
        match self {
            CryptoAsset::Btc => units(100, 0),
            CryptoAsset::Eth => units(5, 0),
            CryptoAsset::Sol => units(1, 0),
            CryptoAsset::Xrp => units(1, 2),
        }
    }

    /// Typical dollar range of a 15-minute window, before any window was measured.
    pub fn estimated_atr_15m(&self) -> (r: Decimal)
        ensures
            r@ == self.spec_estimated_atr_15m(),
    {
        match self {
            CryptoAsset::Btc => Decimal::new(100, 0),
            CryptoAsset::Eth => Decimal::new(5, 0),
            CryptoAsset::Sol => Decimal::new(1, 0),
            CryptoAsset::Xrp => Decimal::new(1, 2),
        }
    }

    /// Ticker of the asset.
    pub open spec fn spec_name(self) -> Seq<char> {
        match self {
            CryptoAsset::Btc => "BTC"@,
            CryptoAsset::Eth => "ETH"@,
            CryptoAsset::Sol => "SOL"@,
            CryptoAsset::Xrp => "XRP"@,
        }
    }

    /// Ticker of the asset.
    pub fn name(&self) -> (r: &'static str)
        ensures
            r@ == self.spec_name(),
    {
        match self {
            CryptoAsset::Btc => "BTC",
            CryptoAsset::Eth => "ETH",
            CryptoAsset::Sol => "SOL",
            CryptoAsset::Xrp => "XRP",
        }
    }
}

/// One value for each asset.
#[derive(Clone, Copy, Debug)]
pub struct ByAsset<T> {
    pub btc: T,
    pub eth: T,
    pub sol: T,
    pub xrp: T,
}

impl<T> ByAsset<T> {
    /// Value of an asset.
    pub open spec fn at(self, asset: CryptoAsset) -> T {
        match asset {
            CryptoAsset::Btc => self.btc,
            CryptoAsset::Eth => self.eth,
            CryptoAsset::Sol => self.sol,
            CryptoAsset::Xrp => self.xrp,
        }
    }

    /// The values with that of one asset replaced.
    pub open spec fn with(self, asset: CryptoAsset, value: T) -> ByAsset<T> {
        match asset {
            CryptoAsset::Btc => ByAsset { btc: value, ..self },
            CryptoAsset::Eth => ByAsset { eth: value, ..self },
            CryptoAsset::Sol => ByAsset { sol: value, ..self },
            CryptoAsset::Xrp => ByAsset { xrp: value, ..self },
        }
    }

    /// Value of an asset.
    pub fn get(&self, asset: CryptoAsset) -> (r: &T)
        ensures
            *r == self.at(asset),
    {
        match asset {
            CryptoAsset::Btc => &self.btc,
            CryptoAsset::Eth => &self.eth,
            CryptoAsset::Sol => &self.sol,
            CryptoAsset::Xrp => &self.xrp,
        }
    }

    /// Value of an asset, to be changed.
    pub fn get_mut(&mut self, asset: CryptoAsset) -> (r: &mut T)
        ensures
            *r == old(self).at(asset),
            *final(self) == old(self).with(asset, *final(r)),
    {
        match asset {
            CryptoAsset::Btc => &mut self.btc,
            CryptoAsset::Eth => &mut self.eth,
            CryptoAsset::Sol => &mut self.sol,
            CryptoAsset::Xrp => &mut self.xrp,
        }
    }

    /// Sets the value of an asset.
    pub fn set(&mut self, asset: CryptoAsset, value: T)
        ensures
            *final(self) == old(self).with(asset, value),
    {
        match asset {
            CryptoAsset::Btc => {
                self.btc = value;
            },
            CryptoAsset::Eth => {
                self.eth = value;
            },
            CryptoAsset::Sol => {
                self.sol = value;
            },
            CryptoAsset::Xrp => {
                self.xrp = value;
            },
        }
    }
}

/// Side of an order.
#[derive(Clone, Copy, Debug, PartialEq, Eq, Structural)]
pub enum Side {
    Buy,
    Sell,
}

/// One of the two outcomes of a market.
#[derive(Clone, Copy, Debug, PartialEq, Eq, Structural)]
pub enum Outcome {
    Yes,
    No,
}

/// The engines that look for trades.
#[derive(Clone, Copy, Debug, PartialEq, Eq, Structural)]
pub enum EngineType {
    Arbitrage,
    Directional,
    MakerRebates,
}

/// Part of the market window, by time remaining.
#[derive(Clone, Copy, Debug, PartialEq, Eq, Structural)]
pub enum WindowPhase {
    Early,
    Mid,
    Late,
}

/// Price and size offered at that price.
#[derive(Clone, Copy, Debug)]
pub struct PriceLevel {
    pub price: Decimal,
    pub size: Decimal,
}

impl PriceLevel {
    /// A level with the given price and size.
    pub fn new(price: Decimal, size: Decimal) -> (r: PriceLevel)
        ensures
            r.price == price,
            r.size == size,
    {
        PriceLevel { price, size }
    }
}

/// The sizes of a list of levels.
pub open spec fn level_sizes(levels: Seq<PriceLevel>) -> Seq<Decimal> {
    levels.map_values(|l: PriceLevel| l.size)
}

/// Whether a level at price `a` comes before one at price `b` on the side of the book.
pub open spec fn comes_first(side: Side, a: Decimal, b: Decimal) -> bool {
    match side {
        Side::Buy => a@ > b@,
        Side::Sell => a@ < b@,
    }
}

/// Levels of one side of a book after the size at `price` was set to `size`: the level with that
/// price is replaced, dropped if the size is not above zero, or put in its place.
pub open spec fn with_level(
    side: Side,
    levels: Seq<PriceLevel>,
    price: Decimal,
    size: Decimal,
) -> Seq<PriceLevel>
    decreases levels.len(),
{
    if levels.len() == 0 {
        if size@ > 0 {
            seq![PriceLevel { price, size }]
        } else {
            Seq::empty()
        }
    } else if levels[0].price@ == price@ {
        if size@ > 0 {
            seq![PriceLevel { price, size }] + levels.skip(1)
        } else {
            levels.skip(1)
        }
    } else if comes_first(side, price, levels[0].price) {
        if size@ > 0 {
            seq![PriceLevel { price, size }] + levels
        } else {
            levels
        }
    } else {
        seq![levels[0]] + with_level(side, levels.skip(1), price, size)
    }
}

/// Order book of one token, each side with its best level first.
#[derive(Clone, Debug)]
pub struct OrderBook {
    pub token_id: String,
    pub bids: Vec<PriceLevel>,
    pub asks: Vec<PriceLevel>,
    pub last_update_ms: i64,
}

/// Price of the first level, if there is one.
pub open spec fn first_price(levels: Seq<PriceLevel>) -> Option<Decimal> {
    if levels.len() > 0 {
        Some(levels[0].price)
    } else {
        None
    }
}

/// Size of the first level, if there is one.
pub open spec fn first_size(levels: Seq<PriceLevel>) -> Option<Decimal> {
    if levels.len() > 0 {
        Some(levels[0].size)
    } else {
        None
    }
}

impl OrderBook {
    /// Best bid price.
    pub open spec fn bid(self) -> Option<Decimal> {
        first_price(self.bids@)
    }

    /// Best ask price.
    pub open spec fn ask(self) -> Option<Decimal> {
        first_price(self.asks@)
    }

    /// Size at the best ask, zero where there is none.
    pub open spec fn ask_size_or_zero(self) -> int {
        if self.asks@.len() > 0 { self.asks@[0].size@ } else { 0 }
    }

    /// Whether both sides hold a level.
    pub open spec fn has_quotes(self) -> bool {
        self.bid() is Some && self.ask() is Some
    }

    /// Mid price of a book with quotes on both sides.
    pub open spec fn mid(self) -> Option<int> {
        quotient(sum(num(self.bid()->0), num(self.ask()->0)), lit(2, 0))
    }

    /// Spread over mid price, in basis points.
    pub open spec fn spread_in_bps(self) -> Option<int> {
        product(
            divided(difference(num(self.ask()->0), num(self.bid()->0)), self.mid()),
            lit(10000, 0),
        )
    }

    /// Whether the arithmetic of `spread_bps` stays within range.
    pub open spec fn spread_fits(self) -> bool {
        self.has_quotes() ==> {
            &&& self.mid() is Some
            &&& self.mid()->0 != 0 ==> self.spread_in_bps() is Some
        }
    }

    /// What `spread_bps` returns.
    pub open spec fn spec_spread_bps(self) -> Option<u32> {
        if self.has_quotes() && self.mid()->0 != 0 {
            whole_u32(self.spread_in_bps()->0)
        } else {
            None
        }
    }

    /// Sum of the bid sizes.
    pub open spec fn bid_total(self) -> Option<int> {
        total(level_sizes(self.bids@))
    }

    /// Sum of the ask sizes.
    pub open spec fn ask_total(self) -> Option<int> {
        total(level_sizes(self.asks@))
    }

    /// An empty book for the token.
    pub fn new(token_id: String) -> (r: OrderBook)
        ensures
            r.token_id == token_id,
            r.bids@ == Seq::<PriceLevel>::empty(),
            r.asks@ == Seq::<PriceLevel>::empty(),
            r.last_update_ms == 0,
    {
        OrderBook { token_id, bids: Vec::new(), asks: Vec::new(), last_update_ms: 0 }
    }

    /// Replaces both sides.
    pub fn apply_snapshot(&mut self, bids: Vec<PriceLevel>, asks: Vec<PriceLevel>, timestamp_ms: i64)
        ensures
            final(self).token_id == old(self).token_id,
            final(self).bids == bids,
            final(self).asks == asks,
            final(self).last_update_ms == timestamp_ms,
    {
        self.bids = bids;
        self.asks = asks;
        self.last_update_ms = timestamp_ms;
    }

    /// Sets the size at one price of one side.
    pub fn apply_delta(&mut self, side: Side, price: Decimal, size: Decimal, timestamp_ms: i64)
        ensures
            final(self).token_id == old(self).token_id,
            final(self).bids@ == if side == Side::Buy {
                with_level(side, old(self).bids@, price, size)
            } else {
                old(self).bids@
            },
            final(self).asks@ == if side == Side::Sell {
                with_level(side, old(self).asks@, price, size)
            } else {
                old(self).asks@
            },
            final(self).last_update_ms == timestamp_ms,
    {
        match side {
            Side::Buy => {
                self.bids = set_level(side, &self.bids, price, size);
            },
            Side::Sell => {
                self.asks = set_level(side, &self.asks, price, size);
            },
        }
        self.last_update_ms = timestamp_ms;
    }

    /// Price of the best bid.
    pub fn best_bid(&self) -> (r: Option<Decimal>)
        ensures
            r == self.bid(),
    {
        if self.bids.len() > 0 {
            Some(self.bids[0].price)
        } else {
            None
        }
    }

    /// Price of the best ask.
    pub fn best_ask(&self) -> (r: Option<Decimal>)
        ensures
            r == self.ask(),
    {
        if self.asks.len() > 0 {
            Some(self.asks[0].price)
        } else {
            None
        }
    }

    /// Size at the best bid.
    pub fn best_bid_size(&self) -> (r: Option<Decimal>)
        ensures
            r == first_size(self.bids@),
    {
        if self.bids.len() > 0 {
            Some(self.bids[0].size)
        } else {
            None
        }
    }

    /// Size at the best ask.
    pub fn best_ask_size(&self) -> (r: Option<Decimal>)
        ensures
            r == first_size(self.asks@),
    {
        if self.asks.len() > 0 {
            Some(self.asks[0].size)
        } else {
            None
        }
    }

    /// Sum of the bid sizes.
    pub fn bid_depth(&self) -> (r: Decimal)
        requires
            self.bid_total() is Some,
        ensures
            Some(r@) == self.bid_total(),
    {
        depth(&self.bids)
    }

    /// Sum of the ask sizes.
    pub fn ask_depth(&self) -> (r: Decimal)
        requires
            self.ask_total() is Some,
        ensures
            Some(r@) == self.ask_total(),
    {
        depth(&self.asks)
    }

    /// Mean of best bid and best ask.
    pub fn mid_price(&self) -> (r: Option<Decimal>)
        requires
            self.has_quotes() ==> self.mid() is Some,
        ensures
            r is Some <==> self.has_quotes(),
            r is Some ==> Some(r->0@) == self.mid(),
    {
        match (self.best_bid(), self.best_ask()) {
            (Some(bid), Some(ask)) => Some(bid.plus(ask).over(Decimal::new(2, 0))),
            _ => None,
        }
    }

    /// Spread over mid price in basis points; nothing without quotes on both sides, around a mid
    /// price of zero, or where the spread is negative or beyond `u32`.
    pub fn spread_bps(&self) -> (r: Option<u32>)
        requires
            self.spread_fits(),
        ensures
            r == self.spec_spread_bps(),
    {
        match (self.best_bid(), self.best_ask()) {
            (Some(bid), Some(ask)) => {
                let mid = bid.plus(ask).over(Decimal::new(2, 0));
                if mid.is_zero() {
                    None
                } else {
                    ask.minus(bid).over(mid).times(Decimal::new(10000, 0)).to_u32()
                }
            },
            _ => None,
        }
    }
}

/// Sum of the sizes of the levels.
fn depth(levels: &Vec<PriceLevel>) -> (r: Decimal)
    requires
        total(level_sizes(levels@)) is Some,
    ensures
        Some(r@) == total(level_sizes(levels@)),
{
    let mut acc = Decimal::zero();
    let mut i: usize = 0;
    let ghost sizes = level_sizes(levels@);
    assert(sizes.take(0) =~= Seq::<Decimal>::empty());
    while i < levels.len()
        invariant
            i <= levels.len(),
            sizes == level_sizes(levels@),
            total(sizes) is Some,
            Some(acc@) == total(sizes.take(i as int)),
        decreases levels.len() - i,
    {
        proof {
            lemma_total_prefix(sizes, i as int);
        }
        acc = acc.plus(levels[i].size);
        i = i + 1;
    }
    assert(sizes.take(i as int) =~= sizes);
    acc
}

/// The levels with the size at `price` set to `size`.
fn set_level(side: Side, levels: &Vec<PriceLevel>, price: Decimal, size: Decimal) -> (r: Vec<
    PriceLevel,
>)
    ensures
        r@ == with_level(side, levels@, price, size),
{
    let mut out: Vec<PriceLevel> = Vec::new();
    let mut i: usize = 0;
    let ghost whole = with_level(side, levels@, price, size);
    assert(levels@.skip(0) =~= levels@);
    while i < levels.len() && !(levels[i].price == price) && !before(side, price, levels[i].price)
        invariant
            i <= levels.len(),
            whole =~= out@ + with_level(side, levels@.skip(i as int), price, size),
        decreases levels.len() - i,
    {
        assert(levels@.skip(i as int).skip(1) =~= levels@.skip(i + 1));
        assert(levels@.skip(i as int)[0] == levels@[i as int]);
        out.push(levels[i]);
        i = i + 1;
    }
    let ghost rest = levels@.skip(i as int);
    if size > Decimal::zero() {
        out.push(PriceLevel { price, size });
    }
    if i < levels.len() {
        assert(rest[0] == levels@[i as int]);
        if levels[i].price == price {
            i = i + 1;
            assert(rest.skip(1) =~= levels@.skip(i as int));
        }
    }
    let ghost done = out@;
    let ghost from = i as int;
    assert(whole =~= done + levels@.skip(from));
    while i < levels.len()
        invariant
            0 <= from <= i <= levels.len(),
            out@ =~= done + levels@.subrange(from, i as int),
        decreases levels.len() - i,
    {
        out.push(levels[i]);
        i = i + 1;
    }
    assert(levels@.subrange(from, i as int) =~= levels@.skip(from));
    out
}

/// Whether a level at price `a` comes before one at price `b` on the side of the book.
fn before(side: Side, a: Decimal, b: Decimal) -> (r: bool)
    ensures
        r == comes_first(side, a, b),
{
    match side {
        Side::Buy => a > b,
        Side::Sell => a < b,
    }
}

/// Sum of bid and ask sizes of a book.
pub open spec fn depth_of_both(book: OrderBook) -> Option<int> {
    sum(book.bid_total(), book.ask_total())
}

/// Bid size less ask size, over their sum; zero for an empty book.
pub open spec fn imbalance(book: OrderBook) -> Option<int> {
    if depth_of_both(book) == Some(0int) {
        Some(0)
    } else {
        divided(difference(book.bid_total(), book.ask_total()), depth_of_both(book))
    }
}

/// Order book imbalance, from -1 (all asks) to +1 (all bids).
pub fn calculate_imbalance(book: &OrderBook) -> (r: Decimal)
    requires
        depth_of_both(*book) is Some,
        imbalance(*book) is Some,
    ensures
        Some(r@) == imbalance(*book),
{
    let bid_depth = book.bid_depth();
    let ask_depth = book.ask_depth();
    let both = bid_depth.plus(ask_depth);
    if both.is_zero() {
        return Decimal::zero();
    }
    bid_depth.minus(ask_depth).over(both)
}

/// State of one market: its two books, the prices around it and the time left.
#[derive(Clone, Debug)]
pub struct MarketState {
    pub event_id: String,
    pub asset: CryptoAsset,
    pub yes_book: OrderBook,
    pub no_book: OrderBook,
    pub strike_price: Decimal,
    pub spot_price: Option<Decimal>,
    pub seconds_remaining: i64,
    /// Latest Chainlink price.
    pub chainlink_price: Option<Decimal>,
    /// Chainlink price when the window opened.
    pub chainlink_strike: Option<Decimal>,
    /// Binance price when the window opened.
    pub binance_at_open: Option<Decimal>,
}

impl MarketState {
    /// Whether both books have quotes on both sides.
    pub open spec fn spec_is_valid(self) -> bool {
        self.yes_book.has_quotes() && self.no_book.has_quotes()
    }

    /// Cost of one YES and one NO share at the best asks.
    pub open spec fn pair_cost(self) -> Option<int> {
        sum(num(self.yes_book.ask()->0), num(self.no_book.ask()->0))
    }

    /// What is left of one dollar after buying such a pair.
    pub open spec fn pair_margin(self) -> Option<int> {
        difference(lit(1, 0), self.pair_cost())
    }

    /// A market with empty books and no prices.
    pub fn new(
        event_id: String,
        asset: CryptoAsset,
        yes_token_id: String,
        no_token_id: String,
        strike_price: Decimal,
        seconds_remaining: i64,
    ) -> (r: MarketState)
        ensures
            r.event_id == event_id,
            r.asset == asset,
            r.yes_book.token_id == yes_token_id,
            r.yes_book.bids@.len() == 0 && r.yes_book.asks@.len() == 0,
            r.no_book.token_id == no_token_id,
            r.no_book.bids@.len() == 0 && r.no_book.asks@.len() == 0,
            r.strike_price == strike_price,
            r.seconds_remaining == seconds_remaining,
            r.spot_price is None,
            r.chainlink_price is None,
            r.chainlink_strike is None,
            r.binance_at_open is None,
    {
        MarketState {
            event_id,
            asset,
            yes_book: OrderBook::new(yes_token_id),
            no_book: OrderBook::new(no_token_id),
            strike_price,
            spot_price: None,
            seconds_remaining,
            chainlink_price: None,
            chainlink_strike: None,
            binance_at_open: None,
        }
    }

    /// Whether both books have quotes on both sides.
    pub fn is_valid(&self) -> (r: bool)
        ensures
            r == self.spec_is_valid(),
    {
        self.yes_book.best_bid().is_some() && self.yes_book.best_ask().is_some()
            && self.no_book.best_bid().is_some() && self.no_book.best_ask().is_some()
    }

    /// One dollar less the cost of a YES and NO pair at the best asks.
    pub fn arb_margin(&self) -> (r: Option<Decimal>)
        requires
            self.yes_book.ask() is Some && self.no_book.ask() is Some ==> self.pair_margin() is Some,
        ensures
            r is Some <==> self.yes_book.ask() is Some && self.no_book.ask() is Some,
            r is Some ==> Some(r->0@) == self.pair_margin(),
    {
        match (self.yes_book.best_ask(), self.no_book.best_ask()) {
            (Some(yes), Some(no)) => Some(Decimal::one().minus(yes.plus(no))),
            _ => None,
        }
    }
}

/// Rewards that a market pays for resting orders.
#[derive(Clone, Copy, Debug)]
pub struct RewardsConfig {
    pub min_size: Decimal,
    pub max_spread_bps: u32,
    pub daily_rate: Decimal,
    pub active: bool,
}

impl RewardsConfig {
    /// Rewards with the given terms.
    pub fn new(min_size: Decimal, max_spread_bps: u32, daily_rate: Decimal, active: bool) -> (r:
        RewardsConfig)
        ensures
            r == (RewardsConfig { min_size, max_spread_bps, daily_rate, active }),
    {
        RewardsConfig { min_size, max_spread_bps, daily_rate, active }
    }

    /// Whether an order of this size in a market with this spread earns rewards.
    pub fn qualifies(&self, size: Decimal, spread_bps: u32) -> (r: bool)
        ensures
            r == (self.active && size@ >= self.min_size@ && spread_bps <= self.max_spread_bps),
    {
        self.active && size >= self.min_size && spread_bps <= self.max_spread_bps
    }
}

/// How lopsided an inventory is.
#[derive(Clone, Copy, Debug, PartialEq, Eq, Structural)]
pub enum InventoryState {
    /// Imbalance below 20%.
    Balanced,
    /// Imbalance from 20% to below 50%.
    Skewed,
    /// Imbalance from 50% to below 80%.
    Exposed,
    /// Imbalance of 80% or more.
    Crisis,
}

impl InventoryState {
    /// Share of the order size that remains in this state.
    pub open spec fn spec_size_multiplier(self) -> int {
        match self {
            InventoryState::Balanced => units(1, 0),
            InventoryState::Skewed => units(75, 2),
            InventoryState::Exposed => units(50, 2),
            InventoryState::Crisis => units(25, 2),
        }
    }

    /// Share of the order size that remains in this state.
    pub fn size_multiplier(&self) -> (r: Decimal)
        ensures
            r@ == self.spec_size_multiplier(),
    {
        match self {
            InventoryState::Balanced => Decimal::one(),
            InventoryState::Skewed => Decimal::new(75, 2),
            InventoryState::Exposed => Decimal::new(50, 2),
            InventoryState::Crisis => Decimal::new(25, 2),
        }
    }

    /// Whether the inventory should be brought back to balance.
    pub fn should_rebalance(&self) -> (r: bool)
        ensures
            r == (self is Exposed || self is Crisis),
    {
        matches!(self, InventoryState::Exposed | InventoryState::Crisis)
    }
}

/// Shares held in one market and what they cost.
#[derive(Clone, Debug)]
pub struct Inventory {
    pub event_id: String,
    pub yes_shares: Decimal,
    pub no_shares: Decimal,
    pub yes_cost_basis: Decimal,
    pub no_cost_basis: Decimal,
    pub realized_pnl: Decimal,
}

/// Whether `after` is the sum of two amounts, with all of its digits.
pub open spec fn added(before: Decimal, amount: Decimal, after: Decimal) -> bool {
    &&& Some(after@) == sum(num(before), num(amount))
    &&& after.spec_scale() == sum_scale(before, amount, before@ + amount@)
}

/// Whether `worth` is the product of a size and a price, with all of its digits.
pub open spec fn multiplied(size: Decimal, price: Decimal, worth: Decimal) -> bool {
    &&& Some(worth@) == product(num(size), num(price))
    &&& worth.spec_scale() == product_scale(size, price)
}

/// Whether `cost` is what a fill costs, size times price plus fee, with all of its digits.
pub open spec fn costs(size: Decimal, price: Decimal, fee: Decimal, cost: Decimal) -> bool {
    exists|worth: Decimal| #[trigger] multiplied(size, price, worth) && added(worth, fee, cost)
}

impl Inventory {
    /// Cost of all shares held.
    pub open spec fn exposure(self) -> Option<int> {
        sum(num(self.yes_cost_basis), num(self.no_cost_basis))
    }

    /// Difference of the share counts over their sum; zero without shares.
    pub open spec fn lopsidedness(self) -> Option<int> {
        let both = sum(num(self.yes_shares), num(self.no_shares));
        if both == Some(0int) {
            Some(0)
        } else {
            divided(magnitude(difference(num(self.yes_shares), num(self.no_shares))), both)
        }
    }

    /// Whether the arithmetic of `state` stays within range.
    pub open spec fn state_fits(self) -> bool {
        &&& sum(num(self.yes_shares), num(self.no_shares)) is Some
        &&& self.lopsidedness() is Some
    }

    /// What `state` returns.
    pub open spec fn spec_state(self) -> InventoryState {
        let ratio = self.lopsidedness()->0;
        if ratio < units(2, 1) {
            InventoryState::Balanced
        } else if ratio < units(5, 1) {
            InventoryState::Skewed
        } else if ratio < units(8, 1) {
            InventoryState::Exposed
        } else {
            InventoryState::Crisis
        }
    }

    /// An empty inventory.
    pub fn new(event_id: String) -> (r: Inventory)
        ensures
            r.event_id == event_id,
            r.yes_shares@ == 0,
            r.no_shares@ == 0,
            r.yes_cost_basis@ == 0,
            r.no_cost_basis@ == 0,
            r.realized_pnl@ == 0,
    {
        Inventory {
            event_id,
            yes_shares: Decimal::zero(),
            no_shares: Decimal::zero(),
            yes_cost_basis: Decimal::zero(),
            no_cost_basis: Decimal::zero(),
            realized_pnl: Decimal::zero(),
        }
    }

    /// Cost of all shares held.
    pub fn total_exposure(&self) -> (r: Decimal)
        requires
            self.exposure() is Some,
        ensures
            Some(r@) == self.exposure(),
            added(self.yes_cost_basis, self.no_cost_basis, r),
    {
        self.yes_cost_basis.plus(self.no_cost_basis)
    }

    /// How lopsided the inventory is.
    pub fn state(&self) -> (r: InventoryState)
        requires
            self.state_fits(),
        ensures
            r == self.spec_state(),
    {
        let both = self.yes_shares.plus(self.no_shares);
        let ratio = if both.is_zero() {
            Decimal::zero()
        } else {
            self.yes_shares.minus(self.no_shares).abs().over(both)
        };
        if ratio < Decimal::new(2, 1) {
            InventoryState::Balanced
        } else if ratio < Decimal::new(5, 1) {
            InventoryState::Skewed
        } else if ratio < Decimal::new(8, 1) {
            InventoryState::Exposed
        } else {
            InventoryState::Crisis
        }
    }

    /// Whether a fill of `size` shares for `cost` can be booked within range.
    pub open spec fn fill_fits(self, outcome: Outcome, size: Decimal, cost: Decimal) -> bool {
        match outcome {
            Outcome::Yes => sum(num(self.yes_shares), num(size)) is Some && sum(
                num(self.yes_cost_basis),
                num(cost),
            ) is Some,
            Outcome::No => sum(num(self.no_shares), num(size)) is Some && sum(
                num(self.no_cost_basis),
                num(cost),
            ) is Some,
        }
    }

    /// Whether `after` is this inventory with a fill of `size` shares for `cost` booked.
    pub open spec fn filled(
        self,
        outcome: Outcome,
        size: Decimal,
        cost: Decimal,
        after: Inventory,
    ) -> bool {
        &&& after.event_id == self.event_id
        &&& after.realized_pnl == self.realized_pnl
        &&& match outcome {
            Outcome::Yes => {
                &&& added(self.yes_shares, size, after.yes_shares)
                &&& added(self.yes_cost_basis, cost, after.yes_cost_basis)
                &&& after.no_shares == self.no_shares
                &&& after.no_cost_basis == self.no_cost_basis
            },
            Outcome::No => {
                &&& added(self.no_shares, size, after.no_shares)
                &&& added(self.no_cost_basis, cost, after.no_cost_basis)
                &&& after.yes_shares == self.yes_shares
                &&& after.yes_cost_basis == self.yes_cost_basis
            },
        }
    }

    /// Books `size` shares of the outcome, bought for `cost`.
    pub fn record_fill(&mut self, outcome: Outcome, size: Decimal, cost: Decimal)
        requires
            old(self).fill_fits(outcome, size, cost),
        ensures
            old(self).filled(outcome, size, cost, *final(self)),
    {
        match outcome {
            Outcome::Yes => {
                self.yes_shares = self.yes_shares.plus(size);
                self.yes_cost_basis = self.yes_cost_basis.plus(cost);
            },
            Outcome::No => {
                self.no_shares = self.no_shares.plus(size);
                self.no_cost_basis = self.no_cost_basis.plus(cost);
            },
        }
    }
}

/// Whether the levels of one side of a book are in order, the best first: bids fall, asks rise.
pub open spec fn best_first(side: Side, levels: Seq<PriceLevel>) -> bool {
    forall|i: int, j: int|
        0 <= i < j < levels.len() ==> if side == Side::Buy {
            (#[trigger] levels[i]).price@ > (#[trigger] levels[j]).price@
        } else {
            levels[i].price@ < levels[j].price@
        }
}

/// A change of a book keeps each side in order, the best price first. The changed price is there
/// with its new size, or is gone where that is not positive; all other levels are as they were.
pub proof fn law_change_of_a_book(
    side: Side,
    levels: Seq<PriceLevel>,
    price: Decimal,
    size: Decimal,
)
    requires
        best_first(side, levels),
    ensures
        best_first(side, with_level(side, levels, price, size)),
        forall|l: PriceLevel|
            l.price@ != price@ ==> (#[trigger] with_level(side, levels, price, size).contains(l)
                <==> levels.contains(l)),
        size@ > 0 ==> with_level(side, levels, price, size).contains(PriceLevel { price, size }),
        size@ <= 0 ==> forall|l: PriceLevel| #[trigger]
            with_level(side, levels, price, size).contains(l) ==> l.price@ != price@,
    decreases levels.len(),
{
    let out = with_level(side, levels, price, size);
    let new = PriceLevel { price, size };
    if levels.len() == 0 {
        if size@ > 0 {
            assert(out[0] == new);
        }
        assert forall|l: PriceLevel| l.price@ != price@ implies (#[trigger] out.contains(l)
            <==> levels.contains(l)) by {
            if out.contains(l) {
                let i = choose|i: int| 0 <= i < out.len() && out[i] == l;
            }
        }
    } else if levels[0].price@ == price@ || comes_first(side, price, levels[0].price) {
        let rest = if levels[0].price@ == price@ {
            levels.skip(1)
        } else {
            levels
        };
        let o: int = if levels[0].price@ == price@ {
            1
        } else {
            0
        };
        assert(forall|i: int| 0 <= i < rest.len() ==> #[trigger] rest[i] == levels[i + o]);
        if size@ > 0 {
            assert(out =~= seq![new] + rest);
            assert(out[0] == new);
        } else {
            assert(out =~= rest);
        }
        let s: int = if size@ > 0 {
            1
        } else {
            0
        };
        assert(forall|i: int| s <= i < out.len() ==> #[trigger] out[i] == levels[i - s + o]);
        assert forall|l: PriceLevel| l.price@ != price@ implies (#[trigger] out.contains(l)
            <==> levels.contains(l)) by {
            if out.contains(l) {
                let i = choose|i: int| 0 <= i < out.len() && out[i] == l;
                assert(levels[i - s + o] == l);
            }
            if levels.contains(l) {
                let i = choose|i: int| 0 <= i < levels.len() && levels[i] == l;
                assert(out[i + s - o] == l);
            }
        }
        if size@ <= 0 {
            assert forall|l: PriceLevel| #[trigger] out.contains(l) implies l.price@ != price@ by {
                let i = choose|i: int| 0 <= i < out.len() && out[i] == l;
                if o == 1 {
                    assert(levels[0].price@ != levels[i + 1].price@);
                } else if i > 0 {
                    assert(levels[0].price@ != levels[i].price@);
                }
            }
        }
    } else {
        let rest = levels.skip(1);
        assert(forall|i: int| 0 <= i < rest.len() ==> #[trigger] rest[i] == levels[i + 1]);
        law_change_of_a_book(side, rest, price, size);
        let tail = with_level(side, rest, price, size);
        assert(out =~= seq![levels[0]] + tail);
        assert(out[0] == levels[0]);
        assert(forall|i: int| 1 <= i < out.len() ==> #[trigger] out[i] == tail[i - 1]);
        assert forall|j: int| 0 <= j < tail.len() implies if side == Side::Buy {
            levels[0].price@ > (#[trigger] tail[j]).price@
        } else {
            levels[0].price@ < tail[j].price@
        } by {
            let l = tail[j];
            assert(tail.contains(l));
            if l.price@ != price@ {
                assert(rest.contains(l));
                let i = choose|i: int| 0 <= i < rest.len() && rest[i] == l;
                assert(levels[i + 1] == l);
            }
        }
        assert forall|l: PriceLevel| l.price@ != price@ implies (#[trigger] out.contains(l)
            <==> levels.contains(l)) by {
            if out.contains(l) {
                let i = choose|i: int| 0 <= i < out.len() && out[i] == l;
                if i == 0 {
                    assert(levels[0] == l);
                } else {
                    assert(tail[i - 1] == l);
                    assert(tail.contains(l));
                    let k = choose|k: int| 0 <= k < rest.len() && rest[k] == l;
                    assert(levels[k + 1] == l);
                }
            }
            if levels.contains(l) {
                let i = choose|i: int| 0 <= i < levels.len() && levels[i] == l;
                if i == 0 {
                    assert(out[0] == l);
                } else {
                    assert(rest[i - 1] == l);
                    assert(rest.contains(l));
                    assert(tail.contains(l));
                    let k = choose|k: int| 0 <= k < tail.len() && tail[k] == l;
                    assert(out[k + 1] == l);
                }
            }
        }
        if size@ > 0 {
            let k = choose|k: int| 0 <= k < tail.len() && tail[k] == new;
            assert(out[k + 1] == new);
        } else {
            assert forall|l: PriceLevel| #[trigger] out.contains(l) implies l.price@ != price@ by {
                let i = choose|i: int| 0 <= i < out.len() && out[i] == l;
                if i > 0 {
                    assert(tail.contains(tail[i - 1]));
                }
            }
        }
    }
}

/// The best quotes of a book are its first levels: no bid is above the best bid of a book in order,
/// and no ask below its best ask.
pub proof fn law_best_quotes(book: OrderBook, i: int)
    requires
        best_first(Side::Buy, book.bids@),
        best_first(Side::Sell, book.asks@),
    ensures
        0 <= i < book.bids@.len() ==> book.bid() is Some && book.bids@[i].price@ <= book.bid()->0@,
        0 <= i < book.asks@.len() ==> book.ask() is Some && book.asks@[i].price@ >= book.ask()->0@,
        book.bids@.len() == 0 ==> book.bid() is None,
        book.asks@.len() == 0 ==> book.ask() is None,
        book.bids@.len() > 0 ==> book.bid() == Some(book.bids@[0].price),
        book.asks@.len() > 0 ==> book.ask() == Some(book.asks@[0].price),
        book.asks@.len() > 0 ==> book.ask_size_or_zero() == book.asks@[0].size@,
        book.has_quotes() <==> book.bids@.len() > 0 && book.asks@.len() > 0,
{
    if 0 < i < book.bids@.len() {
        assert(book.bids@[0].price@ > book.bids@[i].price@);
    }
    if 0 < i < book.asks@.len() {
        assert(book.asks@[0].price@ < book.asks@[i].price@);
    }
}

/// The imbalance of a book is turned around when its bids and asks trade places. It is not negative
/// with more on the bid side, not positive with more on the ask side, and one where there are bids
/// alone.
pub proof fn law_imbalance_is_a_balance(book: OrderBook, turned: OrderBook)
    requires
        turned.bids@ == book.asks@,
        turned.asks@ == book.bids@,
        imbalance(book) is Some,
        depth_of_both(book) is Some && depth_of_both(book)->0 > 0,
    ensures
        imbalance(turned) == Some(-imbalance(book)->0),
        total(level_sizes(book.bids@))->0 >= total(level_sizes(book.asks@))->0 ==> imbalance(
            book,
        )->0 >= 0,
        total(level_sizes(book.bids@))->0 <= total(level_sizes(book.asks@))->0 ==> imbalance(
            book,
        )->0 <= 0,
        book.asks@.len() == 0 && representable(total(level_sizes(book.bids@))->0) ==> imbalance(
            book,
        ) == lit(1, 0),
{
    let a = total(level_sizes(book.bids@))->0;
    let b = total(level_sizes(book.asks@))->0;
    let both = depth_of_both(book)->0;
    let d = difference(Some(a), Some(b))->0;
    assert(b - a == -(a - b));
    assert(a + b == b + a);
    lemma_rounded_negated(a - b, 1);
    lemma_sign(a - b, 1);
    lemma_edge_sign(d, both);
    let p = crate::decimal::pow10(28);
    assert(-d * p == -(d * p)) by (nonlinear_arith);
    lemma_rounded_negated(d * p, both);
    lemma_quotient_sign(d, both);
    if book.asks@.len() == 0 {
        assert(level_sizes(book.asks@).len() == 0);
        if representable(a) {
            crate::decimal::law_arithmetic_is_exact(a, 0);
        }
    }
}

/// Shares are booked on the side that was bought, with their cost, and nothing changes on the other
/// side.
pub proof fn law_fill_books_one_side(
    before: Inventory,
    outcome: Outcome,
    size: Decimal,
    cost: Decimal,
    after: Inventory,
)
    requires
        before.filled(outcome, size, cost, after),
    ensures
        outcome is Yes ==> after.no_shares == before.no_shares && after.no_cost_basis
            == before.no_cost_basis,
        outcome is No ==> after.yes_shares == before.yes_shares && after.yes_cost_basis
            == before.yes_cost_basis,
        outcome is Yes && representable(before.yes_shares@ + size@) ==> after.yes_shares@
            == before.yes_shares@ + size@,
        outcome is Yes && representable(before.yes_cost_basis@ + cost@) ==> after.yes_cost_basis@
            == before.yes_cost_basis@ + cost@,
        outcome is No && representable(before.no_shares@ + size@) ==> after.no_shares@
            == before.no_shares@ + size@,
        outcome is No && representable(before.no_cost_basis@ + cost@) ==> after.no_cost_basis@
            == before.no_cost_basis@ + cost@,
        after.realized_pnl == before.realized_pnl,
        after.event_id == before.event_id,
{
    crate::decimal::law_arithmetic_is_exact(before.yes_shares@, size@);
    crate::decimal::law_arithmetic_is_exact(before.yes_cost_basis@, cost@);
    crate::decimal::law_arithmetic_is_exact(before.no_shares@, size@);
    crate::decimal::law_arithmetic_is_exact(before.no_cost_basis@, cost@);
}

/// What a fill costs, where the numbers need no rounding.
pub proof fn law_cost_of_a_fill(
    size: Decimal,
    price: Decimal,
    fee: Decimal,
    cost: Decimal,
    worth: int,
)
    requires
        costs(size, price, fee, cost),
        size@ * price@ == worth * crate::decimal::pow10(28),
        representable(worth),
        representable(worth + fee@),
    ensures
        cost@ == worth + fee@,
{
    let p = crate::decimal::pow10(28);
    assert(worth * p == p * worth) by (nonlinear_arith);
    crate::decimal::lemma_exact_value(size@ * price@, p, worth);
    crate::decimal::law_arithmetic_is_exact(worth, fee@);
}

/// The cost of what is held is the cost of both sides, whichever is which; how lopsided it is does
/// not depend on which side is which either. Equal sides are in balance, one side alone is not, and
/// a more lopsided inventory gets no larger orders.
pub proof fn law_inventory_is_symmetric(a: Inventory, b: Inventory)
    requires
        b.yes_shares == a.no_shares,
        b.no_shares == a.yes_shares,
        b.yes_cost_basis == a.no_cost_basis,
        b.no_cost_basis == a.yes_cost_basis,
        a.state_fits(),
        sum(num(a.yes_shares), num(a.no_shares))->0 > 0,
    ensures
        b.exposure() == a.exposure(),
        representable(a.yes_cost_basis@ + a.no_cost_basis@) ==> a.exposure() == Some(
            a.yes_cost_basis@ + a.no_cost_basis@,
        ),
        b.spec_state() == a.spec_state(),
        a.yes_shares@ == a.no_shares@ ==> a.spec_state() is Balanced,
        a.no_shares@ == 0 && representable(a.yes_shares@) ==> a.spec_state() is Crisis,
        a.yes_shares@ == 0 && representable(a.no_shares@) ==> a.spec_state() is Crisis,
{
    let x = a.yes_shares@;
    let y = a.no_shares@;
    assert(x + y == y + x);
    assert(y - x == -(x - y));
    lemma_rounded_negated(x - y, 1);
    crate::decimal::law_arithmetic_is_exact(a.yes_cost_basis@, a.no_cost_basis@);
    crate::decimal::law_arithmetic_is_exact(x, y);
    crate::decimal::law_arithmetic_is_exact(y, x);
    assert(0 == 0 * crate::decimal::pow10(0));
    assert(representable(0));
    if x == y {
        let both = sum(Some(x), Some(y))->0;
        lemma_quotient_sign(0, both);
    }
}

/// A more lopsided inventory gets smaller orders, and never none.
pub proof fn law_lopsided_inventories_shrink_orders(a: Inventory, b: Inventory)
    requires
        a.lopsidedness()->0 <= b.lopsidedness()->0,
    ensures
        b.spec_state().spec_size_multiplier() <= a.spec_state().spec_size_multiplier(),
        0 < a.spec_state().spec_size_multiplier() <= units(1, 0),
        a.lopsidedness()->0 < units(20, 2) <==> a.spec_state().spec_size_multiplier() == units(1, 0),
{
}

/// What is left of a dollar after buying a pair is a dollar less both best asks.
pub proof fn law_pair_margin_is_what_is_left(state: MarketState)
    requires
        state.yes_book.asks@.len() > 0,
        state.no_book.asks@.len() > 0,
        representable(state.yes_book.asks@[0].price@ + state.no_book.asks@[0].price@),
        representable(
            units(1, 0) - (state.yes_book.asks@[0].price@ + state.no_book.asks@[0].price@),
        ),
    ensures
        state.pair_cost() == Some(state.yes_book.asks@[0].price@ + state.no_book.asks@[0].price@),
        state.pair_margin() == Some(
            units(1, 0) - state.yes_book.asks@[0].price@ - state.no_book.asks@[0].price@,
        ),
{
    let yes = state.yes_book.asks@[0].price@;
    let no = state.no_book.asks@[0].price@;
    crate::decimal::law_arithmetic_is_exact(yes, no);
    crate::decimal::law_arithmetic_is_exact(units(1, 0), yes + no);
}

/// Every asset has a value of its own: setting one changes that one alone.
pub proof fn law_assets_are_separate<T>(values: ByAsset<T>, asset: CryptoAsset, value: T, other: CryptoAsset)
    ensures
        values.with(asset, value).at(asset) == value,
        other != asset ==> values.with(asset, value).at(other) == values.at(other),
        values.at(CryptoAsset::Btc) == values.btc,
        values.at(CryptoAsset::Eth) == values.eth,
        values.at(CryptoAsset::Sol) == values.sol,
        values.at(CryptoAsset::Xrp) == values.xrp,
{
}

/// The mid price lies half way between the quotes, and the spread is measured against it; there is no
/// spread without quotes on both sides.
pub proof fn law_middle_of_the_quotes(book: OrderBook, middle: int, ratio: int)
    requires
        book.bids@.len() > 0 && book.asks@.len() > 0,
        2 * middle == book.bids@[0].price@ + book.asks@[0].price@,
        middle > 0,
        (book.asks@[0].price@ - book.bids@[0].price@) * pow10(28) == middle * ratio,
        representable(middle),
        representable(ratio),
        representable(10000 * ratio),
        representable(book.bids@[0].price@ + book.asks@[0].price@),
        representable(book.asks@[0].price@ - book.bids@[0].price@),
        book.spread_in_bps() is Some,
    ensures
        book.mid() == Some(middle),
        book.spread_in_bps() == Some(10000 * ratio),
        book.spec_spread_bps() == whole_u32(10000 * ratio),
{
    let bid = book.bids@[0].price@;
    let ask = book.asks@[0].price@;
    let p = pow10(28);
    crate::decimal::lemma_unrounded(bid + ask);
    crate::decimal::lemma_unrounded(ask - bid);
    assert((bid + ask) * p == (2 * p) * middle) by (nonlinear_arith)
        requires
            2 * middle == bid + ask,
    ;
    crate::decimal::lemma_exact_value((bid + ask) * p, 2 * p, middle);
    crate::decimal::lemma_exact_value((ask - bid) * p, middle, ratio);
    assert(ratio * (10000 * p) == p * (10000 * ratio)) by (nonlinear_arith);
    crate::decimal::lemma_exact_value(ratio * units(10000, 0), p, 10000 * ratio);
}

/// A book without quotes on both sides has no spread, and a market is valid only with quotes on all
/// four sides; the best sizes are those of the first levels.
pub proof fn law_quotes_on_all_sides(book: OrderBook, state: MarketState)
    ensures
        book.bids@.len() == 0 || book.asks@.len() == 0 ==> book.spec_spread_bps() is None,
        state.spec_is_valid() <==> state.yes_book.bids@.len() > 0 && state.yes_book.asks@.len() > 0
            && state.no_book.bids@.len() > 0 && state.no_book.asks@.len() > 0,
        book.asks@.len() > 0 ==> first_size(book.asks@) == Some(book.asks@[0].size),
        book.asks@.len() == 0 ==> first_size(book.asks@) is None,
{
}

} // verus!
