//! Opportunities to earn rebates with resting orders.
//!
//! An order is placed inside the spread of a book, on the side with less depth, if the spread is
//! neither too narrow nor too wide and the book is not too lopsided.

use vstd::prelude::*;
use crate::decimal::{
    Decimal, difference, divided, lit, magnitude, minutes_in, minutes_of, num, product, quotient,
    sum, to_places, units,
};
use crate::pricing::{get_maker_price, maker_price_fits, maker_price_of, priceable};
use crate::types::{
    MarketState, OrderBook, RewardsConfig, Side, calculate_imbalance, depth_of_both, imbalance,
};

verus! {

/// Why there is no order to place.
#[derive(Clone, Copy, Debug, PartialEq, Eq, Structural)]
pub enum MakerSkipReason {
    /// A best bid or ask is missing.
    BookNotReady,
    /// The spread is too wide, or too wide for rewards.
    SpreadTooWide,
    /// The spread is too narrow.
    SpreadTooNarrow,
    /// The market has no rewards.
    NoRewardsConfig,
    /// Rewards are not active.
    RewardsNotActive,
    /// Too little time remains.
    InsufficientTime,
    /// The size is too small for rewards.
    BelowMinSize,
    /// The book is too lopsided.
    ExtremeImbalance,
}

impl MakerSkipReason {
    /// The reason in words.
    pub open spec fn spec_text(self) -> Seq<char> {
        match self {
            MakerSkipReason::BookNotReady => "book not ready"@,
            MakerSkipReason::SpreadTooWide => "spread too wide for rewards"@,
            MakerSkipReason::SpreadTooNarrow => "spread too narrow"@,
            MakerSkipReason::NoRewardsConfig => "no rewards config"@,
            MakerSkipReason::RewardsNotActive => "rewards not active"@,
            MakerSkipReason::InsufficientTime => "insufficient time"@,
            MakerSkipReason::BelowMinSize => "below min size for rewards"@,
            MakerSkipReason::ExtremeImbalance => "extreme book imbalance"@,
        }
    }

    /// The reason in words.
    pub fn to_string(&self) -> (r: String)
        ensures
            r@ == self.spec_text(),
    {
        match self {
            MakerSkipReason::BookNotReady => "book not ready".to_owned(),
            MakerSkipReason::SpreadTooWide => "spread too wide for rewards".to_owned(),
            MakerSkipReason::SpreadTooNarrow => "spread too narrow".to_owned(),
            MakerSkipReason::NoRewardsConfig => "no rewards config".to_owned(),
            MakerSkipReason::RewardsNotActive => "rewards not active".to_owned(),
            MakerSkipReason::InsufficientTime => "insufficient time".to_owned(),
            MakerSkipReason::BelowMinSize => "below min size for rewards".to_owned(),
            MakerSkipReason::ExtremeImbalance => "extreme book imbalance".to_owned(),
        }
    }
}

/// An order worth placing.
#[derive(Debug)]
pub struct MakerOpportunity {
    pub event_id: String,
    pub token_id: String,
    pub side: Side,
    pub price: Decimal,
    pub size: Decimal,
    /// Estimated rebate in dollars.
    pub expected_rebate: Decimal,
    pub spread_bps: u32,
    pub qualifies_for_rewards: bool,
    pub minutes_remaining: Decimal,
    pub best_bid: Decimal,
    pub best_ask: Decimal,
    /// Time of detection in milliseconds.
    pub detected_at_ms: i64,
}

impl Clone for MakerOpportunity {
    fn clone(&self) -> (r: MakerOpportunity)
        ensures
            r == *self,
    {
        MakerOpportunity {
            event_id: self.event_id.clone(),
            token_id: self.token_id.clone(),
            side: self.side,
            price: self.price,
            size: self.size,
            expected_rebate: self.expected_rebate,
            spread_bps: self.spread_bps,
            qualifies_for_rewards: self.qualifies_for_rewards,
            minutes_remaining: self.minutes_remaining,
            best_bid: self.best_bid,
            best_ask: self.best_ask,
            detected_at_ms: self.detected_at_ms,
        }
    }
}

impl MakerOpportunity {
    /// Mean of best bid and best ask.
    pub open spec fn mid(self) -> Option<int> {
        quotient(sum(num(self.best_bid), num(self.best_ask)), lit(2, 0))
    }

    /// Spread over mid price.
    pub open spec fn spec_spread_ratio(self) -> Option<int> {
        if self.mid()->0 <= 0 {
            Some(0)
        } else {
            divided(difference(num(self.best_ask), num(self.best_bid)), self.mid())
        }
    }

    /// Whether the order buys.
    pub fn is_buy(&self) -> (r: bool)
        ensures
            r == (self.side == Side::Buy),
    {
        self.side == Side::Buy
    }

    /// Whether the order sells.
    pub fn is_sell(&self) -> (r: bool)
        ensures
            r == (self.side == Side::Sell),
    {
        self.side == Side::Sell
    }

    /// Spread over mid price; zero around a mid price that is not positive.
    pub fn spread_ratio(&self) -> (r: Decimal)
        requires
            self.mid() is Some,
            self.spec_spread_ratio() is Some,
        ensures
            Some(r@) == self.spec_spread_ratio(),
    {
        let mid = self.best_bid.plus(self.best_ask).over(Decimal::new(2, 0));
        if mid <= Decimal::zero() {
            return Decimal::zero();
        }
        self.best_ask.minus(self.best_bid).over(mid)
    }
}

/// Settings of the maker detector.
#[derive(Clone, Copy, Debug)]
pub struct MakerConfig {
    /// Least number of seconds remaining.
    pub min_seconds_remaining: i64,
    /// Narrowest spread in basis points.
    pub min_spread_bps: u32,
    /// Widest spread in basis points.
    pub max_spread_bps: u32,
    /// Order size where none is suggested.
    pub default_order_size: Decimal,
    /// Largest imbalance of a book.
    pub max_imbalance_ratio: Decimal,
    /// Estimated share of the daily rewards pool.
    pub estimated_pool_share: Decimal,
}

impl Default for MakerConfig {
    fn default() -> (r: MakerConfig)
        ensures
            r.min_seconds_remaining == 120,
            r.min_spread_bps == 50,
            r.max_spread_bps == 1000,
            r.default_order_size@ == units(50, 0),
            r.max_imbalance_ratio@ == units(80, 2),
            r.estimated_pool_share@ == units(1, 3),
    {
        MakerConfig {
            min_seconds_remaining: 120,
            min_spread_bps: 50,
            max_spread_bps: 1000,
            default_order_size: Decimal::new(50, 0),
            max_imbalance_ratio: Decimal::new(80, 2),
            estimated_pool_share: Decimal::new(1, 3),
        }
    }
}

/// Side on which an order is placed: the one with less depth.
pub open spec fn quiet_side(book: OrderBook) -> Side {
    if imbalance(book)->0 > 0 {
        Side::Sell
    } else {
        Side::Buy
    }
}

/// Detector of maker opportunities.
#[derive(Clone, Copy, Debug)]
pub struct MakerDetector {
    pub config: MakerConfig,
}

impl MakerDetector {
    /// Why the book is skipped before its imbalance is looked at.
    pub open spec fn early_skip(self, book: OrderBook, rewards: Option<&RewardsConfig>) -> Option<
        MakerSkipReason,
    > {
        match book.spec_spread_bps() {
            None => Some(MakerSkipReason::BookNotReady),
            Some(bps) => if bps < self.config.min_spread_bps {
                Some(MakerSkipReason::SpreadTooNarrow)
            } else if bps > self.config.max_spread_bps {
                Some(MakerSkipReason::SpreadTooWide)
            } else {
                match rewards {
                    Some(rewards) => if !rewards.active {
                        Some(MakerSkipReason::RewardsNotActive)
                    } else if bps > rewards.max_spread_bps {
                        Some(MakerSkipReason::SpreadTooWide)
                    } else {
                        None
                    },
                    None => None,
                }
            },
        }
    }

    /// Why the book is skipped.
    pub open spec fn skip_reason(self, book: OrderBook, rewards: Option<&RewardsConfig>) -> Option<
        MakerSkipReason,
    > {
        if self.early_skip(book, rewards) is Some {
            self.early_skip(book, rewards)
        } else if magnitude(imbalance(book))->0 > self.config.max_imbalance_ratio@ {
            Some(MakerSkipReason::ExtremeImbalance)
        } else {
            None
        }
    }

    /// Whether the arithmetic of `detect_for_book` stays within range.
    pub open spec fn book_fits(self, book: OrderBook, rewards: Option<&RewardsConfig>) -> bool {
        &&& book.spread_fits()
        &&& self.early_skip(book, rewards) is None ==> {
            &&& depth_of_both(book) is Some
            &&& imbalance(book) is Some
            &&& magnitude(imbalance(book))->0 <= self.config.max_imbalance_ratio@
                ==> maker_price_fits(book, quiet_side(book))
        }
        &&& self.skip_reason(book, rewards) is None && rewards is Some ==> product(
            num(rewards->0.daily_rate),
            num(self.config.estimated_pool_share),
        ) is Some
    }

    /// Whether `o` is the order to place in the book.
    pub open spec fn describes(
        self,
        event_id: Seq<char>,
        book: OrderBook,
        rewards: Option<&RewardsConfig>,
        order_size: Decimal,
        minutes_remaining: int,
        now_ms: i64,
        o: MakerOpportunity,
    ) -> bool {
        &&& o.event_id@ == event_id
        &&& o.token_id == book.token_id
        &&& o.side == quiet_side(book)
        &&& Some(o.price@) == resting_price(book, quiet_side(book))
        &&& match rewards {
            Some(rewards) => {
                &&& o.size == if order_size@ < rewards.min_size@ {
                    rewards.min_size
                } else {
                    order_size
                }
                &&& o.qualifies_for_rewards
                &&& Some(o.expected_rebate@) == product(
                    num(rewards.daily_rate),
                    num(self.config.estimated_pool_share),
                )
            },
            None => o.size == order_size && !o.qualifies_for_rewards && o.expected_rebate@ == 0,
        }
        &&& Some(o.spread_bps) == book.spec_spread_bps()
        &&& o.minutes_remaining@ == minutes_remaining
        &&& Some(o.best_bid) == book.bid()
        &&& Some(o.best_ask) == book.ask()
        &&& o.detected_at_ms == now_ms
    }

    /// A detector with default settings.
    pub fn new() -> (r: MakerDetector)
        ensures
            r.config.min_seconds_remaining == 120,
            r.config.min_spread_bps == 50,
            r.config.max_spread_bps == 1000,
            r.config.default_order_size@ == units(50, 0),
            r.config.max_imbalance_ratio@ == units(80, 2),
            r.config.estimated_pool_share@ == units(1, 3),
    {
        MakerDetector { config: MakerConfig::default() }
    }

    /// A detector with the given settings.
    pub fn with_config(config: MakerConfig) -> (r: MakerDetector)
        ensures
            r.config == config,
    {
        MakerDetector { config }
    }

    /// Size of the orders for a suggested size.
    pub open spec fn order_size(self, suggested: Option<Decimal>) -> Decimal {
        match suggested {
            Some(size) => size,
            None => self.config.default_order_size,
        }
    }

    /// Whether the arithmetic of `detect` stays within range.
    pub open spec fn detect_fits(self, state: MarketState, rewards: Option<&RewardsConfig>) -> bool {
        state.seconds_remaining >= self.config.min_seconds_remaining ==> self.book_fits(
            state.yes_book,
            rewards,
        ) && self.book_fits(state.no_book, rewards)
    }

    /// Whether `r` are the orders to place in the two books of a market: none with too little time
    /// remaining, else one for each book that is not skipped, YES before NO.
    pub open spec fn detects(
        self,
        state: MarketState,
        rewards: Option<&RewardsConfig>,
        suggested_size: Option<Decimal>,
        now_ms: i64,
        r: Seq<MakerOpportunity>,
    ) -> bool {
        let yes = self.skip_reason(state.yes_book, rewards) is None;
        let no = self.skip_reason(state.no_book, rewards) is None;
        if state.seconds_remaining < self.config.min_seconds_remaining {
            r.len() == 0
        } else {
            &&& r.len() == (if yes { 1int } else { 0 }) + (if no { 1int } else { 0 })
            &&& yes ==> self.describes(
                state.event_id@,
                state.yes_book,
                rewards,
                self.order_size(suggested_size),
                minutes_in(state.seconds_remaining)->0,
                now_ms,
                r[0],
            )
            &&& no ==> self.describes(
                state.event_id@,
                state.no_book,
                rewards,
                self.order_size(suggested_size),
                minutes_in(state.seconds_remaining)->0,
                now_ms,
                r.last(),
            )
        }
    }

    /// Orders to place in the two books of a market at the time `now_ms`: none with too little
    /// time remaining, else one for each book that is not skipped, YES before NO.
    pub fn detect(
        &self,
        state: &MarketState,
        reward_config: Option<&RewardsConfig>,
        suggested_size: Option<Decimal>,
        now_ms: i64,
    ) -> (r: Vec<MakerOpportunity>)
        requires
            self.detect_fits(*state, reward_config),
        ensures
            self.detects(*state, reward_config, suggested_size, now_ms, r@),
    {
        let mut opportunities: Vec<MakerOpportunity> = Vec::new();
        if state.seconds_remaining < self.config.min_seconds_remaining {
            return opportunities;
        }
        let minutes_remaining = minutes_of(state.seconds_remaining);
        let order_size = suggested_size.unwrap_or(self.config.default_order_size);
        match self.detect_for_book(
            state.event_id.as_str(),
            &state.yes_book,
            reward_config,
            order_size,
            minutes_remaining,
            now_ms,
        ) {
            Ok(opp) => {
                opportunities.push(opp);
            },
            Err(_) => {},
        }
        match self.detect_for_book(
            state.event_id.as_str(),
            &state.no_book,
            reward_config,
            order_size,
            minutes_remaining,
            now_ms,
        ) {
            Ok(opp) => {
                opportunities.push(opp);
            },
            Err(_) => {},
        }
        opportunities
    }

    /// The order to place in one book, or why there is none.
    pub fn detect_for_book(
        &self,
        event_id: &str,
        book: &OrderBook,
        reward_config: Option<&RewardsConfig>,
        order_size: Decimal,
        minutes_remaining: Decimal,
        now_ms: i64,
    ) -> (r: Result<MakerOpportunity, MakerSkipReason>)
        requires
            self.book_fits(*book, reward_config),
        ensures
            match r {
                Ok(o) => self.skip_reason(*book, reward_config) is None && self.describes(
                    event_id@,
                    *book,
                    reward_config,
                    order_size,
                    minutes_remaining@,
                    now_ms,
                    o,
                ),
                Err(reason) => self.skip_reason(*book, reward_config) == Some(reason),
            },
    {
        let (best_bid, best_ask) = match (book.best_bid(), book.best_ask()) {
            (Some(bid), Some(ask)) => (bid, ask),
            _ => {
                return Err(MakerSkipReason::BookNotReady);
            },
        };
        let spread_bps: u32 = match book.spread_bps() {
            Some(bps) => bps,
            None => {
                return Err(MakerSkipReason::BookNotReady);
            },
        };
        if spread_bps < self.config.min_spread_bps {
            return Err(MakerSkipReason::SpreadTooNarrow);
        }
        if spread_bps > self.config.max_spread_bps {
            return Err(MakerSkipReason::SpreadTooWide);
        }
        let (qualifies_for_rewards, actual_size) = match reward_config {
            Some(config) => {
                if !config.active {
                    return Err(MakerSkipReason::RewardsNotActive);
                }
                if spread_bps > config.max_spread_bps {
                    return Err(MakerSkipReason::SpreadTooWide);
                }
                let size = order_size.max(config.min_size);
                (config.qualifies(size, spread_bps), size)
            },
            None => (false, order_size),
        };
        let imbalance = calculate_imbalance(book);
        if imbalance.abs() > self.config.max_imbalance_ratio {
            return Err(MakerSkipReason::ExtremeImbalance);
        }
        let side = if imbalance > Decimal::zero() {
            Side::Sell
        } else {
            Side::Buy
        };
        let price = match calculate_maker_price(book, side) {
            Some(price) => price,
            None => {
                return Err(MakerSkipReason::BookNotReady);
            },
        };
        let expected_rebate = match reward_config {
            Some(config) => if qualifies_for_rewards {
                config.daily_rate.times(self.config.estimated_pool_share)
            } else {
                Decimal::zero()
            },
            None => Decimal::zero(),
        };
        Ok(
            MakerOpportunity {
                event_id: event_id.to_owned(),
                token_id: book.token_id.clone(),
                side,
                price,
                size: actual_size,
                expected_rebate,
                spread_bps,
                qualifies_for_rewards,
                minutes_remaining,
                best_bid,
                best_ask,
                detected_at_ms: now_ms,
            },
        )
    }

    /// Whether the spread of a book is within the limits.
    pub open spec fn spread_allowed(self, book: OrderBook) -> bool {
        match book.spec_spread_bps() {
            Some(bps) => self.config.min_spread_bps <= bps <= self.config.max_spread_bps,
            None => false,
        }
    }

    /// Whether enough time remains and the spread of a book is within the limits.
    pub fn has_potential(&self, state: &MarketState) -> (r: bool)
        requires
            state.seconds_remaining >= self.config.min_seconds_remaining
                ==> state.yes_book.spread_fits() && (self.spread_allowed(state.yes_book)
                || state.no_book.spread_fits()),
        ensures
            r == (state.seconds_remaining >= self.config.min_seconds_remaining && (
            self.spread_allowed(state.yes_book) || self.spread_allowed(state.no_book))),
    {
        if state.seconds_remaining < self.config.min_seconds_remaining {
            return false;
        }
        if let Some(yes_spread) = state.yes_book.spread_bps() {
            if yes_spread >= self.config.min_spread_bps && yes_spread <= self.config.max_spread_bps {
                return true;
            }
        }
        if let Some(no_spread) = state.no_book.spread_bps() {
            if no_spread >= self.config.min_spread_bps && no_spread <= self.config.max_spread_bps {
                return true;
            }
        }
        false
    }

    /// Least order size for active rewards, else the default order size.
    pub fn min_order_size(&self, reward_config: Option<&RewardsConfig>) -> (r: Decimal)
        ensures
            r == match reward_config {
                Some(c) => if c.active {
                    c.min_size
                } else {
                    self.config.default_order_size
                },
                None => self.config.default_order_size,
            },
    {
        match reward_config {
            Some(c) => if c.active {
                c.min_size
            } else {
                self.config.default_order_size
            },
            None => self.config.default_order_size,
        }
    }
}

impl Default for MakerDetector {
    fn default() -> (r: MakerDetector)
        ensures
            r.config.min_seconds_remaining == 120,
            r.config.min_spread_bps == 50,
            r.config.max_spread_bps == 1000,
            r.config.default_order_size@ == units(50, 0),
            r.config.max_imbalance_ratio@ == units(80, 2),
            r.config.estimated_pool_share@ == units(1, 3),
    {
        MakerDetector::new()
    }
}

/// Best price of one side of the book.
pub open spec fn best_of(book: OrderBook, side: Side) -> Option<Decimal> {
    match side {
        Side::Buy => book.bid(),
        Side::Sell => book.ask(),
    }
}

/// Price of a resting order on one side of the book, in whole cents: the maker price, or the best
/// price of that side where the quotes allow for none.
pub open spec fn resting_price(book: OrderBook, side: Side) -> Option<int> {
    if priceable(book) {
        maker_price_of(book, side)
    } else {
        match best_of(book, side) {
            Some(best) => Some(to_places(best@, 2)),
            None => None,
        }
    }
}

/// Price of a resting order on one side of the book, in whole cents; nothing without a quote there.
pub fn calculate_maker_price(book: &OrderBook, side: Side) -> (r: Option<Decimal>)
    requires
        maker_price_fits(*book, side),
    ensures
        match r {
            Some(price) => best_of(*book, side) is Some && Some(price@) == resting_price(
                *book,
                side,
            ),
            None => best_of(*book, side) is None,
        },
{
    if let Some(result) = get_maker_price(book, side) {
        return Some(result.price);
    }
    let best = match side {
        Side::Buy => book.best_bid(),
        Side::Sell => book.best_ask(),
    };
    match best {
        Some(best) => Some(best.round_dp(2)),
        None => None,
    }
}

/// A market without potential has no maker opportunity.
pub proof fn law_potential_is_necessary(
    detector: MakerDetector,
    state: MarketState,
    rewards: Option<&RewardsConfig>,
)
    requires
        detector.skip_reason(state.yes_book, rewards) is None || detector.skip_reason(
            state.no_book,
            rewards,
        ) is None,
    ensures
        detector.spread_allowed(state.yes_book) || detector.spread_allowed(state.no_book),
{
}

/// An order goes where there is less: with more bids than asks it sells, otherwise it buys. It is
/// placed for the token of its book, at the best quotes that the book shows.
pub proof fn law_orders_go_to_the_thin_side(
    detector: MakerDetector,
    event_id: Seq<char>,
    book: OrderBook,
    rewards: Option<&RewardsConfig>,
    order_size: Decimal,
    minutes: int,
    now_ms: i64,
    o: MakerOpportunity,
)
    requires
        detector.book_fits(book, rewards),
        detector.skip_reason(book, rewards) is None,
        detector.describes(event_id, book, rewards, order_size, minutes, now_ms, o),
    ensures
        book.bids@.len() > 0 && book.asks@.len() > 0,
        o.side is Sell <==> imbalance(book)->0 > 0,
        crate::decimal::total(crate::types::level_sizes(book.bids@))->0 <= crate::decimal::total(
            crate::types::level_sizes(book.asks@),
        )->0 && depth_of_both(book)->0 > 0 ==> o.side is Buy,
        o.token_id == book.token_id,
        o.best_bid == book.bids@[0].price,
        o.best_ask == book.asks@[0].price,
        o.event_id@ == event_id,
        detector.config.min_spread_bps <= o.spread_bps <= detector.config.max_spread_bps,
        magnitude(imbalance(book))->0 <= detector.config.max_imbalance_ratio@,
{
    if depth_of_both(book)->0 > 0 {
        let a = book.bid_total()->0;
        let b = book.ask_total()->0;
        let d = difference(Some(a), Some(b))->0;
        crate::decimal::lemma_sign(a - b, 1);
        crate::decimal::lemma_quotient_sign(d, depth_of_both(book)->0);
    }
}

/// With active rewards an order is at least as large as they ask for, its spread is within theirs, and
/// a rebate is expected of it; without rewards it is as large as was wanted, and earns nothing.
pub proof fn law_rewards_shape_orders(
    detector: MakerDetector,
    event_id: Seq<char>,
    book: OrderBook,
    rewards: Option<&RewardsConfig>,
    order_size: Decimal,
    minutes: int,
    now_ms: i64,
    o: MakerOpportunity,
)
    requires
        detector.skip_reason(book, rewards) is None,
        detector.describes(event_id, book, rewards, order_size, minutes, now_ms, o),
    ensures
        rewards is None ==> o.size == order_size && !o.qualifies_for_rewards && o.expected_rebate@
            == 0,
        rewards is Some ==> {
            &&& rewards->0.active
            &&& o.spread_bps <= rewards->0.max_spread_bps
            &&& o.size@ >= rewards->0.min_size@
            &&& o.size@ >= order_size@
            &&& o.size@ == order_size@ || o.size@ == rewards->0.min_size@
            &&& o.qualifies_for_rewards
            &&& Some(o.expected_rebate@) == product(
                num(rewards->0.daily_rate),
                num(detector.config.estimated_pool_share),
            )
        },
{
}

/// Each reason for which a book is skipped holds of it.
pub proof fn law_skips_are_true(
    detector: MakerDetector,
    book: OrderBook,
    rewards: Option<&RewardsConfig>,
)
    ensures
        detector.skip_reason(book, rewards) == Some(MakerSkipReason::BookNotReady) <==>
            book.spec_spread_bps() is None,
        book.bids@.len() == 0 || book.asks@.len() == 0 ==> detector.skip_reason(book, rewards)
            == Some(MakerSkipReason::BookNotReady),
        detector.skip_reason(book, rewards) == Some(MakerSkipReason::SpreadTooNarrow) <==>
            book.spec_spread_bps() is Some && book.spec_spread_bps()->0
            < detector.config.min_spread_bps,
        detector.skip_reason(book, rewards) == Some(MakerSkipReason::SpreadTooWide) ==>
            book.spec_spread_bps()->0 > detector.config.max_spread_bps || (rewards is Some
            && book.spec_spread_bps()->0 > rewards->0.max_spread_bps),
        detector.skip_reason(book, rewards) == Some(MakerSkipReason::RewardsNotActive) ==>
            rewards is Some && !rewards->0.active,
        detector.skip_reason(book, rewards) == Some(MakerSkipReason::ExtremeImbalance) ==> magnitude(
            imbalance(book),
        )->0 > detector.config.max_imbalance_ratio@,
{
}

/// Both books of a market are looked at in the same way: with the two trading places the same orders
/// come out, in the other order. With too little time there are none.
pub proof fn law_both_books_are_looked_at(
    detector: MakerDetector,
    a: MarketState,
    b: MarketState,
    rewards: Option<&RewardsConfig>,
    size: Option<Decimal>,
    now_ms: i64,
    x: Seq<MakerOpportunity>,
    y: Seq<MakerOpportunity>,
)
    requires
        b == (MarketState { yes_book: a.no_book, no_book: a.yes_book, ..a }),
        detector.detects(a, rewards, size, now_ms, x),
        detector.detects(b, rewards, size, now_ms, y),
    ensures
        x.len() == y.len(),
        x.len() <= 2,
        a.seconds_remaining < detector.config.min_seconds_remaining ==> x.len() == 0,
        a.seconds_remaining >= detector.config.min_seconds_remaining && detector.skip_reason(
            a.yes_book,
            rewards,
        ) is None ==> x.len() > 0 && x[0].token_id == a.yes_book.token_id,
        a.seconds_remaining >= detector.config.min_seconds_remaining && detector.skip_reason(
            a.no_book,
            rewards,
        ) is None ==> x.len() > 0 && x.last().token_id == a.no_book.token_id,
        x.len() == 2 ==> {
            &&& x[0].side == y[1].side && x[1].side == y[0].side
            &&& x[0].price@ == y[1].price@ && x[1].price@ == y[0].price@
            &&& x[0].size == y[1].size && x[1].size == y[0].size
        },
{
}

/// Where the quotes allow for no maker price, an order rests at the cents nearest to the best price of
/// its own side: a buy at the bid, a sale at the ask.
pub proof fn law_orders_rest_on_their_own_side(book: OrderBook)
    requires
        !priceable(book),
    ensures
        book.bids@.len() > 0 ==> resting_price(book, Side::Buy) is Some && 2 * (resting_price(
            book,
            Side::Buy,
        )->0 - book.bids@[0].price@) <= units(1, 2) && 2 * (book.bids@[0].price@ - resting_price(
            book,
            Side::Buy,
        )->0) <= units(1, 2),
        book.asks@.len() > 0 ==> resting_price(book, Side::Sell) is Some && 2 * (resting_price(
            book,
            Side::Sell,
        )->0 - book.asks@[0].price@) <= units(1, 2) && 2 * (book.asks@[0].price@ - resting_price(
            book,
            Side::Sell,
        )->0) <= units(1, 2),
        book.bids@.len() == 0 ==> resting_price(book, Side::Buy) is None,
        book.asks@.len() == 0 ==> resting_price(book, Side::Sell) is None,
{
    assert(units(1, 2) == crate::decimal::pow10(26));
    if book.bids@.len() > 0 {
        crate::decimal::lemma_to_places_near(book.bids@[0].price@, 2);
    }
    if book.asks@.len() > 0 {
        crate::decimal::lemma_to_places_near(book.asks@[0].price@, 2);
    }
}

/// The spread of an opportunity is what lies between its quotes, over their mean.
pub proof fn law_spread_of_an_opportunity(o: MakerOpportunity, middle: int, ratio: int)
    requires
        2 * middle == o.best_bid@ + o.best_ask@,
        middle > 0,
        (o.best_ask@ - o.best_bid@) * crate::decimal::pow10(28) == middle * ratio,
        crate::decimal::representable(middle),
        crate::decimal::representable(ratio),
        crate::decimal::representable(o.best_bid@ + o.best_ask@),
        crate::decimal::representable(o.best_ask@ - o.best_bid@),
        o.spec_spread_ratio() is Some,
    ensures
        o.mid() == Some(middle),
        o.spec_spread_ratio() == Some(ratio),
{
    let bid = o.best_bid@;
    let ask = o.best_ask@;
    let p = crate::decimal::pow10(28);
    crate::decimal::lemma_unrounded(bid + ask);
    crate::decimal::lemma_unrounded(ask - bid);
    assert((bid + ask) * p == (2 * p) * middle) by (nonlinear_arith)
        requires
            2 * middle == bid + ask,
    ;
    crate::decimal::lemma_exact_value((bid + ask) * p, 2 * p, middle);
    crate::decimal::lemma_exact_value((ask - bid) * p, middle, ratio);
}

} // verus!
