//! Directional opportunities: markets whose spot price has moved away from the strike.

use vstd::prelude::*;
use crate::confidence::{
    Confidence, ConfidenceCalculator, ConfidenceFactors, book_confidence_at,
    distance_confidence_at, signal_confidence_of, time_confidence_at,
};
use crate::decimal::{
    Decimal, difference, divided_by, lit, magnitude, minutes_in, minutes_of, num, quotient,
    representable, sum, units,
};
use crate::signal::{Signal, calculate_distance, distance_ratio, get_signal, signal_at};
use crate::types::{MarketState, OrderBook, calculate_imbalance, depth_of_both, imbalance};

verus! {

/// Why there is no directional opportunity.
#[derive(Clone, Copy, Debug, PartialEq, Eq, Structural)]
pub enum DirectionalSkipReason {
    /// The signal points neither up nor down.
    NeutralSignal,
    /// The spot price is not known.
    NoSpotPrice,
    /// The strike is zero.
    InvalidStrike,
    /// A best ask is missing.
    BookNotReady,
    /// Too little time remains.
    InsufficientTime,
    /// The spread is too wide.
    SpreadTooWide,
    /// A pair costs less than 0.98: one side has not been updated.
    StalePrices,
}

impl DirectionalSkipReason {
    /// The reason in words.
    pub open spec fn spec_text(self) -> Seq<char> {
        match self {
            DirectionalSkipReason::NeutralSignal => "neutral signal"@,
            DirectionalSkipReason::NoSpotPrice => "no spot price"@,
            DirectionalSkipReason::InvalidStrike => "invalid strike"@,
            DirectionalSkipReason::BookNotReady => "book not ready"@,
            DirectionalSkipReason::InsufficientTime => "insufficient time"@,
            DirectionalSkipReason::SpreadTooWide => "spread too wide"@,
            DirectionalSkipReason::StalePrices => "stale prices"@,
        }
    }

    /// The reason in words.
    pub fn to_string(&self) -> (r: String)
        ensures
            r@ == self.spec_text(),
    {
        match self {
            DirectionalSkipReason::NeutralSignal => "neutral signal".to_owned(),
            DirectionalSkipReason::NoSpotPrice => "no spot price".to_owned(),
            DirectionalSkipReason::InvalidStrike => "invalid strike".to_owned(),
            DirectionalSkipReason::BookNotReady => "book not ready".to_owned(),
            DirectionalSkipReason::InsufficientTime => "insufficient time".to_owned(),
            DirectionalSkipReason::SpreadTooWide => "spread too wide".to_owned(),
            DirectionalSkipReason::StalePrices => "stale prices".to_owned(),
        }
    }
}

/// A directional opportunity.
#[derive(Debug)]
pub struct DirectionalOpportunity {
    pub event_id: String,
    pub yes_token_id: String,
    pub no_token_id: String,
    pub signal: Signal,
    /// Factors for sizing.
    pub confidence: Confidence,
    pub spot_price: Decimal,
    pub strike_price: Decimal,
    /// Distance of the price from the strike, as a ratio.
    pub distance: Decimal,
    pub minutes_remaining: Decimal,
    /// Best YES ask.
    pub yes_ask: Decimal,
    /// Best NO ask.
    pub no_ask: Decimal,
    /// Cost of a YES and NO pair.
    pub combined_cost: Decimal,
    /// Imbalance of the YES book, -1 to +1.
    pub yes_imbalance: Decimal,
    /// Imbalance of the NO book, -1 to +1.
    pub no_imbalance: Decimal,
    /// Time of detection in milliseconds.
    pub detected_at_ms: i64,
    /// How much further Binance has moved from its price at window open than Chainlink.
    pub binance_lead: Option<Decimal>,
}

impl Clone for DirectionalOpportunity {
    fn clone(&self) -> (r: DirectionalOpportunity)
        ensures
            r == *self,
    {
        DirectionalOpportunity {
            event_id: self.event_id.clone(),
            yes_token_id: self.yes_token_id.clone(),
            no_token_id: self.no_token_id.clone(),
            signal: self.signal,
            confidence: self.confidence,
            spot_price: self.spot_price,
            strike_price: self.strike_price,
            distance: self.distance,
            minutes_remaining: self.minutes_remaining,
            yes_ask: self.yes_ask,
            no_ask: self.no_ask,
            combined_cost: self.combined_cost,
            yes_imbalance: self.yes_imbalance,
            no_imbalance: self.no_imbalance,
            detected_at_ms: self.detected_at_ms,
            binance_lead: self.binance_lead,
        }
    }
}

impl DirectionalOpportunity {
    /// Price of the side that the signal favours; the mean of both for a neutral signal.
    pub open spec fn spec_favorable_price(self) -> Option<int> {
        if self.signal.is_up() {
            num(self.yes_ask)
        } else if self.signal.is_down() {
            num(self.no_ask)
        } else {
            quotient(sum(num(self.yes_ask), num(self.no_ask)), lit(2, 0))
        }
    }

    /// Profit of a pair: one less its cost.
    pub fn expected_profit(&self) -> (r: Decimal)
        requires
            difference(lit(1, 0), num(self.combined_cost)) is Some,
        ensures
            Some(r@) == difference(lit(1, 0), num(self.combined_cost)),
    {
        Decimal::one().minus(self.combined_cost)
    }

    /// Price of the side that the signal favours.
    pub fn favorable_price(&self) -> (r: Decimal)
        requires
            self.spec_favorable_price() is Some,
        ensures
            Some(r@) == self.spec_favorable_price(),
    {
        match self.signal {
            Signal::StrongUp | Signal::LeanUp => self.yes_ask,
            Signal::StrongDown | Signal::LeanDown => self.no_ask,
            Signal::Neutral => self.yes_ask.plus(self.no_ask).over(Decimal::new(2, 0)),
        }
    }

    /// Whether the signal is strong.
    pub fn is_strong(&self) -> (r: bool)
        ensures
            r == (self.signal is StrongUp || self.signal is StrongDown),
    {
        self.signal.is_strong()
    }

    /// Multiplier for sizing, from the scaled fourth root of the factors' product.
    pub fn confidence_multiplier(&self, scaled_root: Decimal) -> (r: Decimal)
        ensures
            Some(r@) == crate::decimal::clamped(num(scaled_root), lit(5, 1), lit(3, 0)),
    {
        self.confidence.total_multiplier(scaled_root)
    }
}

/// Settings of the directional detector.
#[derive(Clone, Copy, Debug)]
pub struct DirectionalConfig {
    /// Least number of seconds remaining.
    pub min_seconds_remaining: i64,
    /// Cost of a pair up to which it pays without a signal.
    pub max_combined_cost: Decimal,
    /// Widest spread, as a ratio of the ask.
    pub max_spread_ratio: Decimal,
    /// Depth wanted on the favoured side, in dollars. It is only carried along: no book is skipped
    /// for it.
    pub min_favorable_depth: Decimal,
}

impl Default for DirectionalConfig {
    fn default() -> (r: DirectionalConfig)
        ensures
            r.min_seconds_remaining == 60,
            r.max_combined_cost@ == units(995, 3),
            r.max_spread_ratio@ == units(10, 2),
            r.min_favorable_depth@ == units(100, 0),
    {
        DirectionalConfig {
            min_seconds_remaining: 60,
            max_combined_cost: Decimal::new(995, 3),
            max_spread_ratio: Decimal::new(10, 2),
            min_favorable_depth: Decimal::new(100, 0),
        }
    }
}

/// Spread of a book as a ratio of its ask.
pub open spec fn ask_spread(book: OrderBook) -> Option<int> {
    divided_by(difference(num(book.ask()->0), num(book.bid()->0)), book.ask()->0)
}

/// Price that decides the signal: Chainlink's where it is known, else the spot price.
pub open spec fn signal_price(state: MarketState) -> Decimal {
    match state.chainlink_price {
        Some(p) => p,
        None => state.spot_price->0,
    }
}

/// Strike that decides the signal: Chainlink's where it is known, else the market's.
pub open spec fn signal_strike(state: MarketState) -> Decimal {
    match state.chainlink_strike {
        Some(p) => p,
        None => state.strike_price,
    }
}

/// Distance that decides the signal.
pub open spec fn signal_distance(state: MarketState) -> Option<int> {
    distance_ratio(signal_price(state), signal_strike(state))
}

/// The same distance in dollars.
pub open spec fn distance_dollars(state: MarketState) -> Option<int> {
    magnitude(difference(num(signal_price(state)), num(signal_strike(state))))
}

/// Signal of the market.
pub open spec fn market_signal(state: MarketState) -> Signal {
    signal_at(signal_distance(state)->0, minutes_in(state.seconds_remaining)->0)
}

/// Imbalance in favour of the signal.
pub open spec fn favorable_imbalance(state: MarketState) -> int {
    if market_signal(state).is_up() {
        imbalance(state.yes_book)->0
    } else {
        -imbalance(state.no_book)->0
    }
}

/// Ask depth of the side that the signal favours.
pub open spec fn favorable_depth(state: MarketState) -> Option<int> {
    if market_signal(state).is_up() {
        state.yes_book.ask_total()
    } else {
        state.no_book.ask_total()
    }
}

/// Whether the prices that a lead is made of are known.
pub open spec fn lead_known(state: MarketState) -> bool {
    state.chainlink_price is Some && state.chainlink_strike is Some && state.binance_at_open is Some
}

/// How much further Binance has moved from its open than Chainlink from its strike.
pub open spec fn lead_of(state: MarketState) -> Option<int> {
    difference(
        distance_ratio(state.spot_price->0, state.binance_at_open->0),
        distance_ratio(state.chainlink_price->0, state.chainlink_strike->0),
    )
}

/// Detector of directional opportunities.
#[derive(Clone, Copy, Debug)]
pub struct DirectionalDetector {
    pub config: DirectionalConfig,
}

impl DirectionalDetector {
    /// Whether spot price, strike, time and asks are there.
    pub open spec fn ready(self, state: MarketState) -> bool {
        &&& state.spot_price is Some
        &&& state.strike_price@ != 0
        &&& state.seconds_remaining >= self.config.min_seconds_remaining
        &&& state.yes_book.ask() is Some
        &&& state.no_book.ask() is Some
    }

    /// Whether both books have bids, and one of them a spread above the limit.
    pub open spec fn too_wide(self, state: MarketState) -> bool {
        &&& state.yes_book.bid() is Some
        &&& state.no_book.bid() is Some
        &&& (ask_spread(state.yes_book)->0 > self.config.max_spread_ratio@ || ask_spread(
            state.no_book,
        )->0 > self.config.max_spread_ratio@)
    }

    /// Why the market is skipped.
    pub open spec fn skip_reason(self, state: MarketState) -> Option<DirectionalSkipReason> {
        if state.spot_price is None {
            Some(DirectionalSkipReason::NoSpotPrice)
        } else if state.strike_price@ == 0 {
            Some(DirectionalSkipReason::InvalidStrike)
        } else if state.seconds_remaining < self.config.min_seconds_remaining {
            Some(DirectionalSkipReason::InsufficientTime)
        } else if state.yes_book.ask() is None || state.no_book.ask() is None {
            Some(DirectionalSkipReason::BookNotReady)
        } else if self.too_wide(state) {
            Some(DirectionalSkipReason::SpreadTooWide)
        } else if state.pair_cost()->0 < units(98, 2) {
            Some(DirectionalSkipReason::StalePrices)
        } else if market_signal(state) is Neutral {
            Some(DirectionalSkipReason::NeutralSignal)
        } else {
            None
        }
    }

    /// Whether the arithmetic of `detect` stays within range.
    pub open spec fn detect_fits(self, state: MarketState) -> bool {
        self.ready(state) ==> {
            &&& state.yes_book.bid() is Some && state.no_book.bid() is Some ==> ask_spread(
                state.yes_book,
            ) is Some && ask_spread(state.no_book) is Some
            &&& !self.too_wide(state) ==> state.pair_cost() is Some
            &&& !self.too_wide(state) && state.pair_cost()->0 >= units(98, 2) ==> signal_distance(
                state,
            ) is Some
            &&& self.skip_reason(state) is None ==> {
                &&& distance_dollars(state) is Some
                &&& depth_of_both(state.yes_book) is Some && imbalance(state.yes_book) is Some
                &&& depth_of_both(state.no_book) is Some && imbalance(state.no_book) is Some
                &&& lead_known(state) ==> lead_of(state) is Some
            }
        }
    }

    /// Whether `o` describes the opportunity in the market.
    pub open spec fn describes(
        self,
        state: MarketState,
        now_ms: i64,
        o: DirectionalOpportunity,
    ) -> bool {
        &&& o.event_id == state.event_id
        &&& o.yes_token_id == state.yes_book.token_id
        &&& o.no_token_id == state.no_book.token_id
        &&& o.signal == market_signal(state)
        &&& o.confidence.time@ == time_confidence_at(
            minutes_in(state.seconds_remaining)->0,
            distance_dollars(state)->0,
        )
        &&& o.confidence.distance@ == distance_confidence_at(distance_dollars(state)->0)
        &&& o.confidence.signal@ == signal_confidence_of(market_signal(state))
        &&& o.confidence.book@ == book_confidence_at(
            favorable_imbalance(state),
            favorable_depth(state)->0,
        )
        &&& Some(o.spot_price) == state.spot_price
        &&& o.strike_price == state.strike_price
        &&& Some(o.distance@) == signal_distance(state)
        &&& Some(o.minutes_remaining@) == minutes_in(state.seconds_remaining)
        &&& Some(o.yes_ask) == state.yes_book.ask()
        &&& Some(o.no_ask) == state.no_book.ask()
        &&& Some(o.combined_cost@) == state.pair_cost()
        &&& Some(o.yes_imbalance@) == imbalance(state.yes_book)
        &&& Some(o.no_imbalance@) == imbalance(state.no_book)
        &&& o.detected_at_ms == now_ms
        &&& match o.binance_lead {
            Some(lead) => lead_known(state) && Some(lead@) == lead_of(state),
            None => !lead_known(state),
        }
    }

    /// A detector with default settings.
    pub fn new() -> (r: DirectionalDetector)
        ensures
            r.config.min_seconds_remaining == 60,
            r.config.max_combined_cost@ == units(995, 3),
            r.config.max_spread_ratio@ == units(10, 2),
            r.config.min_favorable_depth@ == units(100, 0),
    {
        DirectionalDetector { config: DirectionalConfig::default() }
    }

    /// A detector with the given settings.
    pub fn with_config(config: DirectionalConfig) -> (r: DirectionalDetector)
        ensures
            r.config == config,
    {
        DirectionalDetector { config }
    }

    /// Looks for a directional opportunity in the market at the time `now_ms`.
    pub fn detect(&self, state: &MarketState, now_ms: i64) -> (r: Result<
        DirectionalOpportunity,
        DirectionalSkipReason,
    >)
        requires
            self.detect_fits(*state),
        ensures
            match r {
                Ok(o) => self.skip_reason(*state) is None && self.describes(*state, now_ms, o),
                Err(reason) => self.skip_reason(*state) == Some(reason),
            },
    {
        let spot_price = match state.spot_price {
            Some(p) => p,
            None => {
                return Err(DirectionalSkipReason::NoSpotPrice);
            },
        };
        if state.strike_price.is_zero() {
            return Err(DirectionalSkipReason::InvalidStrike);
        }
        if state.seconds_remaining < self.config.min_seconds_remaining {
            return Err(DirectionalSkipReason::InsufficientTime);
        }
        let (yes_ask, no_ask) = match (state.yes_book.best_ask(), state.no_book.best_ask()) {
            (Some(yes), Some(no)) => (yes, no),
            _ => {
                return Err(DirectionalSkipReason::BookNotReady);
            },
        };
        if let (Some(yes_bid), Some(no_bid)) = (state.yes_book.best_bid(), state.no_book.best_bid()) {
            let yes_spread = yes_ask.minus(yes_bid).over(yes_ask);
            let no_spread = no_ask.minus(no_bid).over(no_ask);
            if yes_spread > self.config.max_spread_ratio || no_spread > self.config.max_spread_ratio {
                return Err(DirectionalSkipReason::SpreadTooWide);
            }
        }
        let combined_cost = yes_ask.plus(no_ask);
        if combined_cost < Decimal::new(98, 2) {
            return Err(DirectionalSkipReason::StalePrices);
        }
        let price = state.chainlink_price.unwrap_or(spot_price);
        let strike = state.chainlink_strike.unwrap_or(state.strike_price);
        let minutes_remaining = minutes_of(state.seconds_remaining);
        let signal = get_signal(price, strike, minutes_remaining);
        if !signal.is_directional() {
            return Err(DirectionalSkipReason::NeutralSignal);
        }
        let distance = calculate_distance(price, strike);
        let dollars = price.minus(strike).abs();
        let yes_imbalance = calculate_imbalance(&state.yes_book);
        let no_imbalance = calculate_imbalance(&state.no_book);
        let book_imbalance = if signal.points_up() {
            yes_imbalance
        } else {
            no_imbalance.neg()
        };
        let depth = if signal.points_up() {
            state.yes_book.ask_depth()
        } else {
            state.no_book.ask_depth()
        };
        let factors = ConfidenceFactors::new(
            dollars,
            minutes_remaining,
            signal,
            book_imbalance,
            depth,
        );
        let confidence = ConfidenceCalculator::calculate(&factors);
        let binance_lead = match (
            state.chainlink_price,
            state.chainlink_strike,
            state.binance_at_open,
        ) {
            (Some(cl), Some(cl_strike), Some(bn_open)) => {
                let binance_delta = calculate_distance(spot_price, bn_open);
                let chainlink_delta = calculate_distance(cl, cl_strike);
                Some(binance_delta.minus(chainlink_delta))
            },
            _ => None,
        };
        Ok(
            DirectionalOpportunity {
                event_id: state.event_id.clone(),
                yes_token_id: state.yes_book.token_id.clone(),
                no_token_id: state.no_book.token_id.clone(),
                signal,
                confidence,
                spot_price,
                strike_price: state.strike_price,
                distance,
                minutes_remaining,
                yes_ask,
                no_ask,
                combined_cost,
                yes_imbalance,
                no_imbalance,
                detected_at_ms: now_ms,
                binance_lead,
            },
        )
    }

    /// Whether spot price, asks and enough time are there.
    pub fn has_potential(&self, state: &MarketState) -> (r: bool)
        ensures
            r == (state.spot_price is Some && state.yes_book.ask() is Some && state.no_book.ask() is Some
                && state.seconds_remaining >= self.config.min_seconds_remaining),
    {
        if state.spot_price.is_none() {
            return false;
        }
        if state.yes_book.best_ask().is_none() || state.no_book.best_ask().is_none() {
            return false;
        }
        if state.seconds_remaining < self.config.min_seconds_remaining {
            return false;
        }
        true
    }
}

impl Default for DirectionalDetector {
    fn default() -> (r: DirectionalDetector)
        ensures
            r.config.min_seconds_remaining == 60,
            r.config.max_combined_cost@ == units(995, 3),
            r.config.max_spread_ratio@ == units(10, 2),
            r.config.min_favorable_depth@ == units(100, 0),
    {
        DirectionalDetector::new()
    }
}

/// A market without potential is never an opportunity.
pub proof fn law_potential_is_necessary(detector: DirectionalDetector, state: MarketState)
    requires
        detector.skip_reason(state) is None,
    ensures
        state.spot_price is Some,
        state.yes_book.ask() is Some,
        state.no_book.ask() is Some,
        state.seconds_remaining >= detector.config.min_seconds_remaining,
{
}

/// The favoured price is the ask of what the signal buys: YES on the way up, NO on the way down.
pub proof fn law_favored_price_is_of_the_bought_side(o: DirectionalOpportunity)
    ensures
        o.signal is StrongUp || o.signal is LeanUp ==> o.spec_favorable_price() == Some(
            o.yes_ask@,
        ),
        o.signal is StrongDown || o.signal is LeanDown ==> o.spec_favorable_price() == Some(
            o.no_ask@,
        ),
        o.signal is Neutral && representable(o.yes_ask@) && o.yes_ask@ == o.no_ask@
            && representable(2 * o.yes_ask@) ==> o.spec_favorable_price() == Some(o.yes_ask@),
{
    if representable(2 * o.yes_ask@) && representable(o.yes_ask@) {
        let p = crate::decimal::pow10(28);
        let v = o.yes_ask@;
        crate::decimal::law_arithmetic_is_exact(v, v);
        assert((2 * v) * p == units(2, 0) * v) by (nonlinear_arith)
            requires
                units(2, 0) == 2 * p,
        ;
        crate::decimal::lemma_exact_value((2 * v) * p, units(2, 0), v);
    }
}

/// Chainlink settles the market and so decides the signal: with its price known, an opportunity
/// points up only where that price is above the strike that counts, and down only where it is below;
/// at the strike there is none, whatever the spot price is. The strike that counts is Chainlink's,
/// where it is known.
pub proof fn law_chainlink_decides(
    detector: DirectionalDetector,
    state: MarketState,
    now_ms: i64,
    o: DirectionalOpportunity,
)
    requires
        detector.detect_fits(state),
        detector.skip_reason(state) is None,
        detector.describes(state, now_ms, o),
    ensures
        ({
            let price = if state.chainlink_price is Some {
                state.chainlink_price->0
            } else {
                state.spot_price->0
            };
            let strike = if state.chainlink_strike is Some {
                state.chainlink_strike->0
            } else {
                state.strike_price
            };
            strike@ > 0 ==> {
                &&& (o.signal is StrongUp || o.signal is LeanUp) <==> price@ > strike@
                &&& (o.signal is StrongDown || o.signal is LeanDown) <==> price@ < strike@
                &&& price@ != strike@
                &&& Some(o.distance@) == divided_by(difference(num(price), num(strike)), strike)
            }
        }),
        state.spot_price is Some && o.spot_price == state.spot_price->0,
        o.strike_price == state.strike_price,
{
    let price = signal_price(state);
    let strike = signal_strike(state);
    if strike@ > 0 {
        crate::signal::law_signal_follows_the_price(
            price,
            strike,
            minutes_in(state.seconds_remaining)->0,
        );
    }
}

/// With the Chainlink price known, the spot price changes neither signal, distance nor confidence.
pub proof fn law_spot_price_does_not_decide(
    detector: DirectionalDetector,
    a: MarketState,
    b: MarketState,
    now_ms: i64,
    x: DirectionalOpportunity,
    y: DirectionalOpportunity,
)
    requires
        a.chainlink_price is Some,
        a.spot_price is Some && b.spot_price is Some,
        b == (MarketState { spot_price: b.spot_price, ..a }),
        detector.describes(a, now_ms, x),
        detector.describes(b, now_ms, y),
    ensures
        detector.skip_reason(a) == detector.skip_reason(b),
        x.signal == y.signal,
        x.distance@ == y.distance@,
        x.confidence.time@ == y.confidence.time@,
        x.confidence.distance@ == y.confidence.distance@,
        x.confidence.signal@ == y.confidence.signal@,
        x.confidence.book@ == y.confidence.book@,
{
}

/// Of the two books, the one that the signal buys from counts for confidence: the depth of the YES
/// asks and the YES imbalance on the way up, the depth of the NO asks and the NO imbalance on the
/// way down. The other book does not matter to it.
pub proof fn law_the_bought_book_counts(
    detector: DirectionalDetector,
    a: MarketState,
    b: MarketState,
    now_ms: i64,
    x: DirectionalOpportunity,
    y: DirectionalOpportunity,
)
    requires
        detector.describes(a, now_ms, x),
        detector.describes(b, now_ms, y),
        b == (MarketState { yes_book: b.yes_book, no_book: b.no_book, ..a }),
        x.signal is StrongUp || x.signal is LeanUp ==> b.yes_book == a.yes_book,
        x.signal is StrongDown || x.signal is LeanDown ==> b.no_book == a.no_book,
        !(x.signal is Neutral),
    ensures
        y.signal == x.signal,
        y.confidence.book@ == x.confidence.book@,
        y.confidence.time@ == x.confidence.time@,
        y.confidence.distance@ == x.confidence.distance@,
{
}

/// The book factor of an opportunity is that of the imbalance and depth on the side it buys; a DOWN
/// trade reads the imbalance of the NO book with its sign turned.
pub proof fn law_book_factor_of_an_opportunity(
    detector: DirectionalDetector,
    state: MarketState,
    now_ms: i64,
    o: DirectionalOpportunity,
)
    requires
        detector.describes(state, now_ms, o),
    ensures
        o.signal is StrongUp || o.signal is LeanUp ==> o.confidence.book@ == book_confidence_at(
            o.yes_imbalance@,
            crate::decimal::total(crate::types::level_sizes(state.yes_book.asks@))->0,
        ),
        o.signal is StrongDown || o.signal is LeanDown ==> o.confidence.book@
            == book_confidence_at(
            -o.no_imbalance@,
            crate::decimal::total(crate::types::level_sizes(state.no_book.asks@))->0,
        ),
        o.yes_token_id == state.yes_book.token_id,
        o.no_token_id == state.no_book.token_id,
        state.yes_book.asks@.len() > 0 ==> o.yes_ask == state.yes_book.asks@[0].price,
        state.no_book.asks@.len() > 0 ==> o.no_ask == state.no_book.asks@[0].price,
{
}

/// The lead of Binance is how much further it has moved from its own opening than Chainlink from
/// its own: none where both have moved alike, and known only with all three prices.
pub proof fn law_lead_compares_moves(
    detector: DirectionalDetector,
    state: MarketState,
    now_ms: i64,
    o: DirectionalOpportunity,
)
    requires
        detector.describes(state, now_ms, o),
        state.spot_price is Some,
    ensures
        o.binance_lead is Some <==> state.chainlink_price is Some && state.chainlink_strike is Some
            && state.binance_at_open is Some,
        o.binance_lead is Some ==> {
            let binance = distance_ratio(state.spot_price->0, state.binance_at_open->0)->0;
            let chainlink = distance_ratio(
                state.chainlink_price->0,
                state.chainlink_strike->0,
            )->0;
            &&& binance >= chainlink ==> o.binance_lead->0@ >= 0
            &&& binance <= chainlink ==> o.binance_lead->0@ <= 0
            &&& representable(binance - chainlink) ==> o.binance_lead->0@ == binance - chainlink
        },
{
    if o.binance_lead is Some {
        let binance = distance_ratio(state.spot_price->0, state.binance_at_open->0)->0;
        let chainlink = distance_ratio(state.chainlink_price->0, state.chainlink_strike->0)->0;
        crate::decimal::lemma_sign(binance - chainlink, 1);
        crate::decimal::law_arithmetic_is_exact(binance, chainlink);
    }
}

/// Either book can be too wide, and either side can be missing: with the two books trading places a
/// market is skipped for its books in the same cases.
pub proof fn law_either_book_can_spoil(
    detector: DirectionalDetector,
    a: MarketState,
    b: MarketState,
)
    requires
        b == (MarketState { yes_book: a.no_book, no_book: a.yes_book, ..a }),
    ensures
        detector.skip_reason(a) == detector.skip_reason(b),
{
    let x = a.yes_book.ask()->0@;
    let y = a.no_book.ask()->0@;
    assert(x + y == y + x);
}

/// Each reason for which a market is skipped holds of it.
pub proof fn law_skips_are_true(detector: DirectionalDetector, state: MarketState)
    ensures
        detector.skip_reason(state) == Some(DirectionalSkipReason::NoSpotPrice) <==>
            state.spot_price is None,
        detector.skip_reason(state) == Some(DirectionalSkipReason::InvalidStrike) ==>
            state.strike_price@ == 0,
        detector.skip_reason(state) == Some(DirectionalSkipReason::InsufficientTime) ==>
            state.seconds_remaining < detector.config.min_seconds_remaining,
        detector.skip_reason(state) == Some(DirectionalSkipReason::BookNotReady) ==>
            state.yes_book.asks@.len() == 0 || state.no_book.asks@.len() == 0,
        detector.skip_reason(state) == Some(DirectionalSkipReason::StalePrices) ==> sum(
            num(state.yes_book.asks@[0].price),
            num(state.no_book.asks@[0].price),
        )->0 < units(98, 2),
        detector.skip_reason(state) is None ==> state.spot_price is Some && state.strike_price@ != 0
            && state.seconds_remaining >= detector.config.min_seconds_remaining
            && state.yes_book.asks@.len() > 0 && state.no_book.asks@.len() > 0 && sum(
            num(state.yes_book.asks@[0].price),
            num(state.no_book.asks@[0].price),
        )->0 >= units(98, 2),
        detector.skip_reason(state) is None && state.yes_book.bids@.len() > 0
            && state.no_book.bids@.len() > 0 ==> {
            let yes = state.yes_book;
            let no = state.no_book;
            &&& divided_by(
                difference(num(yes.asks@[0].price), num(yes.bids@[0].price)),
                yes.asks@[0].price,
            )->0 <= detector.config.max_spread_ratio@
            &&& divided_by(
                difference(num(no.asks@[0].price), num(no.bids@[0].price)),
                no.asks@[0].price,
            )->0 <= detector.config.max_spread_ratio@
        },
{
}

/// The distance that confidence goes by is how far the price that decides is from the strike that
/// counts, in dollars, on either side.
pub proof fn law_distance_of_an_opportunity(
    detector: DirectionalDetector,
    state: MarketState,
    now_ms: i64,
    o: DirectionalOpportunity,
)
    requires
        detector.describes(state, now_ms, o),
        state.chainlink_price is Some,
        state.chainlink_strike is Some,
        representable(state.chainlink_price->0@ - state.chainlink_strike->0@),
    ensures
        ({
            let away = state.chainlink_price->0@ - state.chainlink_strike->0@;
            &&& away >= 0 ==> o.confidence.distance@ == distance_confidence_at(away)
            &&& away < 0 ==> o.confidence.distance@ == distance_confidence_at(-away)
        }),
{
    crate::decimal::law_arithmetic_is_exact(
        state.chainlink_price->0@,
        state.chainlink_strike->0@,
    );
}

} // verus!
