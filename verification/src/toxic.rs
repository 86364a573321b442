//! Toxic flow: orders that hint at informed traders.
//!
//! An order is suspicious if it is many times larger than the rolling average of its token, comes
//! right after the previous one, or moves the best price. The more of these hold, the more severe.

use std::collections::VecDeque;
use vstd::prelude::*;
use crate::decimal::{
    Decimal, difference, divided, divided_by, lit, magnitude, num, product, quotient, sum, units,
    whole_u32,
};
use crate::table::Table;
use crate::types::Side;

verus! {

/// Settings of the detector.
#[derive(Clone, Copy, Debug)]
pub struct ToxicFlowConfig {
    /// Multiple of the average from which an order is large.
    pub size_multiplier_threshold: Decimal,
    /// Milliseconds within which an order is sudden.
    pub sudden_appearance_ms: u64,
    /// Number of orders in the rolling average.
    pub rolling_window_size: usize,
    /// Number of orders before anything is reported.
    pub min_samples: usize,
    /// Move of the best price, in basis points, that counts.
    pub bbo_shift_threshold_bps: u32,
}

impl Default for ToxicFlowConfig {
    fn default() -> (r: ToxicFlowConfig)
        ensures
            r.size_multiplier_threshold@ == units(50, 0),
            r.sudden_appearance_ms == 500,
            r.rolling_window_size == 100,
            r.min_samples == 10,
            r.bbo_shift_threshold_bps == 100,
    {
        ToxicFlowConfig {
            size_multiplier_threshold: Decimal::new(50, 0),
            sudden_appearance_ms: 500,
            rolling_window_size: 100,
            min_samples: 10,
            bbo_shift_threshold_bps: 100,
        }
    }
}

/// How severe a warning is.
#[derive(Clone, Copy, Debug, PartialEq, Eq, Structural)]
pub enum ToxicSeverity {
    Low,
    Medium,
    High,
    Critical,
}

impl ToxicSeverity {
    /// Score from 0 to 100.
    pub open spec fn spec_score(self) -> u8 {
        match self {
            ToxicSeverity::Low => 25,
            ToxicSeverity::Medium => 50,
            ToxicSeverity::High => 75,
            ToxicSeverity::Critical => 100,
        }
    }

    /// Whether trading stops.
    pub open spec fn blocks(self) -> bool {
        self is High || self is Critical
    }

    /// Share of the order size that remains, in percent.
    pub open spec fn size_percent(self) -> int {
        match self {
            ToxicSeverity::Low => 75,
            ToxicSeverity::Medium => 50,
            ToxicSeverity::High => 25,
            ToxicSeverity::Critical => 0,
        }
    }

    /// Score from 0 to 100.
    pub fn score(&self) -> (r: u8)
        ensures
            r == self.spec_score(),
    {
        match self {
            ToxicSeverity::Low => 25,
            ToxicSeverity::Medium => 50,
            ToxicSeverity::High => 75,
            ToxicSeverity::Critical => 100,
        }
    }

    /// Whether trading stops.
    pub fn should_block_trading(&self) -> (r: bool)
        ensures
            r == self.blocks(),
    {
        matches!(self, ToxicSeverity::High | ToxicSeverity::Critical)
    }

    /// Share of the order size that remains.
    pub fn size_multiplier(&self) -> (r: Decimal)
        ensures
            r@ == units(self.size_percent(), 2),
    {
        match self {
            ToxicSeverity::Low => Decimal::new(75, 2),
            ToxicSeverity::Medium => Decimal::new(50, 2),
            ToxicSeverity::High => Decimal::new(25, 2),
            ToxicSeverity::Critical => Decimal::zero(),
        }
    }

    /// Name of the severity.
    pub open spec fn spec_text(self) -> Seq<char> {
        match self {
            ToxicSeverity::Low => "LOW"@,
            ToxicSeverity::Medium => "MEDIUM"@,
            ToxicSeverity::High => "HIGH"@,
            ToxicSeverity::Critical => "CRITICAL"@,
        }
    }

    /// Name of the severity.
    pub fn to_string(&self) -> (r: String)
        ensures
            r@ == self.spec_text(),
    {
        match self {
            ToxicSeverity::Low => "LOW".to_owned(),
            ToxicSeverity::Medium => "MEDIUM".to_owned(),
            ToxicSeverity::High => "HIGH".to_owned(),
            ToxicSeverity::Critical => "CRITICAL".to_owned(),
        }
    }
}

/// Severities compare by their score.
impl PartialOrd for ToxicSeverity {
    fn partial_cmp(&self, other: &ToxicSeverity) -> (r: Option<std::cmp::Ordering>) {
        let a: u8 = self.score();
        let b: u8 = other.score();
        if a < b {
            Some(std::cmp::Ordering::Less)
        } else if a > b {
            Some(std::cmp::Ordering::Greater)
        } else {
            Some(std::cmp::Ordering::Equal)
        }
    }
}

impl vstd::std_specs::cmp::PartialOrdSpecImpl for ToxicSeverity {
    open spec fn obeys_partial_cmp_spec() -> bool {
        true
    }

    open spec fn partial_cmp_spec(&self, other: &ToxicSeverity) -> Option<std::cmp::Ordering> {
        if self.spec_score() < other.spec_score() {
            Some(std::cmp::Ordering::Less)
        } else if self.spec_score() > other.spec_score() {
            Some(std::cmp::Ordering::Greater)
        } else {
            Some(std::cmp::Ordering::Equal)
        }
    }
}

/// A warning about an order.
#[derive(Debug)]
pub struct ToxicFlowWarning {
    pub token_id: String,
    pub side: Side,
    pub order_size: Decimal,
    /// Rolling average before the order.
    pub avg_order_size: Decimal,
    /// Order size over average.
    pub size_multiplier: Decimal,
    /// Milliseconds since the previous order.
    pub time_since_last_ms: u64,
    /// Move of the best price in basis points.
    pub bbo_shift_bps: Option<u32>,
    pub severity: ToxicSeverity,
    /// Time of detection in milliseconds.
    pub detected_at_ms: i64,
    pub indicators: ToxicIndicators,
}

impl Clone for ToxicFlowWarning {
    fn clone(&self) -> (r: ToxicFlowWarning)
        ensures
            r == *self,
    {
        ToxicFlowWarning {
            token_id: self.token_id.clone(),
            side: self.side,
            order_size: self.order_size,
            avg_order_size: self.avg_order_size,
            size_multiplier: self.size_multiplier,
            time_since_last_ms: self.time_since_last_ms,
            bbo_shift_bps: self.bbo_shift_bps,
            severity: self.severity,
            detected_at_ms: self.detected_at_ms,
            indicators: self.indicators,
        }
    }
}

impl ToxicFlowWarning {
    /// Whether the warning stops trading.
    pub fn should_block(&self) -> (r: bool)
        ensures
            r == self.severity.blocks(),
    {
        self.severity.should_block_trading()
    }

    /// Share of the order size that remains.
    pub fn size_multiplier(&self) -> (r: Decimal)
        ensures
            r@ == units(self.severity.size_percent(), 2),
    {
        self.severity.size_multiplier()
    }
}

/// What is suspicious about an order.
#[derive(Clone, Copy, Debug)]
pub struct ToxicIndicators {
    /// Large against the average.
    pub large_order: bool,
    /// Right after the previous order.
    pub sudden_appearance: bool,
    /// Moved the best price.
    pub bbo_shift: bool,
    /// At least twice as large as a large order.
    pub extreme_size: bool,
}

impl Default for ToxicIndicators {
    fn default() -> (r: ToxicIndicators)
        ensures
            r == (ToxicIndicators {
                large_order: false,
                sudden_appearance: false,
                bbo_shift: false,
                extreme_size: false,
            }),
    {
        ToxicIndicators {
            large_order: false,
            sudden_appearance: false,
            bbo_shift: false,
            extreme_size: false,
        }
    }
}

impl ToxicIndicators {
    /// How many indicators hold.
    pub open spec fn spec_count(self) -> u8 {
        let a: int = if self.large_order { 1 } else { 0 };
        let b: int = if self.sudden_appearance { 1 } else { 0 };
        let c: int = if self.bbo_shift { 1 } else { 0 };
        let d: int = if self.extreme_size { 1 } else { 0 };
        (a + b + c + d) as u8
    }

    /// How many indicators hold.
    pub fn count(&self) -> (r: u8)
        ensures
            r == self.spec_count(),
    {
        let mut count: u8 = 0;
        if self.large_order {
            count += 1;
        }
        if self.sudden_appearance {
            count += 1;
        }
        if self.bbo_shift {
            count += 1;
        }
        if self.extreme_size {
            count += 1;
        }
        count
    }
}

/// Severity of a set of indicators and a size over average.
pub open spec fn severity_of(indicators: ToxicIndicators, size_mult: int) -> ToxicSeverity {
    let count = indicators.spec_count();
    if indicators.extreme_size {
        ToxicSeverity::Critical
    } else if count >= 3 || (indicators.large_order && indicators.sudden_appearance) {
        ToxicSeverity::High
    } else if count >= 2 || size_mult >= units(75, 0) {
        ToxicSeverity::Medium
    } else {
        ToxicSeverity::Low
    }
}

/// Recent orders of one token.
#[derive(Debug)]
pub struct TokenFlowState {
    /// Sizes of the recent orders, the oldest first.
    pub order_sizes: VecDeque<Decimal>,
    /// Running sum of the sizes.
    pub size_sum: Decimal,
    /// Time of the last order in milliseconds.
    pub last_update_ms: i64,
    pub prev_best_bid: Option<Decimal>,
    pub prev_best_ask: Option<Decimal>,
}

/// The sizes after an order of `size` came in, with room for `window` of them.
pub open spec fn rolled(sizes: Seq<Decimal>, size: Decimal, window: int) -> Seq<Decimal> {
    if sizes.len() >= window && sizes.len() > 0 {
        sizes.skip(1).push(size)
    } else {
        sizes.push(size)
    }
}

impl TokenFlowState {
    /// Average order size; nothing before the first order.
    pub open spec fn average(self) -> Option<int> {
        quotient(num(self.size_sum), lit(self.order_sizes@.len() as int, 0))
    }

    /// Running sum after an order of `size` came in.
    pub open spec fn rolled_sum(self, size: Decimal, window: int) -> Option<int> {
        if self.order_sizes@.len() >= window && self.order_sizes@.len() > 0 {
            sum(difference(num(self.size_sum), num(self.order_sizes@[0])), num(size))
        } else {
            sum(num(self.size_sum), num(size))
        }
    }

    /// Milliseconds since the last order, as far as there was one.
    pub open spec fn since_last(self, now_ms: i64) -> u64 {
        if self.last_update_ms > 0 {
            if now_ms > self.last_update_ms {
                (now_ms - self.last_update_ms) as u64
            } else {
                0
            }
        } else {
            u64::MAX
        }
    }

    /// Whether `after` is this state once an order came in.
    pub open spec fn advanced(
        self,
        size: Decimal,
        now_ms: i64,
        bid: Option<Decimal>,
        ask: Option<Decimal>,
        window: int,
        after: TokenFlowState,
    ) -> bool {
        &&& after.order_sizes@ == rolled(self.order_sizes@, size, window)
        &&& Some(after.size_sum@) == self.rolled_sum(size, window)
        &&& after.last_update_ms == now_ms
        &&& after.prev_best_bid == bid
        &&& after.prev_best_ask == ask
    }

    /// Whether the state has seen no order.
    pub open spec fn is_fresh(self) -> bool {
        &&& self.order_sizes@.len() == 0
        &&& self.size_sum@ == 0
        &&& self.last_update_ms == 0
        &&& self.prev_best_bid is None
        &&& self.prev_best_ask is None
    }

    /// A state without orders.
    pub fn new() -> (r: TokenFlowState)
        ensures
            r.is_fresh(),
    {
        TokenFlowState {
            order_sizes: VecDeque::new(),
            size_sum: Decimal::zero(),
            last_update_ms: 0,
            prev_best_bid: None,
            prev_best_ask: None,
        }
    }

    /// Adds an order, dropping the oldest where the window is full.
    pub fn add_order(&mut self, size: Decimal, max_window: usize)
        requires
            old(self).rolled_sum(size, max_window as int) is Some,
        ensures
            final(self).order_sizes@ == rolled(old(self).order_sizes@, size, max_window as int),
            Some(final(self).size_sum@) == old(self).rolled_sum(size, max_window as int),
            final(self).last_update_ms == old(self).last_update_ms,
            final(self).prev_best_bid == old(self).prev_best_bid,
            final(self).prev_best_ask == old(self).prev_best_ask,
    {
        if self.order_sizes.len() >= max_window {
            if let Some(oldest) = self.order_sizes.pop_front() {
                assert(self.order_sizes@ =~= old(self).order_sizes@.skip(1));
                self.size_sum = self.size_sum.minus(oldest);
            }
        }
        self.order_sizes.push_back(size);
        self.size_sum = self.size_sum.plus(size);
    }

    /// Average order size.
    pub fn average_size(&self) -> (r: Option<Decimal>)
        requires
            self.order_sizes@.len() > 0 ==> self.average() is Some,
        ensures
            match r {
                Some(avg) => self.order_sizes@.len() > 0 && Some(avg@) == self.average(),
                None => self.order_sizes@.len() == 0,
            },
    {
        if self.order_sizes.len() == 0 {
            return None;
        }
        Some(self.size_sum.over(Decimal::from_u64(self.order_sizes.len() as u64)))
    }

    /// Number of orders in the window.
    pub fn sample_count(&self) -> (r: usize)
        ensures
            r == self.order_sizes@.len(),
    {
        self.order_sizes.len()
    }
}

/// Relative move of a price in basis points.
pub open spec fn shift_of(prev: Decimal, curr: Decimal) -> Option<int> {
    product(
        divided_by(magnitude(difference(num(curr), num(prev))), prev),
        lit(10000, 0),
    )
}

/// Move of the best price that an order of the side meets, in basis points.
pub open spec fn bbo_shift_of(prev: Option<Decimal>, curr: Option<Decimal>) -> Option<u32> {
    match (prev, curr) {
        (Some(prev), Some(curr)) => if prev@ <= 0 {
            None
        } else {
            Some(
                match whole_u32(shift_of(prev, curr)->0) {
                    Some(bps) => bps,
                    None => u32::MAX,
                },
            )
        },
        _ => None,
    }
}

/// Whether the arithmetic of such a move stays within range.
pub open spec fn bbo_shift_fits(prev: Option<Decimal>, curr: Option<Decimal>) -> bool {
    prev is Some && curr is Some && prev->0@ > 0 ==> shift_of(prev->0, curr->0) is Some
}

/// Detector of toxic flow.
#[derive(Debug)]
pub struct ToxicFlowDetector {
    pub config: ToxicFlowConfig,
    /// Recent orders by token.
    pub token_states: Table<TokenFlowState>,
}

impl Default for ToxicFlowDetector {
    fn default() -> (r: ToxicFlowDetector)
        ensures
            r.token_states@ == Map::<Seq<char>, TokenFlowState>::empty(),
            r.config.size_multiplier_threshold@ == units(50, 0),
            r.config.sudden_appearance_ms == 500,
            r.config.rolling_window_size == 100,
            r.config.min_samples == 10,
            r.config.bbo_shift_threshold_bps == 100,
    {
        ToxicFlowDetector::new(ToxicFlowConfig::default())
    }
}

/// An order and the best prices around it.
#[derive(Clone, Copy, Debug)]
pub struct ObservedOrder {
    pub side: Side,
    pub size: Decimal,
    /// Time in milliseconds.
    pub at_ms: i64,
    pub best_bid: Option<Decimal>,
    pub best_ask: Option<Decimal>,
}

impl ObservedOrder {
    /// Best price that the order meets: the ask for a buy order, the bid for a sell order.
    pub open spec fn met_price(self) -> Option<Decimal> {
        match self.side {
            Side::Buy => self.best_ask,
            Side::Sell => self.best_bid,
        }
    }

    /// Best price that the order meets, as it was with the previous order.
    pub open spec fn met_before(self, state: TokenFlowState) -> Option<Decimal> {
        match self.side {
            Side::Buy => state.prev_best_ask,
            Side::Sell => state.prev_best_bid,
        }
    }
}

impl ToxicFlowConfig {
    /// Order size over average.
    pub open spec fn multiple(self, state: TokenFlowState, order: ObservedOrder) -> Option<int> {
        divided(num(order.size), state.average())
    }

    /// Whether there are enough orders, of a positive average, to judge one.
    pub open spec fn judges(self, state: TokenFlowState) -> bool {
        &&& state.order_sizes@.len() >= self.min_samples
        &&& state.order_sizes@.len() > 0
        &&& state.average()->0 > 0
    }

    /// What is suspicious about an order.
    pub open spec fn indicators_of(self, state: TokenFlowState, order: ObservedOrder)
        -> ToxicIndicators {
        let mult = self.multiple(state, order)->0;
        ToxicIndicators {
            large_order: mult >= self.size_multiplier_threshold@,
            sudden_appearance: state.since_last(order.at_ms) < self.sudden_appearance_ms,
            bbo_shift: match bbo_shift_of(order.met_before(state), order.met_price()) {
                Some(bps) => bps >= self.bbo_shift_threshold_bps,
                None => false,
            },
            extreme_size: mult >= product(num(self.size_multiplier_threshold), lit(2, 0))->0,
        }
    }

    /// Whether the arithmetic on an order stays within range.
    pub open spec fn order_fits(self, state: TokenFlowState, order: ObservedOrder) -> bool {
        &&& state.order_sizes@.len() > 0 ==> state.average() is Some
        &&& state.last_update_ms > 0 ==> order.at_ms - state.last_update_ms >= i64::MIN
        &&& state.rolled_sum(order.size, self.rolling_window_size as int) is Some
        &&& self.judges(state) ==> {
            &&& self.multiple(state, order) is Some
            &&& product(num(self.size_multiplier_threshold), lit(2, 0)) is Some
            &&& bbo_shift_fits(order.met_before(state), order.met_price())
        }
    }

    /// Whether the order is reported.
    pub open spec fn warns(self, state: TokenFlowState, order: ObservedOrder) -> bool {
        self.judges(state) && self.indicators_of(state, order).spec_count() > 0
    }

    /// Whether `w` is the warning about the order.
    pub open spec fn describes(
        self,
        token_id: Seq<char>,
        state: TokenFlowState,
        order: ObservedOrder,
        w: ToxicFlowWarning,
    ) -> bool {
        &&& w.token_id@ == token_id
        &&& w.side == order.side
        &&& w.order_size == order.size
        &&& Some(w.avg_order_size@) == state.average()
        &&& Some(w.size_multiplier@) == self.multiple(state, order)
        &&& w.time_since_last_ms == state.since_last(order.at_ms)
        &&& w.bbo_shift_bps == bbo_shift_of(order.met_before(state), order.met_price())
        &&& w.indicators == self.indicators_of(state, order)
        &&& w.severity == severity_of(w.indicators, self.multiple(state, order)->0)
        &&& w.detected_at_ms == order.at_ms
    }
}

impl ToxicFlowDetector {
    /// Whether `state` is what is known of a token: its recent orders, or none.
    pub open spec fn knows(self, token_id: Seq<char>, state: TokenFlowState) -> bool {
        if self.token_states@.dom().contains(token_id) {
            state == self.token_states@[token_id]
        } else {
            state.is_fresh()
        }
    }

    /// Whether the arithmetic on an order of the token stays within range.
    pub open spec fn check_fits(self, token_id: Seq<char>, order: ObservedOrder) -> bool {
        forall|state: TokenFlowState| #[trigger]
            self.knows(token_id, state) ==> self.config.order_fits(state, order)
    }

    /// Whether `after` is this detector once the order of the token was recorded, and `r` the
    /// warning about it. Only the token's own state changes.
    pub open spec fn checked(
        self,
        token_id: Seq<char>,
        order: ObservedOrder,
        after: ToxicFlowDetector,
        r: Option<ToxicFlowWarning>,
    ) -> bool {
        &&& after.config == self.config
        &&& after.token_states@.dom() == self.token_states@.dom().insert(token_id)
        &&& after.token_states@.remove(token_id) == self.token_states@.remove(token_id)
        &&& exists|state: TokenFlowState|
            {
                &&& #[trigger] self.knows(token_id, state)
                &&& state.advanced(
                    order.size,
                    order.at_ms,
                    order.best_bid,
                    order.best_ask,
                    self.config.rolling_window_size as int,
                    after.token_states@[token_id],
                )
                &&& match r {
                    Some(w) => self.config.warns(state, order) && self.config.describes(
                        token_id,
                        state,
                        order,
                        w,
                    ),
                    None => !self.config.warns(state, order),
                }
            }
    }

    /// A detector that has seen no orders.
    pub fn new(config: ToxicFlowConfig) -> (r: ToxicFlowDetector)
        ensures
            r.config == config,
            r.token_states@ == Map::<Seq<char>, TokenFlowState>::empty(),
    {
        ToxicFlowDetector { config, token_states: Table::new() }
    }

    /// Records an order of a token and says whether it is toxic. Only the token's own state
    /// changes.
    pub fn check_order(
        &mut self,
        token_id: &str,
        side: Side,
        size: Decimal,
        current_ms: i64,
        best_bid: Option<Decimal>,
        best_ask: Option<Decimal>,
    ) -> (r: Option<ToxicFlowWarning>)
        requires
            old(self).check_fits(
                token_id@,
                (ObservedOrder { side, size, at_ms: current_ms, best_bid, best_ask }),
            ),
        ensures
            old(self).checked(
                token_id@,
                (ObservedOrder { side, size, at_ms: current_ms, best_bid, best_ask }),
                *final(self),
                r,
            ),
    {
        let ghost order = ObservedOrder { side, size, at_ms: current_ms, best_bid, best_ask };
        let window: usize = self.config.rolling_window_size;
        let mut state = match self.token_states.remove(token_id) {
            Some(state) => state,
            None => TokenFlowState::new(),
        };
        let ghost before = state;
        assert(old(self).knows(token_id@, before));
        let avg_size = state.average_size();
        let sample_count: usize = state.sample_count();
        let time_since_last: u64 = if state.last_update_ms > 0 {
            if current_ms > state.last_update_ms {
                (current_ms - state.last_update_ms) as u64
            } else {
                0
            }
        } else {
            u64::MAX
        };
        let prev_bid = state.prev_best_bid;
        let prev_ask = state.prev_best_ask;
        state.add_order(size, window);
        state.last_update_ms = current_ms;
        state.prev_best_bid = best_bid;
        state.prev_best_ask = best_ask;
        self.token_states.insert(token_id.to_owned(), state);
        proof {
            let now = self.token_states@;
            let was = old(self).token_states@;
            assert(now.dom() =~= was.dom().insert(token_id@));
            assert(now.remove(token_id@) =~= was.remove(token_id@));
            assert(before.advanced(
                size,
                current_ms,
                best_bid,
                best_ask,
                window as int,
                now[token_id@],
            ));
        }
        if sample_count < self.config.min_samples {
            return None;
        }
        let avg = match avg_size {
            Some(avg) => avg,
            None => {
                return None;
            },
        };
        if avg <= Decimal::zero() {
            return None;
        }
        let size_mult = size.over(avg);
        let bbo_shift_bps = self.calculate_bbo_shift(
            side,
            prev_bid,
            prev_ask,
            best_bid,
            best_ask,
        );
        let indicators = ToxicIndicators {
            large_order: size_mult >= self.config.size_multiplier_threshold,
            sudden_appearance: time_since_last < self.config.sudden_appearance_ms,
            bbo_shift: match bbo_shift_bps {
                Some(shift) => shift >= self.config.bbo_shift_threshold_bps,
                None => false,
            },
            extreme_size: size_mult >= self.config.size_multiplier_threshold.times(
                Decimal::new(2, 0),
            ),
        };
        assert(indicators == self.config.indicators_of(before, order));
        let severity = self.calculate_severity(&indicators, size_mult);
        if indicators.count() == 0 {
            return None;
        }
        Some(
            ToxicFlowWarning {
                token_id: token_id.to_owned(),
                side,
                order_size: size,
                avg_order_size: avg,
                size_multiplier: size_mult,
                time_since_last_ms: time_since_last,
                bbo_shift_bps,
                severity,
                detected_at_ms: current_ms,
                indicators,
            },
        )
    }

    /// Move of the best price that an order of the side meets, in basis points: the ask for a buy
    /// order, the bid for a sell order.
    pub fn calculate_bbo_shift(
        &self,
        side: Side,
        prev_bid: Option<Decimal>,
        prev_ask: Option<Decimal>,
        curr_bid: Option<Decimal>,
        curr_ask: Option<Decimal>,
    ) -> (r: Option<u32>)
        requires
            match side {
                Side::Buy => bbo_shift_fits(prev_ask, curr_ask),
                Side::Sell => bbo_shift_fits(prev_bid, curr_bid),
            },
        ensures
            r == match side {
                Side::Buy => bbo_shift_of(prev_ask, curr_ask),
                Side::Sell => bbo_shift_of(prev_bid, curr_bid),
            },
    {
        let (prev, curr) = match side {
            Side::Buy => (prev_ask, curr_ask),
            Side::Sell => (prev_bid, curr_bid),
        };
        match (prev, curr) {
            (Some(prev), Some(curr)) => {
                if prev <= Decimal::zero() {
                    return None;
                }
                let shift = curr.minus(prev).abs().over(prev).times(Decimal::new(10000, 0));
                match shift.to_u32() {
                    Some(bps) => Some(bps),
                    None => Some(u32::MAX),
                }
            },
            _ => None,
        }
    }

    /// Severity of a set of indicators.
    pub fn calculate_severity(&self, indicators: &ToxicIndicators, size_mult: Decimal) -> (r:
        ToxicSeverity)
        ensures
            r == severity_of(*indicators, size_mult@),
    {
        let count: u8 = indicators.count();
        if indicators.extreme_size {
            return ToxicSeverity::Critical;
        }
        if count >= 3 || (indicators.large_order && indicators.sudden_appearance) {
            return ToxicSeverity::High;
        }
        if count >= 2 || size_mult >= Decimal::new(75, 0) {
            return ToxicSeverity::Medium;
        }
        ToxicSeverity::Low
    }

    /// Whether there is a positive average for the token.
    pub open spec fn has_average(self, token_id: Seq<char>) -> bool {
        &&& self.token_states@.dom().contains(token_id)
        &&& self.token_states@[token_id].order_sizes@.len() > 0
    }

    /// Whether an order of this size would be large, without recording it.
    pub fn would_be_large(&self, token_id: &str, size: Decimal) -> (r: bool)
        requires
            self.has_average(token_id@) ==> {
                let avg = self.token_states@[token_id@].average();
                avg is Some && (avg->0 > 0 ==> divided(num(size), avg) is Some)
            },
        ensures
            r == (self.has_average(token_id@) && self.token_states@[token_id@].average()->0 > 0
                && divided(num(size), self.token_states@[token_id@].average())->0
                >= self.config.size_multiplier_threshold@),
    {
        match self.token_states.get(token_id) {
            Some(state) => match state.average_size() {
                Some(avg) => {
                    if avg > Decimal::zero() {
                        size.over(avg) >= self.config.size_multiplier_threshold
                    } else {
                        false
                    }
                },
                None => false,
            },
            None => false,
        }
    }

    /// Average order size of a token.
    pub fn average_order_size(&self, token_id: &str) -> (r: Option<Decimal>)
        requires
            self.has_average(token_id@) ==> self.token_states@[token_id@].average() is Some,
        ensures
            match r {
                Some(avg) => self.has_average(token_id@) && Some(avg@)
                    == self.token_states@[token_id@].average(),
                None => !self.has_average(token_id@),
            },
    {
        match self.token_states.get(token_id) {
            Some(state) => state.average_size(),
            None => None,
        }
    }

    /// Number of orders in the window of a token.
    pub fn sample_count(&self, token_id: &str) -> (r: usize)
        ensures
            r == if self.token_states@.dom().contains(token_id@) {
                self.token_states@[token_id@].order_sizes@.len() as int
            } else {
                0
            },
    {
        match self.token_states.get(token_id) {
            Some(state) => state.sample_count(),
            None => 0,
        }
    }

    /// Forgets one token.
    pub fn reset_token(&mut self, token_id: &str)
        ensures
            final(self).config == old(self).config,
            final(self).token_states@ == old(self).token_states@.remove(token_id@),
    {
        let dropped = self.token_states.remove(token_id);
    }

    /// Forgets all tokens.
    pub fn reset(&mut self)
        ensures
            final(self).config == old(self).config,
            final(self).token_states@ == Map::<Seq<char>, TokenFlowState>::empty(),
    {
        self.token_states.clear();
    }
}

/// The window never grows beyond its size, once it has room for an order.
pub proof fn law_window_is_bounded(sizes: Seq<Decimal>, size: Decimal, window: int)
    requires
        1 <= window,
        sizes.len() <= window,
    ensures
        rolled(sizes, size, window).len() <= window,
        rolled(sizes, size, window).last() == size,
{
}

/// An extreme order is critical, a critical or high warning blocks trading, and a critical one
/// leaves nothing of the order size.
pub proof fn law_extreme_orders_block(indicators: ToxicIndicators, size_mult: int)
    requires
        indicators.extreme_size,
    ensures
        severity_of(indicators, size_mult) is Critical,
        severity_of(indicators, size_mult).blocks(),
        severity_of(indicators, size_mult).size_percent() == 0,
{
}

/// More indicators never make a warning less severe.
pub proof fn law_severity_monotone(fewer: ToxicIndicators, more: ToxicIndicators, size_mult: int)
    requires
        fewer.large_order ==> more.large_order,
        fewer.sudden_appearance ==> more.sudden_appearance,
        fewer.bbo_shift ==> more.bbo_shift,
        fewer.extreme_size ==> more.extreme_size,
    ensures
        severity_of(fewer, size_mult).spec_score() <= severity_of(more, size_mult).spec_score(),
{
}

/// A more severe warning leaves less of the order size, and blocks if a milder one does.
pub proof fn law_severity_reduces_size(mild: ToxicSeverity, severe: ToxicSeverity)
    requires
        mild.spec_score() <= severe.spec_score(),
    ensures
        severe.size_percent() <= mild.size_percent(),
        mild.blocks() ==> severe.blocks(),
{
}

/// What is suspicious about an order that is judged: its size against the average before it, the time
/// since the last order, and how far the price that it meets has moved: the ask for a buy order,
/// the bid for a sell order. A warning carries what it was judged by.
pub proof fn law_what_is_suspicious(
    config: ToxicFlowConfig,
    token_id: Seq<char>,
    state: TokenFlowState,
    order: ObservedOrder,
    w: ToxicFlowWarning,
)
    requires
        config.warns(state, order),
        config.describes(token_id, state, order, w),
    ensures
        w.indicators.large_order <==> w.size_multiplier@ >= config.size_multiplier_threshold@,
        w.indicators.extreme_size <==> w.size_multiplier@ >= product(
            num(config.size_multiplier_threshold),
            lit(2, 0),
        )->0,
        w.indicators.sudden_appearance ==> state.last_update_ms > 0 && order.at_ms
            - state.last_update_ms < config.sudden_appearance_ms,
        state.last_update_ms > 0 && order.at_ms >= state.last_update_ms && order.at_ms
            - state.last_update_ms < config.sudden_appearance_ms ==> w.indicators.sudden_appearance,
        order.side is Buy ==> w.bbo_shift_bps == bbo_shift_of(state.prev_best_ask, order.best_ask),
        order.side is Sell ==> w.bbo_shift_bps == bbo_shift_of(state.prev_best_bid, order.best_bid),
        w.indicators.bbo_shift <==> w.bbo_shift_bps is Some && w.bbo_shift_bps->0
            >= config.bbo_shift_threshold_bps,
        w.indicators.large_order || w.indicators.extreme_size || w.indicators.sudden_appearance
            || w.indicators.bbo_shift,
        Some(w.size_multiplier@) == divided(num(order.size), Some(w.avg_order_size@)),
        Some(w.avg_order_size@) == quotient(
            num(state.size_sum),
            lit(state.order_sizes@.len() as int, 0),
        ),
        state.order_sizes@.len() >= config.min_samples,
        w.order_size == order.size,
        w.side == order.side,
        w.token_id@ == token_id,
{
}

/// A price that has not moved is no shift, and moves up and down by as much are the same shift.
pub proof fn law_shifts_are_moves(prev: Decimal, curr: Decimal, other: Decimal)
    requires
        prev@ > 0,
        curr@ - prev@ == prev@ - other@,
    ensures
        bbo_shift_of(Some(prev), Some(curr)) == bbo_shift_of(Some(prev), Some(other)),
        curr@ == prev@ ==> bbo_shift_of(Some(prev), Some(curr)) == Some(0u32),
        bbo_shift_of(None, Some(curr)) is None,
        bbo_shift_of(Some(prev), None) is None,
{
    let d = curr@ - prev@;
    assert(other@ - prev@ == -d);
    crate::decimal::lemma_rounded_negated(d, 1);
    if d == 0 {
        crate::decimal::lemma_exact(0, 1, 0, 0);
        assert(0 * crate::decimal::pow10(28) == 0);
        crate::decimal::lemma_exact(0, prev@, 0, 0);
        assert(0 * units(10000, 0) == 0);
        crate::decimal::lemma_exact(0, crate::decimal::pow10(28), 0, 0);
        crate::decimal::law_off_edge(0, prev@);
        assert(shift_of(prev, curr) == Some(0int));
        crate::decimal::law_whole_parts(0);
    }
}

/// An order joins the orders of its token: the last sizes are kept, the newest last, and their sum
/// moves by what came and what left. Quotes and time are those of the order, and no other token is
/// touched. An order is judged by the orders before it, never by itself.
pub proof fn law_orders_are_remembered(
    detector: ToxicFlowDetector,
    token_id: Seq<char>,
    order: ObservedOrder,
    after: ToxicFlowDetector,
    r: Option<ToxicFlowWarning>,
    other: Seq<char>,
)
    requires
        detector.checked(token_id, order, after, r),
        other != token_id,
        detector.config.rolling_window_size > 0,
    ensures
        ({
            let s = after.token_states@[token_id];
            &&& after.token_states@.dom().contains(token_id)
            &&& s.order_sizes@.len() > 0 && s.order_sizes@.last() == order.size
            &&& s.last_update_ms == order.at_ms
            &&& s.prev_best_bid == order.best_bid
            &&& s.prev_best_ask == order.best_ask
            &&& detector.token_states@.dom().contains(token_id) ==> {
                let b = detector.token_states@[token_id];
                &&& b.order_sizes@.len() < detector.config.rolling_window_size ==> s.order_sizes@
                    == b.order_sizes@.push(order.size) && Some(s.size_sum@) == sum(
                    num(b.size_sum),
                    num(order.size),
                )
                &&& b.order_sizes@.len() >= detector.config.rolling_window_size ==> s.order_sizes@
                    == b.order_sizes@.skip(1).push(order.size) && Some(s.size_sum@) == sum(
                    difference(num(b.size_sum), num(b.order_sizes@[0])),
                    num(order.size),
                )
            }
            &&& !detector.token_states@.dom().contains(token_id) ==> s.order_sizes@ == seq![
                order.size,
            ] && r is None
        }),
        detector.token_states@.dom().contains(other) <==> after.token_states@.dom().contains(other),
        detector.token_states@.dom().contains(other) ==> after.token_states@[other]
            == detector.token_states@[other],
{
    let state = choose|state: TokenFlowState|
        {
            &&& #[trigger] detector.knows(token_id, state)
            &&& state.advanced(
                order.size,
                order.at_ms,
                order.best_bid,
                order.best_ask,
                detector.config.rolling_window_size as int,
                after.token_states@[token_id],
            )
            &&& match r {
                Some(w) => detector.config.warns(state, order) && detector.config.describes(
                    token_id,
                    state,
                    order,
                    w,
                ),
                None => !detector.config.warns(state, order),
            }
        };
    assert(after.token_states@.remove(token_id).dom().contains(other)
        <==> detector.token_states@.remove(token_id).dom().contains(other));
    if detector.token_states@.dom().contains(other) {
        assert(after.token_states@.remove(token_id)[other] == detector.token_states@.remove(
            token_id,
        )[other]);
    }
    if !detector.token_states@.dom().contains(token_id) {
        assert(rolled(
            state.order_sizes@,
            order.size,
            detector.config.rolling_window_size as int,
        ) =~= seq![order.size]);
    }
}

/// Whether an order of ordinary size, at ordinary times and prices, goes unreported: with none of the
/// reasons there is no warning, and with any of them and enough orders before it there is one.
pub proof fn law_only_suspicious_orders_are_reported(
    config: ToxicFlowConfig,
    state: TokenFlowState,
    order: ObservedOrder,
)
    requires
        state.order_sizes@.len() >= config.min_samples,
        state.order_sizes@.len() > 0,
        quotient(num(state.size_sum), lit(state.order_sizes@.len() as int, 0))->0 > 0,
    ensures
        config.warns(state, order) <==> (config.indicators_of(state, order).large_order
            || config.indicators_of(state, order).sudden_appearance || config.indicators_of(
            state,
            order,
        ).bbo_shift || config.indicators_of(state, order).extreme_size),
{
}

/// How severe a set of reasons is: one alone is mild; two are worse, and so is a very large order; a
/// large order that comes suddenly stops trading, as do three reasons or an extreme size.
pub proof fn law_severity_of_reasons(i: ToxicIndicators, size_mult: int)
    ensures
        i.extreme_size <==> severity_of(i, size_mult) is Critical,
        !i.extreme_size && i.large_order && i.sudden_appearance ==> severity_of(
            i,
            size_mult,
        ) is High,
        !i.extreme_size && i.large_order && i.bbo_shift && !i.sudden_appearance ==> severity_of(
            i,
            size_mult,
        ) is Medium,
        !i.extreme_size && !i.large_order && i.bbo_shift && i.sudden_appearance ==> severity_of(
            i,
            size_mult,
        ) is Medium,
        !i.extreme_size && i.large_order && !i.bbo_shift && !i.sudden_appearance ==> (severity_of(
            i,
            size_mult,
        ) is Medium <==> size_mult >= units(75, 0)),
        severity_of(i, size_mult) is High || severity_of(i, size_mult) is Critical <==> severity_of(
            i,
            size_mult,
        ).blocks(),
{
}

} // verus!
