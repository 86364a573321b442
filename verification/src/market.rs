//! A market that is being traded: its state, its inventory and its open business.

use vstd::prelude::*;
use crate::decimal::{
    Decimal, difference, divided_by, lesser, lit, num, product, quotient, representable, rounded_down, sum,
    sum_scale, units,
};
use crate::maker_orders::ActiveMakerOrder;
use crate::position::{
    PositionConfig, PositionManager, phase_of,
};
use crate::signal::Signal;
use crate::strategy_config::StrategyConfig;
use crate::table::Table;
use crate::toxic::ToxicFlowWarning;
use crate::trades_log::quot;
use crate::types::{CryptoAsset, Inventory, MarketState, Outcome, added};

verus! {

/// A window that opens.
#[derive(Clone, Debug)]
pub struct WindowOpenEvent {
    pub event_id: String,
    pub condition_id: String,
    pub asset: CryptoAsset,
    pub yes_token_id: String,
    pub no_token_id: String,
    pub strike_price: Decimal,
    /// Start of the window in milliseconds since 1970.
    pub window_start_ms: i64,
    /// End of the window in milliseconds since 1970.
    pub window_end_ms: i64,
}

/// Whole seconds from one time to another, cut off towards zero.
pub open spec fn seconds_from(from_ms: i64, to_ms: i64) -> int {
    quot(to_ms - from_ms, 1000)
}

/// Whole seconds from one time to another, cut off towards zero.
pub fn seconds_between(from_ms: i64, to_ms: i64) -> (r: i64)
    ensures
        r == seconds_from(from_ms, to_ms),
{
    if to_ms >= from_ms {
        let gap: u64 = (to_ms as i128 - from_ms as i128) as u64;
        (gap / 1000) as i64
    } else {
        let gap: u64 = (from_ms as i128 - to_ms as i128) as u64;
        -((gap / 1000) as i64)
    }
}

/// Confidence in a trade and its parts, for display.
#[derive(Clone, Debug)]
pub struct ConfidenceSnapshot {
    pub event_id: String,
    pub confidence: Decimal,
    pub time_confidence: Decimal,
    pub distance_confidence: Decimal,
    pub min_edge: Decimal,
    /// Confidence less price.
    pub ev: Decimal,
    pub would_trade: bool,
    pub distance_dollars: Decimal,
    pub atr_multiple: Decimal,
    pub favorable_price: Decimal,
}

/// What a snapshot is made of.
pub struct SnapshotTerms {
    pub confidence: Decimal,
    /// Seconds remaining, for the time confidence.
    pub seconds: i64,
    /// Seconds remaining, for the least edge.
    pub edge_seconds: i64,
    pub window: i64,
    pub distance: int,
    pub atr: Decimal,
    pub price: Decimal,
    pub max_edge_factor: Decimal,
}

impl SnapshotTerms {
    /// Time confidence with the default floor.
    pub open spec fn time_conf(self) -> Option<int> {
        sum(
            lit(30, 2),
            product(
                lit(70, 2),
                difference(
                    lit(1, 0),
                    quotient(lit(self.seconds as int, 0), lit(self.window as int, 0)),
                ),
            ),
        )
    }

    /// Distance in average true ranges; zero where the range is not positive.
    pub open spec fn ranges(self) -> Option<int> {
        if self.atr@ > 0 {
            divided_by(Some(self.distance), self.atr)
        } else {
            Some(0)
        }
    }

    /// Distance confidence with the default floor and slope.
    pub open spec fn dist_conf(self) -> Option<int> {
        lesser(sum(lit(20, 2), product(lit(50, 2), self.ranges())), lit(1, 0))
    }

    pub open spec fn ev(self) -> Option<int> {
        difference(num(self.confidence), num(self.price))
    }

    pub open spec fn min_edge(self) -> Option<int> {
        product(
            num(self.max_edge_factor),
            quotient(lit(self.edge_seconds as int, 0), lit(self.window as int, 0)),
        )
    }

    /// Whether the arithmetic stays within range; the window has a length.
    pub open spec fn fits(self) -> bool {
        &&& self.window != 0
        &&& self.time_conf() is Some
        &&& self.ranges() is Some
        &&& self.dist_conf() is Some
        &&& self.ev() is Some
        &&& self.min_edge() is Some
    }

    /// Whether `r` is the snapshot.
    pub open spec fn shown_by(self, event_id: Seq<char>, r: ConfidenceSnapshot) -> bool {
        &&& r.event_id@ == event_id
        &&& r.confidence == self.confidence
        &&& Some(r.time_confidence@) == self.time_conf()
        &&& Some(r.distance_confidence@) == self.dist_conf()
        &&& Some(r.min_edge@) == self.min_edge()
        &&& Some(r.ev@) == self.ev()
        &&& r.would_trade == (self.ev()->0 >= self.min_edge()->0)
        &&& r.distance_dollars@ == self.distance
        &&& Some(r.atr_multiple@) == self.ranges()
        &&& r.favorable_price == self.price
    }
}

impl ConfidenceSnapshot {
    /// The snapshot of a confidence; `distance` is not negative.
    pub fn of(
        event_id: &String,
        confidence: Decimal,
        seconds: i64,
        edge_seconds: i64,
        window: i64,
        distance: Decimal,
        atr: Decimal,
        price: Decimal,
        max_edge_factor: Decimal,
    ) -> (r: ConfidenceSnapshot)
        requires
            (SnapshotTerms {
                confidence,
                seconds,
                edge_seconds,
                window,
                distance: distance@,
                atr,
                price,
                max_edge_factor,
            }).fits(),
        ensures
            (SnapshotTerms {
                confidence,
                seconds,
                edge_seconds,
                window,
                distance: distance@,
                atr,
                price,
                max_edge_factor,
            }).shown_by(event_id@, r),
    {
        let length = Decimal::from_i64(window);
        let atr_multiple = if atr > Decimal::zero() {
            distance.over(atr)
        } else {
            Decimal::zero()
        };
        let time_ratio = Decimal::from_i64(seconds).over(length);
        let time_confidence = Decimal::new(30, 2).plus(
            Decimal::new(70, 2).times(Decimal::one().minus(time_ratio)),
        );
        let distance_confidence = Decimal::new(20, 2).plus(
            Decimal::new(50, 2).times(atr_multiple),
        ).min(Decimal::one());
        let ev = confidence.minus(price);
        let min_edge = max_edge_factor.times(Decimal::from_i64(edge_seconds).over(length));
        ConfidenceSnapshot {
            event_id: event_id.clone(),
            confidence,
            time_confidence,
            distance_confidence,
            min_edge,
            ev,
            would_trade: ev >= min_edge,
            distance_dollars: distance,
            atr_multiple,
            favorable_price: price,
        }
    }
}

/// What a hedge tier comes to.
#[derive(Clone, Copy, Debug)]
pub enum HedgeAction {
    /// Nothing to do.
    Wait,
    /// The tier is due, but the hedge costs too much.
    TooExpensive,
    /// Buy this many shares of the other outcome at this price.
    Buy { shares: Decimal, price: Decimal },
}

/// A market that is being traded.
#[derive(Debug)]
pub struct TrackedMarket {
    pub event_id: String,
    pub condition_id: String,
    pub asset: CryptoAsset,
    pub yes_token_id: String,
    pub no_token_id: String,
    pub strike_price: Decimal,
    pub window_start_ms: i64,
    pub window_end_ms: i64,
    pub state: MarketState,
    pub inventory: Inventory,
    /// Latest warning about the YES token.
    pub yes_toxic_warning: Option<ToxicFlowWarning>,
    /// Latest warning about the NO token.
    pub no_toxic_warning: Option<ToxicFlowWarning>,
    /// Resting orders by id.
    pub active_maker_orders: Table<ActiveMakerOrder>,
    /// When the last order was placed.
    pub last_order_ms: Option<i64>,
    pub position_manager: PositionManager,
    /// Smallest order in shares.
    pub min_order_size: Decimal,
    /// Signal of the last trade.
    pub last_signal: String,
    /// Confidence of the last trade.
    pub last_confidence: Decimal,
    /// Highest confidence since the first fill.
    pub peak_confidence: Decimal,
    /// Hedge tiers that were used.
    pub hedge_tiers_triggered: [bool; 3],
    /// Whether the position is on the UP side; nothing before the first fill.
    pub position_direction: Option<bool>,
    /// Chainlink price at the opening.
    pub chainlink_strike: Option<Decimal>,
    /// Binance price at the opening.
    pub binance_at_open: Option<Decimal>,
}

/// Seconds between two directional orders.
pub const ORDER_COOLDOWN_SECS: i64 = 5;

/// Number of hedge tiers.
pub const HEDGE_TIERS: usize = 3;

/// Drop of confidence, in percent of its peak, from which a tier is due; the last tier goes by the
/// signal.
pub open spec fn tier_drop_percent(tier: int) -> int {
    if tier <= 0 { 30 } else if tier == 1 { 50 } else { 100 }
}

/// Size of a hedge, in percent of the position.
pub open spec fn tier_size_percent(tier: int) -> int {
    if tier <= 0 { 10 } else if tier == 1 { 15 } else { 25 }
}

/// Highest price of a hedge, in cents.
pub open spec fn tier_max_cents(tier: int) -> int {
    if tier <= 0 { 25 } else if tier == 1 { 35 } else { 45 }
}

impl TrackedMarket {
    /// Whether this is a new market for the event.
    pub open spec fn is_new(
        self,
        event: WindowOpenEvent,
        market_budget: Decimal,
        config: StrategyConfig,
        min_order_size: int,
        now_ms: i64,
    ) -> bool {
        &&& self.event_id == event.event_id
        &&& self.condition_id == event.condition_id
        &&& self.asset == event.asset
        &&& self.yes_token_id == event.yes_token_id
        &&& self.no_token_id == event.no_token_id
        &&& self.strike_price == event.strike_price
        &&& self.window_start_ms == event.window_start_ms
        &&& self.window_end_ms == event.window_end_ms
        &&& self.state.event_id == event.event_id
        &&& self.state.asset == event.asset
        &&& self.state.yes_book.token_id == event.yes_token_id
        &&& self.state.yes_book.bids@.len() == 0 && self.state.yes_book.asks@.len() == 0
        &&& self.state.no_book.token_id == event.no_token_id
        &&& self.state.no_book.bids@.len() == 0 && self.state.no_book.asks@.len() == 0
        &&& self.state.strike_price == event.strike_price
        &&& self.state.seconds_remaining == seconds_from(now_ms, event.window_end_ms)
        &&& self.state.spot_price is None
        &&& self.state.chainlink_price is None
        &&& self.state.chainlink_strike is None
        &&& self.state.binance_at_open is None
        &&& self.inventory.event_id == event.event_id
        &&& self.inventory.yes_shares@ == 0 && self.inventory.no_shares@ == 0
        &&& self.inventory.yes_cost_basis@ == 0 && self.inventory.no_cost_basis@ == 0
        &&& self.inventory.realized_pnl@ == 0
        &&& self.yes_toxic_warning is None
        &&& self.no_toxic_warning is None
        &&& self.active_maker_orders@ == Map::<Seq<char>, ActiveMakerOrder>::empty()
        &&& self.last_order_ms is None
        &&& self.position_manager.is_fresh()
        &&& self.position_manager.config.total_budget == market_budget
        &&& self.position_manager.config.atr@ == event.asset.spec_estimated_atr_15m()
        &&& self.position_manager.config.time_conf_floor == config.time_conf_floor
        &&& self.position_manager.config.dist_conf_floor == config.dist_conf_floor
        &&& self.position_manager.config.dist_conf_per_atr == config.dist_conf_per_atr
        &&& self.position_manager.config.min_order_size@ == units(1, 0)
        &&& self.position_manager.config.max_order_size@ == units(100, 0)
        &&& self.position_manager.config.max_single_side_exposure@ == units(80, 2)
        &&& self.position_manager.config.min_hedge_ratio@ == units(20, 2)
        &&& self.position_manager.config.trades_per_phase == 15
        &&& self.position_manager.config.early_threshold@ == units(80, 2)
        &&& self.position_manager.config.build_threshold@ == units(60, 2)
        &&& self.position_manager.config.core_threshold@ == units(50, 2)
        &&& self.position_manager.config.final_threshold@ == units(40, 2)
        &&& self.min_order_size@ == min_order_size
        &&& self.last_signal@ == Seq::<char>::empty()
        &&& self.last_confidence@ == 0
        &&& self.peak_confidence@ == 0
        &&& self.hedge_tiers_triggered@ == seq![false, false, false]
        &&& self.position_direction is None
        &&& self.chainlink_strike is None
        &&& self.binance_at_open is None
    }

    /// A new market for the event, at the time `now_ms`.
    pub fn new(
        event: &WindowOpenEvent,
        market_budget: Decimal,
        strategy_config: &StrategyConfig,
        min_order_size: Decimal,
        now_ms: i64,
    ) -> (r: TrackedMarket)
        ensures
            r.is_new(*event, market_budget, *strategy_config, min_order_size@, now_ms),
            r.min_order_size == min_order_size,
    {
        let state = MarketState::new(
            event.event_id.clone(),
            event.asset,
            event.yes_token_id.clone(),
            event.no_token_id.clone(),
            event.strike_price,
            seconds_between(now_ms, event.window_end_ms),
        );
        let position_config = PositionConfig {
            total_budget: market_budget,
            atr: event.asset.estimated_atr_15m(),
            time_conf_floor: strategy_config.time_conf_floor,
            dist_conf_floor: strategy_config.dist_conf_floor,
            dist_conf_per_atr: strategy_config.dist_conf_per_atr,
            ..PositionConfig::default()
        };
        let tiers = [false, false, false];
        assert(tiers@ =~= seq![false, false, false]);
        TrackedMarket {
            event_id: event.event_id.clone(),
            condition_id: event.condition_id.clone(),
            asset: event.asset,
            yes_token_id: event.yes_token_id.clone(),
            no_token_id: event.no_token_id.clone(),
            strike_price: event.strike_price,
            window_start_ms: event.window_start_ms,
            window_end_ms: event.window_end_ms,
            state,
            inventory: Inventory::new(event.event_id.clone()),
            yes_toxic_warning: None,
            no_toxic_warning: None,
            active_maker_orders: Table::new(),
            last_order_ms: None,
            position_manager: PositionManager::new(position_config),
            min_order_size,
            last_signal: String::new(),
            last_confidence: Decimal::zero(),
            peak_confidence: Decimal::zero(),
            hedge_tiers_triggered: tiers,
            position_direction: None,
            chainlink_strike: None,
            binance_at_open: None,
        }
    }

    /// A new market with the usual smallest order of 5 shares.
    pub fn new_for_backtest(
        event: &WindowOpenEvent,
        market_budget: Decimal,
        strategy_config: &StrategyConfig,
        now_ms: i64,
    ) -> (r: TrackedMarket)
        ensures
            r.is_new(*event, market_budget, *strategy_config, units(5, 0), now_ms),
    {
        let five = Decimal::new(5, 0);
        TrackedMarket::new(event, market_budget, strategy_config, five, now_ms)
    }

    /// Whether shares are held.
    pub fn has_position(&self) -> (r: bool)
        requires
            self.inventory.exposure() is Some,
        ensures
            r == (self.inventory.exposure()->0 > 0),
    {
        self.inventory.total_exposure() > Decimal::zero()
    }

    /// Budget of the market that is left.
    pub fn budget_remaining(&self) -> (r: Decimal)
        requires
            self.position_manager.total_left() is Some,
        ensures
            Some(r@) == self.position_manager.total_left(),
    {
        self.position_manager.budget_remaining()
    }

    /// Seconds remaining at a time, at least zero.
    pub open spec fn seconds_left(self, now_ms: i64) -> int {
        let left = seconds_from(now_ms, self.window_end_ms);
        if left < 0 { 0 } else { left }
    }

    /// Sets the seconds remaining.
    pub fn update_time(&mut self, now_ms: i64)
        ensures
            *final(self) == (TrackedMarket { state: final(self).state, ..*old(self) }),
            final(self).state == (MarketState {
                seconds_remaining: final(self).state.seconds_remaining,
                ..old(self).state
            }),
            final(self).state.seconds_remaining == old(self).seconds_left(now_ms),
    {
        let left: i64 = seconds_between(now_ms, self.window_end_ms);
        self.state.seconds_remaining = if left < 0 {
            0
        } else {
            left
        };
    }

    /// Whether the window has ended.
    pub fn is_expired(&self, now_ms: i64) -> (r: bool)
        ensures
            r == (now_ms >= self.window_end_ms),
    {
        now_ms >= self.window_end_ms
    }

    /// The outcome of a token.
    pub open spec fn outcome_of(self, token_id: Seq<char>) -> Outcome {
        if token_id == self.yes_token_id@ {
            Outcome::Yes
        } else {
            Outcome::No
        }
    }

    /// The outcome of a token.
    pub fn token_outcome(&self, token_id: &String) -> (r: Outcome)
        ensures
            r == self.outcome_of(token_id@),
    {
        if *token_id == self.yes_token_id {
            Outcome::Yes
        } else {
            Outcome::No
        }
    }

    /// The warning that counts: the more severe of the two, that of YES if they are alike.
    pub open spec fn worst_warning(self) -> Option<ToxicFlowWarning> {
        match (self.yes_toxic_warning, self.no_toxic_warning) {
            (Some(yes), Some(no)) => if yes.severity.spec_score() >= no.severity.spec_score() {
                Some(yes)
            } else {
                Some(no)
            },
            (Some(yes), None) => Some(yes),
            (None, Some(no)) => Some(no),
            (None, None) => None,
        }
    }

    /// The warning that counts: the more severe of the two.
    pub fn toxic_warning(&self) -> (r: Option<ToxicFlowWarning>)
        ensures
            r == self.worst_warning(),
    {
        match (&self.yes_toxic_warning, &self.no_toxic_warning) {
            (Some(yes), Some(no)) => if yes.severity.score() >= no.severity.score() {
                Some(yes.clone())
            } else {
                Some(no.clone())
            },
            (Some(yes), None) => Some(yes.clone()),
            (None, Some(no)) => Some(no.clone()),
            (None, None) => None,
        }
    }

    /// Time of the market: its end less the seconds remaining.
    pub open spec fn clock(self) -> int {
        self.window_end_ms - self.state.seconds_remaining * 1000
    }

    /// Whether the last order is too recent for another. Times beyond the range of `i64` do not
    /// occur.
    pub open spec fn cooling_down(self) -> bool {
        match self.last_order_ms {
            Some(last) => quot(self.clock() - last, 1000) < ORDER_COOLDOWN_SECS,
            None => false,
        }
    }

    /// Time of the market: its end less the seconds remaining.
    pub fn market_time(&self) -> (r: i64)
        requires
            i64::MIN <= self.clock() <= i64::MAX,
        ensures
            r == self.clock(),
    {
        (self.window_end_ms as i128 - self.state.seconds_remaining as i128 * 1000) as i64
    }

    /// Whether the last order is too recent for another.
    pub fn in_cooldown(&self) -> (r: bool)
        requires
            i64::MIN <= self.clock() <= i64::MAX,
        ensures
            r == self.cooling_down(),
    {
        match self.last_order_ms {
            Some(last) => seconds_between(last, self.market_time()) < ORDER_COOLDOWN_SECS,
            None => false,
        }
    }

    // ------------------------------------------------------------------------
    // Reactive hedges
    // ------------------------------------------------------------------------

    /// Shares of the position.
    pub open spec fn position_shares(self) -> Decimal {
        if self.position_direction == Some(true) {
            self.inventory.yes_shares
        } else {
            self.inventory.no_shares
        }
    }

    /// The outcome that hedges the position.
    pub open spec fn hedge_side(self) -> Outcome {
        if self.position_direction == Some(true) {
            Outcome::No
        } else {
            Outcome::Yes
        }
    }

    /// The token that hedges the position.
    pub open spec fn hedge_token(self) -> String {
        if self.position_direction == Some(true) {
            self.no_token_id
        } else {
            self.yes_token_id
        }
    }

    /// Drop of confidence from its peak, as a ratio.
    pub open spec fn drop_from_peak(self, confidence: Decimal) -> Option<int> {
        if self.peak_confidence@ > 0 {
            divided_by(
                difference(num(self.peak_confidence), num(confidence)),
                self.peak_confidence,
            )
        } else {
            Some(0)
        }
    }

    /// Whether the signal points against the position.
    pub open spec fn flipped(self, signal: Signal) -> bool {
        &&& self.position_direction != Some(signal.is_up())
        &&& signal.is_up() || signal.is_down()
    }

    /// Whether a tier is due: it was not used, and confidence has dropped far enough or, for the
    /// last tier, the signal has flipped.
    pub open spec fn tier_due(self, tier: int, confidence: Decimal, signal: Signal) -> bool {
        &&& self.position_direction is Some
        &&& self.position_shares()@ > 0
        &&& !self.hedge_tiers_triggered@[tier]
        &&& if tier == 2 {
            self.flipped(signal)
        } else {
            self.drop_from_peak(confidence)->0 >= units(tier_drop_percent(tier), 2)
        }
    }

    /// Whether the price of a hedge is within the limit of its tier.
    pub open spec fn tier_affordable(self, tier: int, ask: Decimal) -> bool {
        0 < ask@ <= units(tier_max_cents(tier), 2)
    }

    /// Shares of a hedge before the smallest order is considered.
    pub open spec fn tier_share(self, tier: int) -> Option<int> {
        product(num(self.position_shares()), lit(tier_size_percent(tier), 2))
    }

    /// Shares of a hedge: whole shares, at least the smallest order.
    pub open spec fn tier_shares(self, tier: int) -> int {
        let whole = rounded_down(self.tier_share(tier)->0);
        if whole < self.min_order_size@ {
            self.min_order_size@
        } else {
            whole
        }
    }

    /// Whether `r` is what a hedge tier comes to, given the ask price of the other outcome, where it
    /// is known.
    pub open spec fn hedges_as(
        self,
        tier: int,
        confidence: Decimal,
        signal: Signal,
        hedge_ask: Option<Decimal>,
        r: HedgeAction,
    ) -> bool {
        if !self.tier_due(tier, confidence, signal) || hedge_ask is None {
            r is Wait
        } else if !self.tier_affordable(tier, hedge_ask->0) {
            r is TooExpensive
        } else {
            r is Buy && r->shares@ == self.tier_shares(tier) && r->price == hedge_ask->0
        }
    }

    /// Raises the peak of confidence, once there is a position.
    pub fn note_confidence(&mut self, confidence: Decimal)
        ensures
            *final(self) == (TrackedMarket {
                peak_confidence: if old(self).position_direction is Some
                    && old(self).peak_confidence@ < confidence@ {
                    confidence
                } else {
                    old(self).peak_confidence
                },
                ..*old(self)
            }),
    {
        if self.position_direction.is_some() {
            self.peak_confidence = self.peak_confidence.max(confidence);
        }
    }

    /// What a hedge tier comes to, given the ask price of the other outcome, where it is known.
    pub fn hedge_action(
        &self,
        tier: usize,
        confidence: Decimal,
        signal: Signal,
        hedge_ask: Option<Decimal>,
    ) -> (r: HedgeAction)
        requires
            tier < 3,
            self.position_direction is Some && self.position_shares()@ > 0 ==> self.drop_from_peak(
                confidence,
            ) is Some,
            self.tier_due(tier as int, confidence, signal) && hedge_ask is Some
                && self.tier_affordable(tier as int, hedge_ask->0) ==> self.tier_share(
                tier as int,
            ) is Some,
        ensures
            self.hedges_as(tier as int, confidence, signal, hedge_ask, r),
    {
        let up = match self.position_direction {
            Some(up) => up,
            None => {
                return HedgeAction::Wait;
            },
        };
        let shares = if up {
            self.inventory.yes_shares
        } else {
            self.inventory.no_shares
        };
        if shares <= Decimal::zero() {
            return HedgeAction::Wait;
        }
        let drop_pct = if self.peak_confidence > Decimal::zero() {
            self.peak_confidence.minus(confidence).over(self.peak_confidence)
        } else {
            Decimal::zero()
        };
        if self.hedge_tiers_triggered[tier] {
            return HedgeAction::Wait;
        }
        let due = if tier == 2 {
            up != signal.points_up() && signal.is_directional()
        } else if tier == 0 {
            drop_pct >= Decimal::new(30, 2)
        } else {
            drop_pct >= Decimal::new(50, 2)
        };
        if !due {
            return HedgeAction::Wait;
        }
        let ask = match hedge_ask {
            Some(ask) => ask,
            None => {
                return HedgeAction::Wait;
            },
        };
        let (size_percent, max_price) = if tier == 0 {
            (Decimal::new(10, 2), Decimal::new(25, 2))
        } else if tier == 1 {
            (Decimal::new(15, 2), Decimal::new(35, 2))
        } else {
            (Decimal::new(25, 2), Decimal::new(45, 2))
        };
        if ask > max_price || ask <= Decimal::zero() {
            return HedgeAction::TooExpensive;
        }
        let mut hedge_shares = shares.times(size_percent).floor();
        if hedge_shares < self.min_order_size {
            hedge_shares = self.min_order_size;
        }
        HedgeAction::Buy { shares: hedge_shares, price: ask }
    }

    /// Marks a tier as used.
    pub fn mark_tier(&mut self, tier: usize)
        requires
            tier < 3,
        ensures
            *final(self) == (TrackedMarket {
                hedge_tiers_triggered: final(self).hedge_tiers_triggered,
                ..*old(self)
            }),
            final(self).hedge_tiers_triggered@ == old(self).hedge_tiers_triggered@.update(
                tier as int,
                true,
            ),
    {
        self.hedge_tiers_triggered[tier] = true;
    }

    // ------------------------------------------------------------------------
    // Directional trades
    // ------------------------------------------------------------------------

    /// Shares of a directional order: what the dollars buy in whole shares, at least the smallest
    /// order.
    pub open spec fn spec_directional_shares(self, dollars: Decimal, price: Decimal) -> int {
        let whole = rounded_down(divided_by(num(dollars), price)->0);
        if whole < self.min_order_size@ {
            self.min_order_size@
        } else {
            whole
        }
    }

    /// Shares of a directional order.
    pub fn directional_shares(&self, dollars: Decimal, price: Decimal) -> (r: Decimal)
        requires
            divided_by(num(dollars), price) is Some,
        ensures
            r@ == self.spec_directional_shares(dollars, price),
    {
        let shares = dollars.over(price).floor();
        if shares < self.min_order_size {
            self.min_order_size
        } else {
            shares
        }
    }

    /// Whether budget for an order can be set aside within range.
    pub open spec fn reserve_fits(self, dollars: Decimal) -> bool {
        let phase = phase_of(self.state.seconds_remaining);
        &&& sum(num(self.position_manager.phase_spent.at(phase)), num(dollars)) is Some
        &&& sum(num(self.position_manager.total_spent), num(dollars)) is Some
        &&& i64::MIN <= self.clock() <= i64::MAX
    }

    /// Takes note of an order that is about to be placed: time, budget, signal and confidence.
    pub fn begin_order(&mut self, dollars: Decimal, signal: Signal, confidence: Decimal)
        requires
            old(self).reserve_fits(dollars),
        ensures
            *final(self) == (TrackedMarket {
                last_order_ms: Some(old(self).clock() as i64),
                position_manager: final(self).position_manager,
                last_signal: final(self).last_signal,
                last_confidence: confidence,
                ..*old(self)
            }),
            final(self).last_signal@ == signal.spec_variant_name(),
            final(self).position_manager == (PositionManager {
                phase_spent: final(self).position_manager.phase_spent,
                total_spent: final(self).position_manager.total_spent,
                ..old(self).position_manager
            }),
            Some(final(self).position_manager.total_spent@) == sum(
                num(old(self).position_manager.total_spent),
                num(dollars),
            ),
            final(self).position_manager.phase_spent
                == old(self).position_manager.phase_spent.with(
                phase_of(old(self).state.seconds_remaining),
                final(self).position_manager.phase_spent.at(
                    phase_of(old(self).state.seconds_remaining),
                ),
            ),
            Some(
                final(self).position_manager.phase_spent.at(
                    phase_of(old(self).state.seconds_remaining),
                )@,
            ) == sum(
                num(
                    old(self).position_manager.phase_spent.at(
                        phase_of(old(self).state.seconds_remaining),
                    ),
                ),
                num(dollars),
            ),
    {
        self.last_order_ms = Some(self.market_time());
        self.position_manager.reserve_budget(dollars, self.state.seconds_remaining);
        self.last_signal = signal.variant_name().to_owned();
        self.last_confidence = confidence;
    }

    /// Whether budget that was set aside can be given back within range.
    pub open spec fn release_fits(self, dollars: Decimal) -> bool {
        let phase = phase_of(self.state.seconds_remaining);
        &&& difference(num(self.position_manager.phase_spent.at(phase)), num(dollars)) is Some
        &&& difference(num(self.position_manager.total_spent), num(dollars)) is Some
    }

    /// Gives back budget that was set aside.
    pub fn cancel_order_budget(&mut self, dollars: Decimal)
        requires
            old(self).release_fits(dollars),
        ensures
            *final(self) == (TrackedMarket {
                position_manager: final(self).position_manager,
                ..*old(self)
            }),
            old(self).position_manager.released(
                dollars,
                old(self).state.seconds_remaining,
                final(self).position_manager,
            ),
    {
        self.position_manager.release_reservation(dollars, self.state.seconds_remaining);
    }

    /// Whether a directional fill can be booked within range.
    pub open spec fn directional_fill_fits(
        self,
        up: bool,
        size: Decimal,
        cost: Decimal,
        reserved: Decimal,
    ) -> bool {
        &&& self.inventory.fill_fits(if up { Outcome::Yes } else { Outcome::No }, size, cost)
        &&& self.release_fits(reserved)
        &&& forall|between: PositionManager| #[trigger]
            self.position_manager.released(reserved, self.state.seconds_remaining, between)
                ==> between.trade_fits(
                cost@,
                if up { cost@ } else { 0 },
                if up { 0 } else { cost@ },
                self.state.seconds_remaining,
            )
    }

    /// Whether `after` is this market with a directional fill booked: inventory, direction, peak of
    /// confidence, and the reserved budget turned into a trade.
    pub open spec fn directional_filled(
        self,
        up: bool,
        size: Decimal,
        cost: Decimal,
        reserved: Decimal,
        confidence: Decimal,
        after: TrackedMarket,
    ) -> bool {
        &&& after == (TrackedMarket {
            inventory: after.inventory,
            position_direction: Some(up),
            peak_confidence: if self.peak_confidence@ < confidence@ {
                confidence
            } else {
                self.peak_confidence
            },
            position_manager: after.position_manager,
            ..self
        })
        &&& self.inventory.filled(
            if up { Outcome::Yes } else { Outcome::No },
            size,
            cost,
            after.inventory,
        )
        &&& exists|between: PositionManager| #[trigger]
            self.position_manager.released(reserved, self.state.seconds_remaining, between)
                && between.traded(
                cost@,
                if up { cost@ } else { 0 },
                if up { 0 } else { cost@ },
                self.state.seconds_remaining,
                after.position_manager,
            )
    }

    /// Books a directional fill.
    pub fn book_directional_fill(
        &mut self,
        up: bool,
        size: Decimal,
        cost: Decimal,
        reserved: Decimal,
        confidence: Decimal,
    )
        requires
            old(self).directional_fill_fits(up, size, cost, reserved),
        ensures
            old(self).directional_filled(up, size, cost, reserved, confidence, *final(self)),
    {
        let outcome = if up {
            Outcome::Yes
        } else {
            Outcome::No
        };
        let up_cost = if up {
            cost
        } else {
            Decimal::zero()
        };
        let down_cost = if up {
            Decimal::zero()
        } else {
            cost
        };
        self.inventory.record_fill(outcome, size, cost);
        self.position_direction = Some(up);
        self.peak_confidence = self.peak_confidence.max(confidence);
        self.position_manager.commit_reservation(
            reserved,
            cost,
            up_cost,
            down_cost,
            self.state.seconds_remaining,
        );
    }

    // ------------------------------------------------------------------------
    // Fills and settlement
    // ------------------------------------------------------------------------

    /// Cost of a fill: size times price, plus the fee.
    pub open spec fn fill_cost(size: Decimal, price: Decimal, fee: Decimal) -> Option<int> {
        sum(product(num(size), num(price)), num(fee))
    }

    /// One less both best asks, where they are positive; else zero.
    pub open spec fn margin_now(self) -> Option<int> {
        match (self.state.yes_book.ask(), self.state.no_book.ask()) {
            (Some(yes), Some(no)) => if yes@ > 0 && no@ > 0 {
                difference(difference(lit(1, 0), num(yes)), num(no))
            } else {
                Some(0)
            },
            _ => Some(0),
        }
    }

    /// One less both best asks, where they are positive; else zero.
    pub fn arb_margin_now(&self) -> (r: Decimal)
        requires
            self.margin_now() is Some,
        ensures
            Some(r@) == self.margin_now(),
    {
        match (self.state.yes_book.best_ask(), self.state.no_book.best_ask()) {
            (Some(yes), Some(no)) => if yes > Decimal::zero() && no > Decimal::zero() {
                Decimal::one().minus(yes).minus(no)
            } else {
                Decimal::zero()
            },
            _ => Decimal::zero(),
        }
    }
}

/// Settlement of a market.
#[derive(Clone, Debug)]
pub struct Settlement {
    pub event_id: String,
    pub asset: CryptoAsset,
    pub strike_price: Decimal,
    /// Price at which the market was settled.
    pub final_spot: Decimal,
    pub yes_wins: bool,
    pub yes_shares: Decimal,
    pub no_shares: Decimal,
    pub cost_basis: Decimal,
    pub payout: Decimal,
    pub realized_pnl: Decimal,
    /// Profit in whole cents, where the market was traded.
    pub pnl_cents: Option<i64>,
}

impl TrackedMarket {
    /// Whether the market is settled to YES at a price: at the strike or above.
    pub open spec fn settles_yes(self, final_spot: Decimal) -> bool {
        final_spot@ >= self.strike_price@
    }

    /// Shares that pay one dollar each.
    pub open spec fn winning_shares(self, final_spot: Decimal) -> Decimal {
        if self.settles_yes(final_spot) {
            self.inventory.yes_shares
        } else {
            self.inventory.no_shares
        }
    }

    /// Payout less cost.
    pub open spec fn settled_pnl(self, final_spot: Decimal) -> Option<int> {
        difference(num(self.winning_shares(final_spot)), self.inventory.exposure())
    }

    /// Whether the arithmetic of a settlement stays within range.
    pub open spec fn settlement_fits(self, final_spot: Decimal) -> bool {
        &&& self.inventory.exposure() is Some
        &&& self.settled_pnl(final_spot) is Some
        &&& self.inventory.exposure()->0 != 0 ==> product(
            self.settled_pnl(final_spot),
            lit(100, 0),
        ) is Some
    }

    /// Whether `r` is the settlement at a price.
    pub open spec fn settled_as(self, final_spot: Decimal, r: Settlement) -> bool {
        &&& r.event_id == self.event_id
        &&& r.asset == self.asset
        &&& r.strike_price == self.strike_price
        &&& r.final_spot == final_spot
        &&& r.yes_wins == self.settles_yes(final_spot)
        &&& r.yes_shares == self.inventory.yes_shares
        &&& r.no_shares == self.inventory.no_shares
        &&& added(self.inventory.yes_cost_basis, self.inventory.no_cost_basis, r.cost_basis)
        &&& r.payout == self.winning_shares(final_spot)
        &&& Some(r.realized_pnl@) == self.settled_pnl(final_spot)
        &&& r.realized_pnl.spec_scale() == sum_scale(
            r.payout,
            r.cost_basis,
            r.payout@ - r.cost_basis@,
        )
        &&& r.pnl_cents == if r.cost_basis@ != 0 {
            Some(
                match crate::decimal::whole_i64(
                    product(self.settled_pnl(final_spot), lit(100, 0))->0,
                ) {
                    Some(cents) => cents,
                    None => 0,
                },
            )
        } else {
            None
        }
    }

    /// Settles the market at a price.
    pub fn settle(&self, final_spot: Decimal) -> (r: Settlement)
        requires
            self.settlement_fits(final_spot),
        ensures
            self.settled_as(final_spot, r),
    {
        let cost_basis = self.inventory.total_exposure();
        let yes_wins = final_spot >= self.strike_price;
        let payout = if yes_wins {
            self.inventory.yes_shares
        } else {
            self.inventory.no_shares
        };
        let realized_pnl = payout.minus(cost_basis);
        let pnl_cents: Option<i64> = if !cost_basis.is_zero() {
            match realized_pnl.times(Decimal::new(100, 0)).to_i64() {
                Some(cents) => Some(cents),
                None => Some(0),
            }
        } else {
            None
        };
        Settlement {
            event_id: self.event_id.clone(),
            asset: self.asset,
            strike_price: self.strike_price,
            final_spot,
            yes_wins,
            yes_shares: self.inventory.yes_shares,
            no_shares: self.inventory.no_shares,
            cost_basis,
            payout,
            realized_pnl,
            pnl_cents,
        }
    }
}

/// A hedge tier that was used never fires again.
pub proof fn law_tiers_fire_once(
    before: TrackedMarket,
    after: TrackedMarket,
    tier: int,
    other: int,
    confidence: Decimal,
    signal: Signal,
)
    requires
        0 <= tier < 3,
        0 <= other < 3,
        before.hedge_tiers_triggered@[tier],
        before.hedge_tiers_triggered@.len() == 3,
        after.hedge_tiers_triggered@ == before.hedge_tiers_triggered@.update(other, true),
    ensures
        !before.tier_due(tier, confidence, signal),
        !after.tier_due(tier, confidence, signal),
        !after.tier_due(other, confidence, signal),
{
}

/// A later tier needs a deeper drop, hedges more and may cost more.
pub proof fn law_tiers_escalate(earlier: int, later: int)
    requires
        0 <= earlier < later < 3,
    ensures
        tier_drop_percent(earlier) < tier_drop_percent(later),
        tier_size_percent(earlier) < tier_size_percent(later),
        tier_max_cents(earlier) < tier_max_cents(later),
{
}

/// A pair of one YES and one NO share for every share held pays the same whichever side wins.
pub proof fn law_matched_pairs_are_safe(market: TrackedMarket, a: Decimal, b: Decimal)
    requires
        market.inventory.yes_shares@ == market.inventory.no_shares@,
    ensures
        market.settled_pnl(a) == market.settled_pnl(b),
{
}

/// A settled market pays one dollar for each share of the winning side and nothing for the other:
/// YES wins at the strike or above, NO below it. What was earned is the payout less the cost of
/// both sides.
pub proof fn law_settlement_pays_the_winner(market: TrackedMarket, final_spot: Decimal, r: Settlement)
    requires
        market.settled_as(final_spot, r),
    ensures
        final_spot@ >= market.strike_price@ ==> {
            &&& r.yes_wins
            &&& r.payout == market.inventory.yes_shares
            &&& Some(r.realized_pnl@) == difference(
                num(market.inventory.yes_shares),
                sum(num(market.inventory.yes_cost_basis), num(market.inventory.no_cost_basis)),
            )
        },
        final_spot@ < market.strike_price@ ==> {
            &&& !r.yes_wins
            &&& r.payout == market.inventory.no_shares
            &&& Some(r.realized_pnl@) == difference(
                num(market.inventory.no_shares),
                sum(num(market.inventory.yes_cost_basis), num(market.inventory.no_cost_basis)),
            )
        },
        Some(r.cost_basis@) == sum(
            num(market.inventory.yes_cost_basis),
            num(market.inventory.no_cost_basis),
        ),
        r.yes_shares == market.inventory.yes_shares,
        r.no_shares == market.inventory.no_shares,
        r.final_spot == final_spot,
        r.strike_price == market.strike_price,
        r.event_id == market.event_id,
        r.asset == market.asset,
        r.pnl_cents is Some <==> r.cost_basis@ != 0,
        representable(market.inventory.yes_cost_basis@ + market.inventory.no_cost_basis@)
            && representable(
            r.payout@ - market.inventory.yes_cost_basis@ - market.inventory.no_cost_basis@,
        ) ==> r.realized_pnl@ == r.payout@ - market.inventory.yes_cost_basis@
            - market.inventory.no_cost_basis@,
{
    let yes = market.inventory.yes_cost_basis@;
    let no = market.inventory.no_cost_basis@;
    crate::decimal::law_arithmetic_is_exact(yes, no);
    crate::decimal::law_arithmetic_is_exact(r.payout@, yes + no);
    assert(r.payout@ - (yes + no) == r.payout@ - yes - no);
}

/// Shares of the side that loses pay nothing, and of the two sides exactly one is paid: what YES
/// pays above the strike and what NO pays below it are all the shares held.
pub proof fn law_one_side_is_paid(
    market: TrackedMarket,
    above: Decimal,
    below: Decimal,
    r: Settlement,
    s: Settlement,
)
    requires
        above@ >= market.strike_price@,
        below@ < market.strike_price@,
        market.settled_as(above, r),
        market.settled_as(below, s),
    ensures
        r.payout@ + s.payout@ == market.inventory.yes_shares@ + market.inventory.no_shares@,
        market.inventory.no_shares@ == 0 ==> s.payout@ == 0,
        market.inventory.yes_shares@ == 0 ==> r.payout@ == 0,
        r.yes_wins != s.yes_wins,
        r.cost_basis@ == s.cost_basis@,
{
}

/// Cents of a settlement are its profit in dollars times a hundred, with the fraction cut off.
pub proof fn law_cents_of_a_settlement(market: TrackedMarket, final_spot: Decimal, r: Settlement)
    requires
        market.settled_as(final_spot, r),
        market.settlement_fits(final_spot),
        r.cost_basis@ != 0,
        representable(100 * r.realized_pnl@),
        -units(1_000_000_000, 0) < 100 * r.realized_pnl@ < units(1_000_000_000, 0),
    ensures
        ({
            let cents = r.pnl_cents->0 as int;
            &&& r.realized_pnl@ >= 0 ==> units(cents, 0) <= 100 * r.realized_pnl@ < units(
                cents + 1,
                0,
            )
            &&& r.realized_pnl@ <= 0 ==> units(cents - 1, 0) < 100 * r.realized_pnl@ <= units(
                cents,
                0,
            )
        }),
{
    let p = crate::decimal::pow10(28);
    let v = r.realized_pnl@;
    assert(v * (100 * p) == p * (100 * v)) by (nonlinear_arith);
    crate::decimal::lemma_exact_value(v * units(100, 0), p, 100 * v);
    crate::decimal::law_whole_parts(100 * v);
    let w = -(100 * v);
    let q = w / p;
    if v < 0 {
        assert(0 <= q < 1_000_000_000) by (nonlinear_arith)
            requires
                q == w / p,
                0 <= w < 1_000_000_000 * p,
                p > 0,
        ;
    }
    let cents = r.pnl_cents->0 as int;
    assert((cents + 1) * p == cents * p + p && (cents - 1) * p == cents * p - p)
        by (nonlinear_arith);
}

/// Whether two markets hold the same position but for UP and DOWN trading places.
pub open spec fn mirror_positions(a: TrackedMarket, b: TrackedMarket) -> bool {
    &&& a.position_direction is Some && b.position_direction is Some
    &&& b.position_direction->0 == !a.position_direction->0
    &&& b.inventory.yes_shares == a.inventory.no_shares
    &&& b.inventory.no_shares == a.inventory.yes_shares
    &&& b.peak_confidence == a.peak_confidence
    &&& b.hedge_tiers_triggered@ == a.hedge_tiers_triggered@
    &&& b.min_order_size == a.min_order_size
}

/// A DOWN position is hedged as the UP position that mirrors it: with the shares, the direction and
/// the signal turned around, each tier comes to the same.
pub proof fn law_hedges_mirror(
    a: TrackedMarket,
    b: TrackedMarket,
    tier: int,
    confidence: Decimal,
    signal: Signal,
    ask: Option<Decimal>,
    r: HedgeAction,
    s: HedgeAction,
)
    requires
        mirror_positions(a, b),
        a.hedges_as(tier, confidence, signal, ask, r),
        b.hedges_as(tier, confidence, signal.mirrored(), ask, s),
    ensures
        r is Wait <==> s is Wait,
        r is TooExpensive <==> s is TooExpensive,
        r is Buy <==> s is Buy,
        r is Buy ==> r->shares@ == s->shares@ && r->price == s->price,
{
}

/// What a hedge of an affordable tier that is due buys: a share of the position, in whole shares and
/// at least the smallest order, at the ask of the other outcome. The position is what is held on the
/// side of its direction, and the other side does not matter.
pub proof fn law_hedges_go_by_the_position(
    market: TrackedMarket,
    tier: int,
    confidence: Decimal,
    signal: Signal,
    ask: Option<Decimal>,
    r: HedgeAction,
)
    requires
        0 <= tier < 3,
        market.hedges_as(tier, confidence, signal, ask, r),
    ensures
        ({
            let held = if market.position_direction == Some(true) {
                market.inventory.yes_shares
            } else {
                market.inventory.no_shares
            };
            let percent: int = if tier == 0 {
                10
            } else if tier == 1 {
                15
            } else {
                25
            };
            let whole = rounded_down(product(num(held), lit(percent, 2))->0);
            &&& market.position_direction is None ==> r is Wait
            &&& held@ <= 0 ==> r is Wait
            &&& market.hedge_tiers_triggered@[tier] ==> r is Wait
            &&& ask is None ==> r is Wait
            &&& r is Buy ==> {
                &&& Some(r->price) == ask
                &&& r->shares@ >= market.min_order_size@
                &&& r->shares@ >= whole
                &&& r->shares@ == whole || r->shares@ == market.min_order_size@
                &&& r->price@ > 0
            }
        }),
{
}

/// When a tier is due: the first two as confidence has dropped from its peak by 30 and 50 percent,
/// the last as the signal points against the position, whatever confidence is. A neutral signal
/// points nowhere, and without a drop nothing is due.
pub proof fn law_when_hedges_are_due(
    market: TrackedMarket,
    tier: int,
    confidence: Decimal,
    signal: Signal,
)
    requires
        0 <= tier < 3,
        market.position_direction is Some,
        market.position_direction == Some(true) ==> market.inventory.yes_shares@ > 0,
        market.position_direction == Some(false) ==> market.inventory.no_shares@ > 0,
        !market.hedge_tiers_triggered@[tier],
        market.drop_from_peak(confidence) is Some,
    ensures
        tier == 2 ==> (market.tier_due(tier, confidence, signal) <==> if market.position_direction
            == Some(true) {
            signal is StrongDown || signal is LeanDown
        } else {
            signal is StrongUp || signal is LeanUp
        }),
        tier < 2 && confidence@ >= market.peak_confidence@ ==> !market.tier_due(
            tier,
            confidence,
            signal,
        ),
        tier < 2 && market.peak_confidence@ > 0 ==> (market.tier_due(tier, confidence, signal) <==>
            divided_by(
            difference(num(market.peak_confidence), num(confidence)),
            market.peak_confidence,
        )->0 >= units(if tier == 0 { 30 } else { 50 }, 2)),
{
    let d = market.peak_confidence@ - confidence@;
    if market.position_direction != Some(true) {
        assert(market.position_direction == Some(false));
    }
    if market.peak_confidence@ > 0 {
        crate::decimal::lemma_sign(d, 1);
        crate::decimal::lemma_quotient_sign(
            difference(num(market.peak_confidence), num(confidence))->0,
            market.peak_confidence@,
        );
    }
}

/// A hedge is bought only up to the price of its tier: 25, 35 and 45 cents.
pub proof fn law_hedges_are_cheap(
    market: TrackedMarket,
    tier: int,
    confidence: Decimal,
    signal: Signal,
    ask: Option<Decimal>,
    r: HedgeAction,
)
    requires
        0 <= tier < 3,
        market.hedges_as(tier, confidence, signal, ask, r),
    ensures
        r is Buy ==> r->price@ <= units(if tier == 0 { 25 } else if tier == 1 { 35 } else { 45 }, 2),
        r is TooExpensive ==> ask is Some && (ask->0@ <= 0 || ask->0@ > units(
            if tier == 0 { 25 } else if tier == 1 { 35 } else { 45 },
            2,
        )),
{
}

/// A hedge is on the other side of the position: NO for UP, YES for DOWN, by outcome and by token.
pub proof fn law_hedges_are_on_the_other_side(market: TrackedMarket)
    ensures
        market.position_direction == Some(true) ==> market.hedge_side() is No
            && market.hedge_token() == market.no_token_id,
        market.position_direction == Some(false) ==> market.hedge_side() is Yes
            && market.hedge_token() == market.yes_token_id,
        market.position_direction is Some && market.yes_token_id@ != market.no_token_id@ ==>
            market.outcome_of(market.hedge_token()@) == market.hedge_side(),
{
}

/// A directional fill is booked where it was bought: an UP fill adds YES shares and makes the position
/// an UP position, a DOWN fill NO shares and a DOWN position. The other side keeps what it holds, and
/// the peak of confidence never falls.
pub proof fn law_directional_fill_is_booked_on_its_side(
    before: TrackedMarket,
    up: bool,
    size: Decimal,
    cost: Decimal,
    reserved: Decimal,
    confidence: Decimal,
    after: TrackedMarket,
)
    requires
        before.directional_filled(up, size, cost, reserved, confidence, after),
    ensures
        after.position_direction == Some(up),
        up ==> after.inventory.no_shares == before.inventory.no_shares
            && after.inventory.no_cost_basis == before.inventory.no_cost_basis,
        !up ==> after.inventory.yes_shares == before.inventory.yes_shares
            && after.inventory.yes_cost_basis == before.inventory.yes_cost_basis,
        up ==> Some(after.inventory.yes_shares@) == sum(
            num(before.inventory.yes_shares),
            num(size),
        ) && Some(after.inventory.yes_cost_basis@) == sum(
            num(before.inventory.yes_cost_basis),
            num(cost),
        ),
        !up ==> Some(after.inventory.no_shares@) == sum(
            num(before.inventory.no_shares),
            num(size),
        ) && Some(after.inventory.no_cost_basis@) == sum(
            num(before.inventory.no_cost_basis),
            num(cost),
        ),
        after.peak_confidence@ >= before.peak_confidence@,
        after.peak_confidence@ >= confidence@,
        after.peak_confidence@ == before.peak_confidence@ || after.peak_confidence@ == confidence@,
        after.position_manager.trade_count == before.position_manager.trade_count + 1,
        representable(before.position_manager.total_spent@ - reserved@) && representable(
            before.position_manager.total_spent@ - reserved@ + cost@,
        ) ==> after.position_manager.total_spent@ == before.position_manager.total_spent@
            - reserved@ + cost@,
        after.state == before.state,
        after.strike_price == before.strike_price,
        after.hedge_tiers_triggered == before.hedge_tiers_triggered,
{
    let x = before.position_manager.total_spent@;
    crate::decimal::law_arithmetic_is_exact(x, reserved@);
    crate::decimal::law_arithmetic_is_exact(x - reserved@, cost@);
}

/// Of two warnings the more severe one counts, whichever token it is about; one alone counts as it
/// is.
pub proof fn law_worst_warning_counts(market: TrackedMarket)
    ensures
        market.worst_warning() is None <==> market.yes_toxic_warning is None
            && market.no_toxic_warning is None,
        market.yes_toxic_warning is Some ==> market.worst_warning()->0.severity.spec_score()
            >= market.yes_toxic_warning->0.severity.spec_score(),
        market.no_toxic_warning is Some ==> market.worst_warning()->0.severity.spec_score()
            >= market.no_toxic_warning->0.severity.spec_score(),
        market.worst_warning() is Some ==> market.worst_warning() == market.yes_toxic_warning
            || market.worst_warning() == market.no_toxic_warning,
{
}

/// A directional order buys no more whole shares than the dollars pay for, unless the smallest order
/// asks for more, and no fewer.
pub proof fn law_shares_for_dollars(market: TrackedMarket, dollars: Decimal, price: Decimal)
    requires
        price@ > 0,
        dollars@ >= 0,
        divided_by(num(dollars), price) is Some,
    ensures
        ({
            let shares = market.spec_directional_shares(dollars, price);
            let exact = divided_by(num(dollars), price)->0;
            &&& shares >= market.min_order_size@
            &&& shares > market.min_order_size@ ==> shares <= exact < shares + units(1, 0)
                && shares % units(1, 0) == 0
            &&& shares == market.min_order_size@ ==> exact < shares + units(1, 0)
        }),
{
    crate::decimal::law_whole_parts(divided_by(num(dollars), price)->0);
}

/// The seconds remaining shrink as time goes by, never below zero; none remain exactly when less than
/// a second is left.
pub proof fn law_time_runs_out(market: TrackedMarket, earlier: i64, later: i64)
    requires
        earlier <= later,
    ensures
        market.seconds_left(later) <= market.seconds_left(earlier),
        market.seconds_left(later) >= 0,
        later >= market.window_end_ms ==> market.seconds_left(later) == 0,
        later <= market.window_end_ms ==> 1000 * market.seconds_left(later)
            <= market.window_end_ms - later < 1000 * market.seconds_left(later) + 1000,
{
    let a = market.window_end_ms - earlier;
    let b = market.window_end_ms - later;
}

/// After an order the next one has to wait: within five seconds of market time it is too soon, after
/// that it is not.
pub proof fn law_orders_wait(market: TrackedMarket, last: i64)
    requires
        market.last_order_ms == Some(last),
        last <= market.window_end_ms - market.state.seconds_remaining * 1000,
    ensures
        market.cooling_down() <==> market.window_end_ms - market.state.seconds_remaining * 1000 - last
            < 5000,
{
}

/// A new market for a window: it is the market of the event, with empty books and nothing held, and
/// nothing spent of its budget.
pub proof fn law_new_markets_are_empty(
    market: TrackedMarket,
    event: WindowOpenEvent,
    budget: Decimal,
    config: StrategyConfig,
    min_order_size: int,
    now_ms: i64,
)
    requires
        market.is_new(event, budget, config, min_order_size, now_ms),
    ensures
        market.yes_token_id == event.yes_token_id && market.no_token_id == event.no_token_id,
        market.state.yes_book.token_id == event.yes_token_id,
        market.state.no_book.token_id == event.no_token_id,
        market.strike_price == event.strike_price && market.state.strike_price
            == event.strike_price,
        market.asset == event.asset && market.state.asset == event.asset,
        market.window_end_ms == event.window_end_ms,
        market.inventory.yes_shares@ == 0 && market.inventory.no_shares@ == 0,
        market.inventory.exposure() == Some(0int),
        market.position_manager.total_spent@ == 0,
        market.position_manager.config.total_budget == budget,
        market.position_direction is None,
        market.last_order_ms is None,
        !market.cooling_down(),
        market.worst_warning() is None,
        !market.tier_due(0, budget, Signal::StrongUp),
{
    crate::decimal::lemma_exact(0, 1, 0, 0);
}

/// A snapshot shows what the trade is decided by: value is confidence less price, and there would be a
/// trade exactly where it reaches the least edge. Over the window time confidence grows from three
/// tenths to one, and the least edge falls from its maximum to nothing.
pub proof fn law_snapshots_show_the_terms(
    terms: SnapshotTerms,
    event_id: Seq<char>,
    r: ConfidenceSnapshot,
)
    requires
        terms.fits(),
        terms.shown_by(event_id, r),
        terms.window > 0,
    ensures
        r.event_id@ == event_id,
        r.confidence == terms.confidence,
        r.favorable_price == terms.price,
        representable(terms.confidence@ - terms.price@) ==> r.ev@ == terms.confidence@
            - terms.price@,
        r.would_trade <==> r.ev@ >= r.min_edge@,
        terms.seconds == terms.window ==> r.time_confidence@ == units(30, 2),
        terms.seconds == 0 ==> r.time_confidence@ == units(1, 0),
        terms.edge_seconds == terms.window && representable(terms.max_edge_factor@)
            ==> r.min_edge@ == terms.max_edge_factor@,
        terms.edge_seconds == 0 ==> r.min_edge@ == 0,
        r.distance_confidence@ <= units(1, 0),
        terms.atr@ <= 0 ==> r.atr_multiple@ == 0,
        terms.atr@ > 0 && representable(terms.atr@) && terms.distance == terms.atr@
            ==> r.atr_multiple@ == units(1, 0) && r.distance_confidence@ == units(70, 2),
        r.distance_dollars@ == terms.distance,
{
    let p = crate::decimal::pow10(28);
    let w = units(terms.window as int, 0);
    assert(w == terms.window * p);
    assert(w > 0) by (nonlinear_arith)
        requires
            w == terms.window * p,
            terms.window > 0,
            p > 0,
    ;
    assert(representable(w));
    crate::decimal::law_arithmetic_is_exact(w, 0);
    crate::decimal::law_arithmetic_is_exact(terms.confidence@, terms.price@);
    crate::decimal::law_arithmetic_is_exact(terms.max_edge_factor@, 0);
    crate::decimal::law_arithmetic_is_exact(terms.atr@, 0);
    crate::decimal::lemma_exact(0, 1, 0, 0);
    crate::decimal::lemma_exact(0, p, 0, 0);
    crate::decimal::lemma_exact(0, w, 0, 0);
    crate::decimal::lemma_lit_sum(30, 0, 2);
    crate::decimal::lemma_lit_sum(30, 70, 2);
    crate::decimal::lemma_lit_sum(20, 50, 2);
    crate::decimal::lemma_lit_difference(1, 0, 0);
    let c = crate::decimal::pow10(26);
    assert(units(70, 2) == 70 * c && units(50, 2) == 50 * c && p == 100 * c);
    assert(representable(units(70, 2)));
    assert(representable(units(50, 2)));
    crate::decimal::law_arithmetic_is_exact(units(70, 2), 0);
    crate::decimal::law_arithmetic_is_exact(units(50, 2), 0);
    assert(0 * p == 0 && units(70, 2) * 0 == 0 && terms.max_edge_factor@ * 0 == 0);
    assert(units(0, 2) == 0 && units(0, 0) == 0);
    assert(units(100, 2) == units(1, 0));
}

/// The margin of a pair is what is left of a dollar after both best asks; without positive asks on
/// both sides there is none.
pub proof fn law_margin_of_the_moment(market: TrackedMarket)
    ensures
        market.state.yes_book.asks@.len() == 0 || market.state.no_book.asks@.len() == 0
            ==> market.margin_now() == Some(0int),
        market.state.yes_book.asks@.len() > 0 && market.state.no_book.asks@.len() > 0
            && market.state.yes_book.asks@[0].price@ > 0 && market.state.no_book.asks@[0].price@ > 0
            && representable(units(1, 0) - market.state.yes_book.asks@[0].price@) && representable(
            units(1, 0) - market.state.yes_book.asks@[0].price@
                - market.state.no_book.asks@[0].price@,
        ) ==> market.margin_now() == Some(
            units(1, 0) - market.state.yes_book.asks@[0].price@
                - market.state.no_book.asks@[0].price@,
        ),
{
    let yes = market.state.yes_book.asks@[0].price@;
    let no = market.state.no_book.asks@[0].price@;
    crate::decimal::law_arithmetic_is_exact(units(1, 0), yes);
    crate::decimal::law_arithmetic_is_exact(units(1, 0) - yes, no);
}

} // verus!
