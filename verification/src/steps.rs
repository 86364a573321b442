//! Decisions of the strategy, step by step.
//!
//! Placing an order takes time and may fail, so a trade is made in steps: a step looks at the
//! state and says what to do next; what came of it is handed to the step that follows.

use vstd::prelude::*;
use vstd::string::*;
use crate::aggregator::AggregatedDecision;
use crate::arb::ArbOpportunity;
use crate::config::{ExecutionConfig, ExecutionMode};
use crate::decimal::{
    Decimal, clamped, difference, divided_by, greater, law_arithmetic_is_exact, lemma_exact,
    lemma_lit_sum, lemma_product_monotone, lemma_product_shrinks, lemma_rounded_monotone, lemma_sign,
    lemma_sum_monotone, lesser, lit, magnitude, num, product, quotient_scale, representable, sum,
    units, whole_u64,
};
use crate::directional::DirectionalOpportunity;
use crate::maker::MakerOpportunity;
use crate::maker_orders::{
    ActiveMakerOrder, MakerOrderConfig, has_order_at, outdated, outdated_orders, worn_out,
    worn_out_orders,
};
use crate::market::{ConfidenceSnapshot, HedgeAction, SnapshotTerms, TrackedMarket};
use crate::pivots::PivotConfidence;
use crate::position::{Phase, PositionConfig, PositionManager, SkipReason, TradeDecision, phase_of};
use crate::signal::Signal;
use crate::sizing::{SizingResult, case_of};
use crate::strategy::{
    MarketChange, MultiEngineDecision, PendingOrderType, StrategyState, TradeAction, TradingGate,
    changed,
};
use crate::strategy_config::StrategyConfig;
use crate::table::lists;
use crate::text::{digits, number_text};
use crate::toxic::ToxicFlowWarning;
use crate::types::{CryptoAsset, EngineType, Inventory, MarketState, Outcome, Side};

verus! {

/// How long an order may rest.
#[derive(Clone, Copy, Debug, PartialEq, Eq, Structural)]
pub enum OrderType {
    /// Until it is cancelled.
    Gtc,
    /// Not at all: it fills at once or not.
    Ioc,
}

/// An order to place.
#[derive(Clone, Debug)]
pub struct OrderRequest {
    pub request_id: String,
    pub event_id: String,
    pub token_id: String,
    pub outcome: Outcome,
    pub side: Side,
    /// Size in shares.
    pub size: Decimal,
    pub price: Decimal,
    pub order_type: OrderType,
}

/// What was filled of an order.
#[derive(Clone, Copy, Debug)]
pub struct FillAmounts {
    pub size: Decimal,
    pub cost: Decimal,
    pub fee: Decimal,
}

/// Dollars as whole cents; zero where they are negative or beyond `u64`.
pub open spec fn cents_of(dollars: Option<int>) -> int {
    match whole_u64(product(dollars, lit(100, 0))->0) {
        Some(cents) => cents as int,
        None => 0,
    }
}

/// Dollars as whole cents; zero where they are negative or beyond `u64`.
pub fn volume_cents(dollars: Decimal) -> (r: u64)
    requires
        product(num(dollars), lit(100, 0)) is Some,
    ensures
        r == cents_of(num(dollars)),
{
    match dollars.times(Decimal::new(100, 0)).to_u64() {
        Some(cents) => cents,
        None => 0,
    }
}

/// Price of a share from size and cost of a fill; zero without shares.
pub fn price_per_share(fill: &FillAmounts) -> (r: Decimal)
    requires
        fill.size@ > 0 ==> divided_by(num(fill.cost), fill.size) is Some,
    ensures
        Some(r@) == if fill.size@ > 0 {
            divided_by(num(fill.cost), fill.size)
        } else {
            Some(0)
        },
        r.spec_scale() == if fill.size@ > 0 {
            quotient_scale(
                fill.cost.spec_mantissa(),
                fill.cost.spec_scale(),
                fill.size.spec_mantissa(),
                fill.size.spec_scale(),
            )
        } else {
            0
        },
{
    if fill.size > Decimal::zero() {
        fill.cost.over(fill.size)
    } else {
        Decimal::zero()
    }
}

/// How directional orders are placed: type of the order, and whether it follows the price.
pub open spec fn style_of(execution: ExecutionConfig, is_backtest: bool) -> (OrderType, bool) {
    match execution.execution_mode {
        ExecutionMode::Limit => (OrderType::Gtc, execution.chase_enabled && !is_backtest),
        ExecutionMode::Market => (OrderType::Ioc, false),
    }
}

/// How directional orders are placed: type of the order, and whether it follows the price.
pub fn order_style(execution: &ExecutionConfig, is_backtest: bool) -> (r: (OrderType, bool))
    ensures
        r == style_of(*execution, is_backtest),
{
    match execution.execution_mode {
        ExecutionMode::Limit => (OrderType::Gtc, execution.chase_enabled && !is_backtest),
        ExecutionMode::Market => (OrderType::Ioc, false),
    }
}

/// Why following a price ended.
#[derive(Clone, Copy, Debug, PartialEq, Eq, Structural)]
pub enum ChaseStop {
    MarketClosed,
    PostOnlyRejected,
    Other,
}

/// What to do after following a price has ended.
#[derive(Clone, Copy, Debug)]
pub enum ChaseStep {
    /// The market is closed: stop tracking it.
    Closed,
    /// Try again at this price.
    RetryAt(Decimal),
    /// The order was refused as often as is allowed.
    MaxRetries,
    /// There is no price to try again at.
    NoFreshPrice,
    /// Shares were bought.
    Filled,
    /// Nothing was bought.
    Failed,
}

/// Number of times that an order may be refused for taking liquidity.
pub const MAX_POST_ONLY_RETRIES: u32 = 3;

/// What to do after following a price has ended.
pub open spec fn step_after(
    stop: Option<ChaseStop>,
    success: bool,
    filled: Decimal,
    retries: u32,
    fresh_bid: Option<Decimal>,
) -> ChaseStep {
    if stop == Some(ChaseStop::MarketClosed) {
        ChaseStep::Closed
    } else if stop == Some(ChaseStop::PostOnlyRejected) {
        if retries + 1 >= MAX_POST_ONLY_RETRIES {
            ChaseStep::MaxRetries
        } else {
            match fresh_bid {
                Some(bid) => if bid@ > 0 {
                    ChaseStep::RetryAt(bid)
                } else {
                    ChaseStep::NoFreshPrice
                },
                None => ChaseStep::NoFreshPrice,
            }
        }
    } else if success || filled@ > 0 {
        ChaseStep::Filled
    } else {
        ChaseStep::Failed
    }
}

/// What to do after following a price has ended. An order that would have taken liquidity is tried
/// again at the current bid, `retries` times so far.
pub fn next_chase_step(
    stop: Option<ChaseStop>,
    success: bool,
    filled: Decimal,
    retries: u32,
    fresh_bid: Option<Decimal>,
) -> (r: ChaseStep)
    ensures
        r == step_after(stop, success, filled, retries, fresh_bid),
{
    match stop {
        Some(ChaseStop::MarketClosed) => ChaseStep::Closed,
        Some(ChaseStop::PostOnlyRejected) => {
            if retries >= MAX_POST_ONLY_RETRIES - 1 {
                ChaseStep::MaxRetries
            } else {
                match fresh_bid {
                    Some(bid) => if bid > Decimal::zero() {
                        ChaseStep::RetryAt(bid)
                    } else {
                        ChaseStep::NoFreshPrice
                    },
                    None => ChaseStep::NoFreshPrice,
                }
            }
        },
        _ => {
            if success || filled > Decimal::zero() {
                ChaseStep::Filled
            } else {
                ChaseStep::Failed
            }
        },
    }
}

/// What the engines make of a market.
#[derive(Debug)]
pub struct Evaluation {
    pub asset: CryptoAsset,
    pub aggregated: AggregatedDecision,
    /// The warning that counts.
    pub toxic_warning: Option<ToxicFlowWarning>,
    /// Whether the warning stops the trade.
    pub blocked: bool,
}

/// What to do about an arbitrage.
#[derive(Clone, Copy, Debug)]
pub enum ArbStep {
    /// Nothing: there is a position.
    Positioned,
    /// Nothing: an order is in flight.
    InFlight,
    /// Nothing: the size is not valid.
    TooSmall(SizingResult),
    /// Place orders of this size.
    Place(SizingResult),
}

/// How far a directional trade has come.
#[derive(Clone, Copy, Debug)]
pub enum DirectionalStart {
    /// An order is in flight.
    InFlight,
    /// The last order is too recent.
    CoolingDown,
    /// Go on: the distance in dollars, and the product whose square root is the confidence.
    Ready { distance_dollars: Decimal, confidence_product: Decimal },
}

/// What a directional trade comes to.
#[derive(Clone, Copy, Debug)]
pub enum DirectionalOutcome {
    /// No trade; `record` is false for reasons that recur all the time.
    Skip { reason: SkipReason, record: bool },
    /// The account may not take more.
    NoCapacity,
    /// The trade would be below one dollar.
    TooSmall,
    /// A trade of this size in dollars.
    Execute { size: Decimal, confidence: Decimal, phase: Phase },
}

/// A decision on a directional trade and what led to it.
#[derive(Clone, Debug)]
pub struct DirectionalDecision {
    /// Confidence before adjustments.
    pub base_confidence: Decimal,
    /// Adjustment by levels.
    pub pivot: PivotConfidence,
    /// Confidence after adjustments.
    pub confidence: Decimal,
    pub snapshot: ConfidenceSnapshot,
    /// Whether there is a position that may need a hedge.
    pub check_hedge: bool,
    pub outcome: DirectionalOutcome,
}

/// What became of the preparation of a directional order.
#[derive(Clone, Debug)]
pub enum DirectionalOrder {
    /// The market is not tracked.
    NoMarket,
    /// There is no price to buy at.
    NoPrice,
    /// Place this order.
    Place(OrderRequest),
}

/// What to do about a maker opportunity.
#[derive(Clone, Debug)]
pub enum MakerStep {
    /// The market is not tracked.
    NoMarket,
    /// Such an order is resting.
    AlreadyThere,
    /// The market has as many orders as is allowed.
    Full,
    /// Place this order.
    Place(OrderRequest),
}

/// What became of a maker order.
#[derive(Clone, Debug)]
pub enum MakerResult {
    /// It was filled at once.
    Filled { size: Decimal, price: Decimal, fee: Decimal },
    /// Part of it was filled.
    Partial {
        order_id: String,
        requested: Decimal,
        filled: Decimal,
        avg_price: Decimal,
        fee: Decimal,
    },
    /// It rests.
    Pending { order_id: String },
    /// It was refused or failed.
    Refused,
}

/// News about an order that is managed in the background.
#[derive(Clone, Debug)]
pub enum OrderUpdate {
    Fill {
        market_id: String,
        outcome: Outcome,
        side: Side,
        filled_size: Decimal,
        avg_price: Decimal,
        fee: Decimal,
        is_complete: bool,
    },
    Rejected { market_id: String },
    Cancelled { market_id: String },
    ChaseEnded { market_id: String },
}

/// Shares that a fill adds: negative for a sale.
pub open spec fn share_change(side: Side, size: int) -> int {
    match side {
        Side::Buy => size,
        Side::Sell => -size,
    }
}

/// Cost that a fill adds.
pub open spec fn cost_change(avg_price: Decimal, size: Decimal, fee: Decimal) -> Option<int> {
    sum(product(num(avg_price), num(size)), num(fee))
}

impl Inventory {
    /// Whether a fill that was reported can be booked within range.
    pub open spec fn update_fits(
        self,
        outcome: Outcome,
        side: Side,
        size: Decimal,
        avg_price: Decimal,
        fee: Decimal,
    ) -> bool {
        let cost = cost_change(avg_price, size, fee);
        let shares = share_change(side, size@);
        &&& cost is Some
        &&& match outcome {
            Outcome::Yes => sum(num(self.yes_shares), Some(shares)) is Some && sum(
                num(self.yes_cost_basis),
                cost,
            ) is Some,
            Outcome::No => sum(num(self.no_shares), Some(shares)) is Some && sum(
                num(self.no_cost_basis),
                cost,
            ) is Some,
        }
    }

    /// Whether `after` is this inventory with a fill that was reported booked.
    pub open spec fn updated(
        self,
        outcome: Outcome,
        side: Side,
        size: Decimal,
        avg_price: Decimal,
        fee: Decimal,
        after: Inventory,
    ) -> bool {
        let cost = cost_change(avg_price, size, fee);
        let shares = share_change(side, size@);
        match outcome {
            Outcome::Yes => {
                &&& after == (Inventory {
                    yes_shares: after.yes_shares,
                    yes_cost_basis: after.yes_cost_basis,
                    ..self
                })
                &&& Some(after.yes_shares@) == sum(num(self.yes_shares), Some(shares))
                &&& Some(after.yes_cost_basis@) == sum(num(self.yes_cost_basis), cost)
            },
            Outcome::No => {
                &&& after == (Inventory {
                    no_shares: after.no_shares,
                    no_cost_basis: after.no_cost_basis,
                    ..self
                })
                &&& Some(after.no_shares@) == sum(num(self.no_shares), Some(shares))
                &&& Some(after.no_cost_basis@) == sum(num(self.no_cost_basis), cost)
            },
        }
    }

    /// Books a fill that was reported: a sale takes shares away; the cost is added either way.
    pub fn apply_update(
        &mut self,
        outcome: Outcome,
        side: Side,
        size: Decimal,
        avg_price: Decimal,
        fee: Decimal,
    )
        requires
            old(self).update_fits(outcome, side, size, avg_price, fee),
        ensures
            old(self).updated(outcome, side, size, avg_price, fee, *final(self)),
    {
        let shares = match side {
            Side::Buy => size,
            Side::Sell => size.neg(),
        };
        let cost = avg_price.times(size).plus(fee);
        match outcome {
            Outcome::Yes => {
                self.yes_shares = self.yes_shares.plus(shares);
                self.yes_cost_basis = self.yes_cost_basis.plus(cost);
            },
            Outcome::No => {
                self.no_shares = self.no_shares.plus(shares);
                self.no_cost_basis = self.no_cost_basis.plus(cost);
            },
        }
    }
}

impl OrderUpdate {
    /// Market that the news is about.
    pub open spec fn market(self) -> Seq<char> {
        match self {
            OrderUpdate::Fill { market_id, .. } => market_id@,
            OrderUpdate::Rejected { market_id } => market_id@,
            OrderUpdate::Cancelled { market_id } => market_id@,
            OrderUpdate::ChaseEnded { market_id } => market_id@,
        }
    }

    /// Whether the order is over.
    pub open spec fn ends_order(self) -> bool {
        match self {
            OrderUpdate::Fill { is_complete, .. } => is_complete,
            _ => true,
        }
    }
}

// ============================================================================
// Evaluation
// ============================================================================

impl StrategyState {
    /// Whether a market is tracked, has not ended and has a strike.
    pub open spec fn tradable(self, event_id: Seq<char>, now_ms: i64) -> bool {
        &&& self.markets@.dom().contains(event_id)
        &&& now_ms < self.markets@[event_id].window_end_ms
        &&& self.markets@[event_id].strike_price@ != 0
    }

    /// A market with the time and the latest prices.
    pub open spec fn prepared(self, event_id: Seq<char>, now_ms: i64) -> TrackedMarket {
        let m = changed(self.markets@[event_id], MarketChange::Time(now_ms));
        TrackedMarket {
            state: MarketState {
                spot_price: match self.spot_prices.at(m.state.asset) {
                    Some(price) => Some(price),
                    None => m.state.spot_price,
                },
                chainlink_price: match self.chainlink_prices.at(m.state.asset) {
                    Some(price) => Some(price),
                    None => m.state.chainlink_price,
                },
                chainlink_strike: m.chainlink_strike,
                ..m.state
            },
            ..m
        }
    }

    /// Whether the arithmetic of the engines stays within range.
    pub open spec fn engines_fit(self, state: MarketState) -> bool {
        &&& self.engines_config.arbitrage.enabled ==> self.arb_detector.detect_fits(state)
        &&& self.engines_config.directional.enabled ==> self.directional_detector.detect_fits(state)
        &&& self.engines_config.maker.enabled ==> self.maker_detector.detect_fits(state, None)
    }

    /// Whether this is what the engines that run find in a market.
    pub open spec fn finds(
        self,
        state: MarketState,
        now_ms: i64,
        arb: Option<ArbOpportunity>,
        directional: Option<DirectionalOpportunity>,
        maker: Seq<MakerOpportunity>,
    ) -> bool {
        &&& match arb {
            Some(o) => self.engines_config.arbitrage.enabled && self.arb_detector.rejection(
                state,
            ) is None && self.arb_detector.describes(state, now_ms, o),
            None => !self.engines_config.arbitrage.enabled || self.arb_detector.rejection(
                state,
            ) is Some,
        }
        &&& match directional {
            Some(o) => self.engines_config.directional.enabled
                && self.directional_detector.skip_reason(state) is None
                && self.directional_detector.describes(state, now_ms, o),
            None => !self.engines_config.directional.enabled
                || self.directional_detector.skip_reason(state) is Some,
        }
        &&& if self.engines_config.maker.enabled {
            self.maker_detector.detects(state, None, None, now_ms, maker)
        } else {
            maker.len() == 0
        }
    }

    /// Whether a warning stops a trade.
    pub open spec fn blocks(self, warning: Option<ToxicFlowWarning>) -> bool {
        &&& self.config.block_on_toxic_high
        &&& warning is Some
        &&& warning->0.severity.blocks()
    }

    /// Whether `r` is what the engines make of a market that is prepared.
    pub open spec fn evaluates(
        self,
        market: TrackedMarket,
        now_ms: i64,
        r: Option<Evaluation>,
    ) -> bool {
        exists|
            arb: Option<ArbOpportunity>,
            directional: Option<DirectionalOpportunity>,
            maker: Seq<MakerOpportunity>,
            decision: AggregatedDecision,
        |
            {
                &&& #[trigger] self.finds(market.state, now_ms, arb, directional, maker)
                &&& #[trigger] self.aggregator.decides(arb, directional, maker, decision)
                &&& match r {
                    Some(e) => {
                        &&& decision.primary is Some
                        &&& e.aggregated == decision
                        &&& e.asset == market.asset
                        &&& e.toxic_warning == market.worst_warning()
                        &&& e.blocked == self.blocks(e.toxic_warning)
                    },
                    None => decision.primary is None,
                }
            }
    }

    /// Runs the engines on a market: time and latest prices are brought up to date, and the
    /// decisions of the engines aggregated. Nothing comes of a market that is not tracked, has
    /// ended or has no strike, or in which no engine finds anything.
    pub fn evaluate(&mut self, event_id: &str, now_ms: i64) -> (r: Option<Evaluation>)
        requires
            old(self).tradable(event_id@, now_ms) ==> old(self).engines_fit(
                old(self).prepared(event_id@, now_ms).state,
            ),
        ensures
            if !old(self).markets@.dom().contains(event_id@) {
                r is None && *final(self) == *old(self)
            } else {
                &&& *final(self) == (StrategyState { markets: final(self).markets, ..*old(self) })
                &&& if old(self).tradable(event_id@, now_ms) {
                    let market = old(self).prepared(event_id@, now_ms);
                    &&& final(self).markets@ == old(self).markets@.insert(event_id@, market)
                    &&& old(self).evaluates(market, now_ms, r)
                } else {
                    &&& r is None
                    &&& final(self).markets@ == old(self).markets@.insert(
                        event_id@,
                        changed(old(self).markets@[event_id@], MarketChange::Time(now_ms)),
                    )
                }
            },
    {
        if !self.markets.contains_key(event_id) {
            return None;
        }
        let mut market = match self.markets.remove(event_id) {
            Some(market) => market,
            None => {
                return None;
            },
        };
        market.update_time(now_ms);
        assert(market == changed(old(self).markets@[event_id@], MarketChange::Time(now_ms)));
        if market.is_expired(now_ms) || market.strike_price.is_zero() {
            self.markets.insert(event_id.to_owned(), market);
            assert(self.markets@ =~= old(self).markets@.insert(event_id@, market));
            return None;
        }
        if let Some(price) = self.spot_prices.get(market.state.asset) {
            market.state.spot_price = Some(*price);
        }
        if let Some(price) = self.chainlink_prices.get(market.state.asset) {
            market.state.chainlink_price = Some(*price);
        }
        market.state.chainlink_strike = market.chainlink_strike;
        assert(market == old(self).prepared(event_id@, now_ms));
        let arb = if self.engines_config.arbitrage.enabled {
            match self.arb_detector.detect(&market.state, now_ms) {
                Ok(o) => Some(o),
                Err(_) => None,
            }
        } else {
            None
        };
        let directional = if self.engines_config.directional.enabled {
            match self.directional_detector.detect(&market.state, now_ms) {
                Ok(o) => Some(o),
                Err(_) => None,
            }
        } else {
            None
        };
        let maker: Vec<MakerOpportunity> = if self.engines_config.maker.enabled {
            self.maker_detector.detect(&market.state, None, None, now_ms)
        } else {
            Vec::new()
        };
        let ghost found = maker@;
        assert(old(self).finds(market.state, now_ms, arb, directional, found));
        let aggregated = self.aggregator.aggregate(arb, directional, maker);
        let asset = market.asset;
        let toxic_warning = market.toxic_warning();
        let severe = match &toxic_warning {
            Some(warning) => warning.should_block(),
            None => false,
        };
        let blocked = self.config.block_on_toxic_high && severe;
        self.markets.insert(event_id.to_owned(), market);
        assert(self.markets@ =~= old(self).markets@.insert(event_id@, market));
        assert(old(self).aggregator.decides(arb, directional, found, aggregated));
        if aggregated.should_act() {
            Some(Evaluation { asset, aggregated, toxic_warning, blocked })
        } else {
            None
        }
    }

    /// Runs the engines on a market as long as trading is allowed; otherwise everything stays as it
    /// is, and nothing comes of the market.
    pub fn evaluate_if_open(&mut self, gate: &TradingGate, event_id: &str, now_ms: i64) -> (r: Option<
        Evaluation,
    >)
        requires
            gate.is_open() && old(self).tradable(event_id@, now_ms) ==> old(self).engines_fit(
                old(self).prepared(event_id@, now_ms).state,
            ),
        ensures
            if !gate.is_open() || !old(self).markets@.dom().contains(event_id@) {
                r is None && *final(self) == *old(self)
            } else {
                &&& *final(self) == (StrategyState { markets: final(self).markets, ..*old(self) })
                &&& if old(self).tradable(event_id@, now_ms) {
                    let market = old(self).prepared(event_id@, now_ms);
                    &&& final(self).markets@ == old(self).markets@.insert(event_id@, market)
                    &&& old(self).evaluates(market, now_ms, r)
                } else {
                    &&& r is None
                    &&& final(self).markets@ == old(self).markets@.insert(
                        event_id@,
                        changed(old(self).markets@[event_id@], MarketChange::Time(now_ms)),
                    )
                }
            },
    {
        if !gate.can_trade() {
            return None;
        }
        self.evaluate(event_id, now_ms)
    }

    /// What the account may still take.
    pub open spec fn capacity(self, total_exposure: Decimal) -> Option<int> {
        difference(num(self.config.sizing_config.max_total_exposure), num(total_exposure))
    }

    /// Whether the account may take more.
    pub fn has_capacity(&self, total_exposure: Decimal) -> (r: bool)
        requires
            self.capacity(total_exposure) is Some,
        ensures
            r == (self.capacity(total_exposure)->0 > 0),
    {
        self.config.sizing_config.max_total_exposure.minus(total_exposure) > Decimal::zero()
    }

    // ------------------------------------------------------------------------
    // Arbitrage
    // ------------------------------------------------------------------------

    /// Whether the arithmetic of an arbitrage stays within range.
    pub open spec fn arbitrage_fits(
        self,
        event_id: Seq<char>,
        opportunity: ArbOpportunity,
        total_exposure: Decimal,
        warning: Option<&ToxicFlowWarning>,
    ) -> bool {
        let market = self.markets@[event_id];
        &&& self.markets@.dom().contains(event_id)
        &&& market.inventory.exposure() is Some
        &&& market.inventory.exposure()->0 <= 0 && !self.in_flight(
            event_id,
            PendingOrderType::Arbitrage,
        ) ==> case_of(
            self.sizer.config,
            opportunity,
            Some(&market.inventory),
            total_exposure,
            warning,
        ).fits()
    }

    /// Whether this is what to do about an arbitrage in a market.
    pub open spec fn sizes_arbitrage(
        self,
        event_id: Seq<char>,
        opportunity: ArbOpportunity,
        total_exposure: Decimal,
        warning: Option<&ToxicFlowWarning>,
        r: ArbStep,
    ) -> bool {
        let market = self.markets@[event_id];
        let case = case_of(
            self.sizer.config,
            opportunity,
            Some(&market.inventory),
            total_exposure,
            warning,
        );
        if market.inventory.exposure()->0 > 0 {
            r is Positioned
        } else if self.in_flight(event_id, PendingOrderType::Arbitrage) {
            r is InFlight
        } else {
            match r {
                ArbStep::Place(sizing) => case.rejection() is None && case.sizes(sizing),
                ArbStep::TooSmall(sizing) => case.rejection() is Some && case.sizes(sizing),
                _ => false,
            }
        }
    }

    /// What to do about an arbitrage in a market that is tracked: nothing with a position or an
    /// order in flight, else it depends on the size.
    pub fn size_arbitrage(
        &self,
        event_id: &str,
        opportunity: &ArbOpportunity,
        total_exposure: Decimal,
        warning: Option<&ToxicFlowWarning>,
    ) -> (r: ArbStep)
        requires
            self.arbitrage_fits(event_id@, *opportunity, total_exposure, warning),
        ensures
            self.sizes_arbitrage(event_id@, *opportunity, total_exposure, warning, r),
    {
        match self.markets.get(event_id) {
            Some(market) => {
                if market.has_position() {
                    return ArbStep::Positioned;
                }
                if self.is_pending(event_id, PendingOrderType::Arbitrage) {
                    return ArbStep::InFlight;
                }
                let sizing = self.sizer.calculate_size(
                    opportunity,
                    Some(&market.inventory),
                    total_exposure,
                    warning,
                );
                if sizing.is_valid {
                    ArbStep::Place(sizing)
                } else {
                    ArbStep::TooSmall(sizing)
                }
            },
            None => ArbStep::Positioned,
        }
    }

    /// Whether these are the two orders of an arbitrage.
    pub open spec fn pair_orders(
        self,
        opportunity: ArbOpportunity,
        sizing: SizingResult,
        yes: OrderRequest,
        no: OrderRequest,
    ) -> bool {
        &&& yes.request_id@ == "arb-"@ + digits(self.decision_counter as nat) + "-yes"@
        &&& yes.event_id == opportunity.event_id
        &&& yes.token_id == opportunity.yes_token_id
        &&& yes.outcome == Outcome::Yes
        &&& yes.side == Side::Buy
        &&& yes.size == sizing.size
        &&& yes.price == opportunity.yes_ask
        &&& yes.order_type == OrderType::Gtc
        &&& no.request_id@ == "arb-"@ + digits(self.decision_counter as nat) + "-no"@
        &&& no.event_id == opportunity.event_id
        &&& no.token_id == opportunity.no_token_id
        &&& no.outcome == Outcome::No
        &&& no.side == Side::Buy
        &&& no.size == sizing.size
        &&& no.price == opportunity.no_ask
        &&& no.order_type == OrderType::Gtc
    }

    /// The two orders of an arbitrage: both outcomes are bought at their asks in the same size.
    /// From now on an order is in flight.
    pub fn arb_orders(&mut self, opportunity: &ArbOpportunity, sizing: &SizingResult) -> (r: (
        OrderRequest,
        OrderRequest,
    ))
        requires
            old(self).decision_counter < u64::MAX,
        ensures
            final(self).decision_counter == old(self).decision_counter + 1,
            (StrategyState { decision_counter: (old(self).decision_counter + 1) as u64, ..*old(self)
            }).flagged(
                opportunity.event_id@,
                PendingOrderType::Arbitrage,
                true,
                *final(self),
            ),
            old(self).pair_orders(*opportunity, *sizing, r.0, r.1),
    {
        let counter: u64 = self.decision_counter;
        self.decision_counter = self.decision_counter + 1;
        self.set_pending(opportunity.event_id.as_str(), PendingOrderType::Arbitrage, true);
        let base = "arb-".to_owned().concat(number_text(counter).as_str());
        (
            OrderRequest {
                request_id: base.clone().concat("-yes"),
                event_id: opportunity.event_id.clone(),
                token_id: opportunity.yes_token_id.clone(),
                outcome: Outcome::Yes,
                side: Side::Buy,
                size: sizing.size,
                price: opportunity.yes_ask,
                order_type: OrderType::Gtc,
            },
            OrderRequest {
                request_id: base.concat("-no"),
                event_id: opportunity.event_id.clone(),
                token_id: opportunity.no_token_id.clone(),
                outcome: Outcome::No,
                side: Side::Buy,
                size: sizing.size,
                price: opportunity.no_ask,
                order_type: OrderType::Gtc,
            },
        )
    }

    /// Whether the fills of an arbitrage can be booked within range.
    pub open spec fn arb_fills_fit(self, event_id: Seq<char>, yes: FillAmounts, no: FillAmounts) -> bool {
        self.markets@.dom().contains(event_id) ==> {
            let inventory = self.markets@[event_id].inventory;
            &&& yes.size@ > 0 ==> inventory.fill_fits(Outcome::Yes, yes.size, yes.cost)
            &&& no.size@ > 0 ==> inventory.fill_fits(Outcome::No, no.size, no.cost)
        }
    }

    /// Whether `after` is the inventory with a fill booked, if there was one.
    pub open spec fn filled_if(
        before: Inventory,
        outcome: Outcome,
        fill: FillAmounts,
        after: Inventory,
    ) -> bool {
        if fill.size@ > 0 {
            before.filled(outcome, fill.size, fill.cost, after)
        } else {
            after == before
        }
    }

    /// Books what was filled of the two orders of an arbitrage. The orders are no longer in flight
    /// unless one of them is still pending.
    pub fn finish_arb(
        &mut self,
        event_id: &str,
        yes: FillAmounts,
        no: FillAmounts,
        still_pending: bool,
    )
        requires
            old(self).arb_fills_fit(event_id@, yes, no),
        ensures
            *final(self) == (StrategyState {
                markets: final(self).markets,
                pending: final(self).pending,
                ..*old(self)
            }),
            forall|id: Seq<char>, k: PendingOrderType| #[trigger]
                final(self).in_flight(id, k) == if id == event_id@ && k
                    == PendingOrderType::Arbitrage && !still_pending {
                    false
                } else {
                    old(self).in_flight(id, k)
                },
            if old(self).markets@.dom().contains(event_id@) {
                let before = old(self).markets@[event_id@];
                let after = final(self).markets@[event_id@];
                &&& final(self).markets@ == old(self).markets@.insert(event_id@, after)
                &&& after == (TrackedMarket { inventory: after.inventory, ..before })
                &&& exists|between: Inventory|
                    {
                        &&& #[trigger] Self::filled_if(
                            before.inventory,
                            Outcome::Yes,
                            yes,
                            between,
                        )
                        &&& Self::filled_if(between, Outcome::No, no, after.inventory)
                    }
            } else {
                final(self).markets == old(self).markets
            },
    {
        if self.markets.contains_key(event_id) {
            if let Some(mut market) = self.markets.remove(event_id) {
                let ghost before = market;
                if yes.size > Decimal::zero() {
                    market.inventory.record_fill(Outcome::Yes, yes.size, yes.cost);
                }
                let ghost between = market.inventory;
                assert(Self::filled_if(before.inventory, Outcome::Yes, yes, between));
                if no.size > Decimal::zero() {
                    market.inventory.record_fill(Outcome::No, no.size, no.cost);
                }
                assert(Self::filled_if(between, Outcome::No, no, market.inventory));
                self.markets.insert(event_id.to_owned(), market);
                assert(self.markets@ =~= old(self).markets@.insert(event_id@, market));
            }
        }
        if !still_pending {
            self.set_pending(event_id, PendingOrderType::Arbitrage, false);
        }
    }

    // ------------------------------------------------------------------------
    // Directional trades
    // ------------------------------------------------------------------------

    /// A market with the average true range of its asset.
    pub open spec fn with_range(m: TrackedMarket, atr: Decimal) -> TrackedMarket {
        TrackedMarket {
            position_manager: PositionManager {
                config: PositionConfig { atr, ..m.position_manager.config },
                ..m.position_manager
            },
            ..m
        }
    }

    /// Distance from the strike in dollars.
    pub open spec fn dollars_from_strike(m: TrackedMarket, opportunity: DirectionalOpportunity)
        -> Option<int> {
        product(num(opportunity.distance), num(m.strike_price))
    }

    /// Whether the arithmetic at the beginning of a directional trade stays within range.
    pub open spec fn begin_fits(
        self,
        event_id: Seq<char>,
        opportunity: DirectionalOpportunity,
        atr: Decimal,
    ) -> bool {
        let m = Self::with_range(self.markets@[event_id], atr);
        let window = self.config.window_duration_secs;
        !self.in_flight(event_id, PendingOrderType::Directional) ==> {
            &&& i64::MIN <= m.clock() <= i64::MAX
            &&& !m.cooling_down() ==> {
                &&& Self::dollars_from_strike(m, opportunity) is Some
                &&& forall|dollars: Decimal|
                    #![trigger m.position_manager.conf_product(
                        dollars,
                        m.state.seconds_remaining,
                        window,
                    )]
                    num(dollars) == Self::dollars_from_strike(m, opportunity)
                        ==> m.position_manager.conf_product(
                        dollars,
                        m.state.seconds_remaining,
                        window,
                    ) is Some
            }
        }
    }

    /// Whether a directional trade in a market begins this way.
    pub open spec fn starts(
        self,
        event_id: Seq<char>,
        m: TrackedMarket,
        opportunity: DirectionalOpportunity,
        r: DirectionalStart,
    ) -> bool {
        if self.in_flight(event_id, PendingOrderType::Directional) {
            r is InFlight
        } else if m.cooling_down() {
            r is CoolingDown
        } else {
            &&& r is Ready
            &&& num(r->distance_dollars) == Self::dollars_from_strike(m, opportunity)
            &&& num(r->confidence_product) == m.position_manager.conf_product(
                r->distance_dollars,
                m.state.seconds_remaining,
                self.config.window_duration_secs,
            )
        }
    }

    /// Begins a directional trade in a market that is tracked: the range of the asset is taken
    /// over, and nothing else happens while an order is in flight or too recent.
    pub fn begin_directional(&mut self, event_id: &str, opportunity: &DirectionalOpportunity) -> (r:
        DirectionalStart)
        requires
            old(self).markets@.dom().contains(event_id@),
            ({
                let tracker = old(self).atr_tracker.trackers.at(old(self).markets@[event_id@].asset);
                &&& tracker.ranges@.len() <= u32::MAX
                &&& tracker.spec_atr() is Some
                &&& forall|atr: Decimal|
                    num(atr) == tracker.spec_atr() ==> #[trigger] old(self).begin_fits(
                        event_id@,
                        *opportunity,
                        atr,
                    )
            }),
        ensures
            *final(self) == (StrategyState { markets: final(self).markets, ..*old(self) }),
            ({
                let before = old(self).markets@[event_id@];
                let m = final(self).markets@[event_id@];
                let atr = m.position_manager.config.atr;
                &&& final(self).markets@ == old(self).markets@.insert(event_id@, m)
                &&& m == Self::with_range(before, atr)
                &&& num(atr) == old(self).atr_tracker.trackers.at(before.asset).spec_atr()
                &&& old(self).starts(event_id@, m, *opportunity, r)
            }),
    {
        let pending = self.is_pending(event_id, PendingOrderType::Directional);
        let window: i64 = self.config.window_duration_secs;
        let mut market = match self.markets.remove(event_id) {
            Some(market) => market,
            None => {
                return DirectionalStart::InFlight;
            },
        };
        let atr = self.atr_tracker.get_atr(market.asset);
        market.position_manager.set_atr(atr);
        let ghost m = market;
        assert(m == Self::with_range(old(self).markets@[event_id@], atr));
        assert(old(self).begin_fits(event_id@, *opportunity, atr));
        let r = if pending {
            DirectionalStart::InFlight
        } else if market.in_cooldown() {
            DirectionalStart::CoolingDown
        } else {
            let distance_dollars = opportunity.distance.times(market.strike_price);
            let confidence_product = market.position_manager.confidence_product(
                distance_dollars,
                market.state.seconds_remaining,
                window,
            );
            DirectionalStart::Ready { distance_dollars, confidence_product }
        };
        self.markets.insert(event_id.to_owned(), market);
        assert(self.markets@ =~= old(self).markets@.insert(event_id@, m));
        r
    }
}

/// Confidence adjusted for a lead of Binance over Chainlink: more, up to one, where the lead
/// confirms the signal; less, down to zero, where it does not.
pub open spec fn lead_adjusted(
    config: StrategyConfig,
    signal: Signal,
    lead: Option<Decimal>,
    confidence: Decimal,
) -> Option<int> {
    match lead {
        Some(lead) => if config.binance_lead_enabled {
            if (signal.is_up() && lead@ > 0) || (!signal.is_up() && lead@ < 0) {
                lesser(
                    product(num(confidence), sum(lit(1, 0), num(config.lead_confirm_boost))),
                    lit(1, 0),
                )
            } else {
                greater(
                    product(num(confidence), difference(lit(1, 0), num(config.lead_oppose_cut))),
                    Some(0),
                )
            }
        } else {
            num(confidence)
        },
        None => num(confidence),
    }
}

/// Confidence adjusted for a lead of Binance over Chainlink.
pub fn adjust_for_lead(
    config: &StrategyConfig,
    signal: Signal,
    lead: Option<Decimal>,
    confidence: Decimal,
) -> (r: Decimal)
    requires
        lead_adjusted(*config, signal, lead, confidence) is Some,
    ensures
        Some(r@) == lead_adjusted(*config, signal, lead, confidence),
{
    match lead {
        Some(lead) => {
            if !config.binance_lead_enabled {
                return confidence;
            }
            let up = signal.points_up();
            let confirms = (up && lead > Decimal::zero()) || (!up && lead < Decimal::zero());
            if confirms {
                confidence.times(Decimal::one().plus(config.lead_confirm_boost)).min(Decimal::one())
            } else {
                confidence.times(Decimal::one().minus(config.lead_oppose_cut)).max(Decimal::zero())
            }
        },
        None => confidence,
    }
}

/// Whether a skip is worth recording.
pub open spec fn worth_recording(reason: SkipReason) -> bool {
    !(reason is LowConfidence || reason is PhaseBudgetExhausted || reason is TotalBudgetExhausted)
}

/// What a directional trade is decided on.
pub struct DirectionalCase {
    pub config: StrategyConfig,
    pub market: TrackedMarket,
    pub opportunity: DirectionalOpportunity,
    /// Price of the side that the signal favours.
    pub price: Decimal,
    pub distance_dollars: Decimal,
    /// Square root of the confidence product.
    pub root: Decimal,
    /// What the account may still take.
    pub capacity: Option<int>,
}

impl DirectionalCase {
    pub open spec fn seconds(self) -> i64 {
        self.market.state.seconds_remaining
    }

    /// Confidence before adjustments.
    pub open spec fn base(self) -> Option<int> {
        self.market.position_manager.confidence(
            self.distance_dollars,
            self.seconds(),
            self.config.window_duration_secs,
            self.root,
        )
    }

    /// Price that the levels are looked at for: the spot price, else the strike.
    pub open spec fn spot(self) -> Decimal {
        match self.market.state.spot_price {
            Some(price) => price,
            None => self.market.strike_price,
        }
    }

    /// Why there is no trade with a confidence.
    pub open spec fn skip_reason(self, confidence: int) -> Option<SkipReason> {
        self.market.position_manager.skip_reason(
            confidence,
            self.seconds(),
            self.price,
            self.config.max_edge_factor,
            self.config.window_duration_secs,
        )
    }

    /// Size of the trade before the capacity of the account is considered.
    pub open spec fn wanted(self, confidence: int) -> Option<int> {
        let manager = self.market.position_manager;
        manager.size_for(
            manager.phase_left(phase_of(self.seconds()))->0,
            manager.total_left()->0,
            confidence,
        )
    }

    /// Size of the trade.
    pub open spec fn size(self, confidence: int) -> Option<int> {
        lesser(self.wanted(confidence), self.capacity)
    }

    /// Whether `r` is what the trade comes to with a confidence.
    pub open spec fn comes_to(self, confidence: int, r: DirectionalOutcome) -> bool {
        match self.skip_reason(confidence) {
            Some(reason) => r is Skip && r->reason == reason && r->record == worth_recording(reason),
            None => if self.capacity->0 <= 0 {
                r is NoCapacity
            } else if self.size(confidence)->0 < units(1, 0) {
                r is TooSmall
            } else {
                &&& r is Execute
                &&& Some(r->size@) == self.size(confidence)
                &&& r->Execute_confidence@ == confidence
                &&& r->phase == phase_of(self.seconds())
            },
        }
    }

    /// The terms of the snapshot for a confidence.
    pub open spec fn snapshot_terms(self, confidence: Decimal) -> SnapshotTerms {
        SnapshotTerms {
            confidence,
            seconds: self.seconds(),
            edge_seconds: self.seconds(),
            window: self.config.window_duration_secs,
            distance: magnitude(num(self.distance_dollars))->0,
            atr: self.market.position_manager.config.atr,
            price: self.price,
            max_edge_factor: self.config.max_edge_factor,
        }
    }
}

impl StrategyState {
    /// The case of a directional trade.
    pub open spec fn directional_case(
        self,
        event_id: Seq<char>,
        opportunity: DirectionalOpportunity,
        price: Decimal,
        distance_dollars: Decimal,
        root: Decimal,
        total_exposure: Decimal,
    ) -> DirectionalCase {
        DirectionalCase {
            config: self.config,
            market: self.markets@[event_id],
            opportunity,
            price,
            distance_dollars,
            root,
            capacity: self.capacity(total_exposure),
        }
    }

    /// Whether the arithmetic of a directional trade stays within range.
    pub open spec fn directional_fits(self, case: DirectionalCase) -> bool {
        let manager = case.market.position_manager;
        let window = self.config.window_duration_secs;
        &&& manager.time_conf(case.seconds(), window) is Some
        &&& manager.dist_conf(manager.atr_multiple(case.distance_dollars)) is Some
        &&& case.base() is Some
        &&& self.pivot_tracker.confidence_fits(
            case.market.asset,
            case.spot(),
            case.opportunity.signal.is_up(),
        )
        &&& forall|pivot: PivotConfidence, base: Decimal|
            #![trigger pivot.applied(base)]
            self.pivot_tracker.adjusts(
                case.market.asset,
                case.spot(),
                case.opportunity.signal.is_up(),
                pivot,
            ) && num(base) == case.base() ==> {
                &&& product(num(base), num(pivot.multiplier)) is Some
                &&& forall|adjusted: Decimal|
                    #![trigger lead_adjusted(
                        self.config,
                        case.opportunity.signal,
                        case.opportunity.binance_lead,
                        adjusted,
                    )]
                    num(adjusted) == pivot.applied(base) ==> {
                        &&& lead_adjusted(
                            self.config,
                            case.opportunity.signal,
                            case.opportunity.binance_lead,
                            adjusted,
                        ) is Some
                        &&& forall|confidence: Decimal|
                            num(confidence) == lead_adjusted(
                                self.config,
                                case.opportunity.signal,
                                case.opportunity.binance_lead,
                                adjusted,
                            ) ==> {
                                &&& (#[trigger] case.snapshot_terms(confidence)).fits()
                                &&& manager.decision_fits(
                                    confidence@,
                                    case.seconds(),
                                    case.price,
                                    self.config.max_edge_factor,
                                    window,
                                )
                                &&& case.skip_reason(confidence@) is None ==> case.capacity is Some
                            }
                    }
            }
    }

    /// Decides on a directional trade in a market that is tracked; `root` is the square root of the
    /// confidence product. Confidence is adjusted by levels and by the lead of Binance; whether and
    /// how much is traded goes by the adjusted confidence, as do hedges.
    pub fn decide_directional(
        &self,
        event_id: &str,
        opportunity: &DirectionalOpportunity,
        distance_dollars: Decimal,
        root: Decimal,
        total_exposure: Decimal,
    ) -> (r: DirectionalDecision)
        requires
            self.markets@.dom().contains(event_id@),
            opportunity.spec_favorable_price() is Some,
            forall|price: Decimal|
                num(price) == opportunity.spec_favorable_price() ==> self.directional_fits(
                    #[trigger] self.directional_case(
                        event_id@,
                        *opportunity,
                        price,
                        distance_dollars,
                        root,
                        total_exposure,
                    ),
                ),
        ensures
            num(r.snapshot.favorable_price) == opportunity.spec_favorable_price(),
            ({
                let case = self.directional_case(
                    event_id@,
                    *opportunity,
                    r.snapshot.favorable_price,
                    distance_dollars,
                    root,
                    total_exposure,
                );
                &&& num(r.base_confidence) == case.base()
                &&& self.pivot_tracker.adjusts(
                    case.market.asset,
                    case.spot(),
                    opportunity.signal.is_up(),
                    r.pivot,
                )
                &&& exists|adjusted: Decimal|
                    num(adjusted) == r.pivot.applied(r.base_confidence) && num(r.confidence)
                        == #[trigger] lead_adjusted(
                        self.config,
                        opportunity.signal,
                        opportunity.binance_lead,
                        adjusted,
                    )
                &&& case.snapshot_terms(r.confidence).shown_by(
                    event_id@,
                    r.snapshot,
                )
                &&& r.check_hedge == case.market.position_direction is Some
                &&& case.comes_to(r.confidence@, r.outcome)
            }),
    {
        let price = opportunity.favorable_price();
        let ghost case = self.directional_case(
            event_id@,
            *opportunity,
            price,
            distance_dollars,
            root,
            total_exposure,
        );
        assert(self.directional_fits(case));
        let market = self.markets.get(event_id).unwrap();
        let seconds: i64 = market.state.seconds_remaining;
        let window: i64 = self.config.window_duration_secs;
        let base_confidence = market.position_manager.calculate_confidence(
            distance_dollars,
            seconds,
            window,
            root,
        );
        let up = opportunity.signal.points_up();
        let spot_price = market.state.spot_price.unwrap_or(market.strike_price);
        let pivot = self.pivot_tracker.calculate_confidence(market.asset, spot_price, up);
        let ghost applied = pivot.applied(base_confidence);
        assert(product(num(base_confidence), num(pivot.multiplier)) is Some);
        let adjusted = pivot.apply(base_confidence);
        assert(lead_adjusted(
            self.config,
            opportunity.signal,
            opportunity.binance_lead,
            adjusted,
        ) is Some);
        let confidence = adjust_for_lead(
            &self.config,
            opportunity.signal,
            opportunity.binance_lead,
            adjusted,
        );
        assert(case.snapshot_terms(confidence).fits());
        let snapshot = ConfidenceSnapshot::of(
            &event_id.to_owned(),
            confidence,
            seconds,
            seconds,
            window,
            distance_dollars.abs(),
            market.position_manager.atr(),
            price,
            self.config.max_edge_factor,
        );
        let decision = market.position_manager.should_trade_with_confidence(
            confidence,
            seconds,
            price,
            self.config.max_edge_factor,
            window,
        );
        let outcome = match decision {
            TradeDecision::Skip(reason) => DirectionalOutcome::Skip {
                reason,
                record: !matches!(reason, SkipReason::LowConfidence
                    | SkipReason::PhaseBudgetExhausted
                    | SkipReason::TotalBudgetExhausted),
            },
            TradeDecision::Trade { size, confidence, phase } => {
                let capacity = self.config.sizing_config.max_total_exposure.minus(total_exposure);
                if capacity <= Decimal::zero() {
                    DirectionalOutcome::NoCapacity
                } else {
                    let size = size.min(capacity);
                    if size < Decimal::one() {
                        DirectionalOutcome::TooSmall
                    } else {
                        DirectionalOutcome::Execute { size, confidence, phase }
                    }
                }
            },
        };
        DirectionalDecision {
            base_confidence,
            pivot,
            confidence,
            snapshot,
            check_hedge: market.position_direction.is_some(),
            outcome,
        }
    }

    /// Ask price of a token, where its book is known.
    pub open spec fn live_ask(self, token_id: Seq<char>) -> Option<Decimal> {
        if self.order_books@.dom().contains(token_id) {
            Some(self.order_books@[token_id].best_ask)
        } else {
            None
        }
    }

    /// Ask price of a token, where its book is known.
    pub fn ask_price(&self, token_id: &str) -> (r: Option<Decimal>)
        ensures
            r == self.live_ask(token_id@),
    {
        match self.order_books.get(token_id) {
            Some(book) => Some(book.best_ask),
            None => None,
        }
    }

    /// Token that a directional order buys.
    pub open spec fn bought_token(m: TrackedMarket, signal: Signal) -> String {
        if signal.is_up() {
            m.yes_token_id
        } else {
            m.no_token_id
        }
    }

    /// Whether there is a price to buy at.
    pub open spec fn has_price(self, m: TrackedMarket, signal: Signal) -> bool {
        match self.live_ask(Self::bought_token(m, signal)@) {
            Some(price) => price@ > 0,
            None => false,
        }
    }

    /// Whether `after` is a market with an order begun.
    pub open spec fn began(
        m: TrackedMarket,
        dollars: Decimal,
        signal: Signal,
        scaled_root: Decimal,
        after: TrackedMarket,
    ) -> bool {
        let phase = phase_of(m.state.seconds_remaining);
        let manager = after.position_manager;
        &&& after == (TrackedMarket {
            last_order_ms: Some(m.clock() as i64),
            position_manager: manager,
            last_signal: after.last_signal,
            last_confidence: after.last_confidence,
            ..m
        })
        &&& after.last_signal@ == signal.spec_variant_name()
        &&& Some(after.last_confidence@) == clamped(num(scaled_root), lit(5, 1), lit(3, 0))
        &&& manager == (PositionManager {
            phase_spent: m.position_manager.phase_spent.with(phase, manager.phase_spent.at(phase)),
            total_spent: manager.total_spent,
            ..m.position_manager
        })
        &&& num(manager.total_spent) == sum(num(m.position_manager.total_spent), num(dollars))
        &&& num(manager.phase_spent.at(phase)) == sum(
            num(m.position_manager.phase_spent.at(phase)),
            num(dollars),
        )
    }

    /// Whether `order` is what a directional trade of so many dollars in a market buys: the token that
    /// the signal favours, at the ask that is live.
    pub open spec fn buys(
        self,
        m: TrackedMarket,
        opportunity: DirectionalOpportunity,
        dollars: Decimal,
        order: OrderRequest,
    ) -> bool {
        let up = opportunity.signal.is_up();
        let price = self.live_ask(Self::bought_token(m, opportunity.signal)@)->0;
        &&& order.request_id@ == "dir-"@ + digits(self.decision_counter as nat) + (if up {
            "-yes"@
        } else {
            "-no"@
        })
        &&& order.event_id == opportunity.event_id
        &&& order.token_id == Self::bought_token(m, opportunity.signal)
        &&& order.outcome == if up {
            Outcome::Yes
        } else {
            Outcome::No
        }
        &&& order.side == Side::Buy
        &&& order.size@ == m.spec_directional_shares(dollars, price)
        &&& order.price == price
        &&& order.order_type == match self.config.execution.execution_mode {
            ExecutionMode::Limit => OrderType::Gtc,
            ExecutionMode::Market => OrderType::Ioc,
        }
    }

    /// Whether a directional order can be prepared within range.
    pub open spec fn order_fits(
        self,
        opportunity: DirectionalOpportunity,
        dollars: Decimal,
        scaled_root: Decimal,
    ) -> bool {
        let id = opportunity.event_id@;
        let m = self.markets@[id];
        self.markets@.dom().contains(id) ==> {
            &&& m.reserve_fits(dollars)
            &&& !self.has_price(m, opportunity.signal) ==> forall|after: TrackedMarket| #[trigger]
                Self::began(m, dollars, opportunity.signal, scaled_root, after)
                    ==> after.release_fits(dollars)
            &&& self.has_price(m, opportunity.signal) ==> divided_by(
                num(dollars),
                self.live_ask(Self::bought_token(m, opportunity.signal)@)->0,
            ) is Some
        }
    }

    /// Prepares a directional order: it is in flight, its time and budget are noted, and it buys
    /// what the dollars buy in whole shares, at least the smallest order. Without a price to buy at
    /// all of that but the note is taken back.
    pub fn prepare_directional(
        &mut self,
        opportunity: &DirectionalOpportunity,
        dollars: Decimal,
        scaled_root: Decimal,
    ) -> (r: DirectionalOrder)
        requires
            old(self).order_fits(*opportunity, dollars, scaled_root),
            old(self).decision_counter < u64::MAX,
        ensures
            ({
                let id = opportunity.event_id@;
                let m = old(self).markets@[id];
                if !old(self).markets@.dom().contains(id) {
                    &&& r is NoMarket
                    &&& old(self).flagged(id, PendingOrderType::Directional, false, *final(self))
                } else if !old(self).has_price(m, opportunity.signal) {
                    let after = final(self).markets@[id];
                    &&& r is NoPrice
                    &&& *final(self) == (StrategyState {
                        markets: final(self).markets,
                        pending: final(self).pending,
                        ..*old(self)
                    })
                    &&& final(self).markets@ == old(self).markets@.insert(id, after)
                    &&& forall|i: Seq<char>, k: PendingOrderType| #[trigger]
                        final(self).in_flight(i, k) == (!(i == id && k
                            == PendingOrderType::Directional) && old(self).in_flight(i, k))
                    &&& exists|between: TrackedMarket|
                        {
                            &&& #[trigger] Self::began(
                                m,
                                dollars,
                                opportunity.signal,
                                scaled_root,
                                between,
                            )
                            &&& after == (TrackedMarket {
                                position_manager: after.position_manager,
                                ..between
                            })
                            &&& between.position_manager.released(
                                dollars,
                                m.state.seconds_remaining,
                                after.position_manager,
                            )
                        }
                } else {
                    let after = final(self).markets@[id];
                    &&& r is Place
                    &&& *final(self) == (StrategyState {
                        markets: final(self).markets,
                        pending: final(self).pending,
                        decision_counter: (old(self).decision_counter + 1) as u64,
                        ..*old(self)
                    })
                    &&& final(self).markets@ == old(self).markets@.insert(id, after)
                    &&& Self::began(m, dollars, opportunity.signal, scaled_root, after)
                    &&& forall|i: Seq<char>, k: PendingOrderType| #[trigger]
                        final(self).in_flight(i, k) == ((i == id && k
                            == PendingOrderType::Directional) || old(self).in_flight(i, k))
                    &&& old(self).buys(m, *opportunity, dollars, r->Place_0)
                }
            }),
    {
        let id = opportunity.event_id.as_str();
        if !self.markets.contains_key(id) {
            self.set_pending(id, PendingOrderType::Directional, false);
            return DirectionalOrder::NoMarket;
        }
        let mut market = match self.markets.remove(id) {
            Some(market) => market,
            None => {
                return DirectionalOrder::NoMarket;
            },
        };
        let ghost m = market;
        let multiplier = opportunity.confidence.total_multiplier(scaled_root);
        market.begin_order(dollars, opportunity.signal, multiplier);
        let ghost between = market;
        assert(Self::began(m, dollars, opportunity.signal, scaled_root, between));
        let up = opportunity.signal.points_up();
        let token_id = if up {
            market.yes_token_id.clone()
        } else {
            market.no_token_id.clone()
        };
        let price = match self.ask_price(token_id.as_str()) {
            Some(price) => price,
            None => Decimal::zero(),
        };
        if price <= Decimal::zero() {
            assert(!old(self).has_price(m, opportunity.signal));
            market.cancel_order_budget(dollars);
            self.markets.insert(opportunity.event_id.clone(), market);
            assert(self.markets@ =~= old(self).markets@.insert(id@, market));
            self.set_pending(id, PendingOrderType::Directional, false);
            return DirectionalOrder::NoPrice;
        }
        assert(old(self).has_price(m, opportunity.signal));
        let shares = market.directional_shares(dollars, price);
        let counter: u64 = self.decision_counter;
        self.decision_counter = self.decision_counter + 1;
        let (order_type, _) = order_style(&self.config.execution, self.config.is_backtest);
        self.markets.insert(opportunity.event_id.clone(), market);
        assert(self.markets@ =~= old(self).markets@.insert(id@, market));
        self.set_pending(id, PendingOrderType::Directional, true);
        let base = "dir-".to_owned().concat(number_text(counter).as_str());
        DirectionalOrder::Place(
            OrderRequest {
                request_id: if up {
                    base.concat("-yes")
                } else {
                    base.concat("-no")
                },
                event_id: opportunity.event_id.clone(),
                token_id,
                outcome: if up {
                    Outcome::Yes
                } else {
                    Outcome::No
                },
                side: Side::Buy,
                size: shares,
                price,
                order_type,
            },
        )
    }

    /// Whether the end of a directional order can be booked within range.
    pub open spec fn end_fits(
        self,
        event_id: Seq<char>,
        up: bool,
        fill: FillAmounts,
        still_pending: bool,
        reserved: Decimal,
    ) -> bool {
        self.markets@.dom().contains(event_id) ==> {
            let m = self.markets@[event_id];
            &&& fill.size@ > 0 ==> m.directional_fill_fits(up, fill.size, fill.cost, reserved)
            &&& fill.size@ <= 0 && !still_pending ==> m.release_fits(reserved)
        }
    }

    /// Whether `after` is a market in which the end of a directional order, or news of one that is
    /// still pending, was booked.
    pub open spec fn directional_ended(
        before: TrackedMarket,
        up: bool,
        fill: FillAmounts,
        still_pending: bool,
        reserved: Decimal,
        multiplier: Decimal,
        after: TrackedMarket,
    ) -> bool {
        if fill.size@ > 0 {
            before.directional_filled(up, fill.size, fill.cost, reserved, multiplier, after)
        } else if !still_pending {
            &&& after == (TrackedMarket { position_manager: after.position_manager, ..before })
            &&& before.position_manager.released(
                reserved,
                before.state.seconds_remaining,
                after.position_manager,
            )
        } else {
            after == before
        }
    }

    /// Books what became of a directional order: a fill turns the reserved budget into a trade; an
    /// order that ended without one gives it back. The order is no longer in flight unless it is
    /// still pending.
    pub fn finish_directional(
        &mut self,
        event_id: &str,
        up: bool,
        fill: FillAmounts,
        still_pending: bool,
        reserved: Decimal,
        multiplier: Decimal,
    )
        requires
            old(self).end_fits(event_id@, up, fill, still_pending, reserved),
        ensures
            *final(self) == (StrategyState {
                markets: final(self).markets,
                pending: final(self).pending,
                ..*old(self)
            }),
            forall|id: Seq<char>, k: PendingOrderType| #[trigger]
                final(self).in_flight(id, k) == if id == event_id@ && k
                    == PendingOrderType::Directional && !still_pending {
                    false
                } else {
                    old(self).in_flight(id, k)
                },
            if old(self).markets@.dom().contains(event_id@) {
                let before = old(self).markets@[event_id@];
                let after = final(self).markets@[event_id@];
                &&& final(self).markets@ == old(self).markets@.insert(event_id@, after)
                &&& Self::directional_ended(
                    before,
                    up,
                    fill,
                    still_pending,
                    reserved,
                    multiplier,
                    after,
                )
            } else {
                final(self).markets == old(self).markets
            },
    {
        if self.markets.contains_key(event_id) {
            if let Some(mut market) = self.markets.remove(event_id) {
                if fill.size > Decimal::zero() {
                    market.book_directional_fill(up, fill.size, fill.cost, reserved, multiplier);
                } else if !still_pending {
                    market.cancel_order_budget(reserved);
                }
                self.markets.insert(event_id.to_owned(), market);
                assert(self.markets@ =~= old(self).markets@.insert(event_id@, market));
            }
        }
        if !still_pending {
            self.set_pending(event_id, PendingOrderType::Directional, false);
        }
    }

    // ------------------------------------------------------------------------
    // Confidence at a spot price, and status
    // ------------------------------------------------------------------------

    /// Whether a market is tracked and has a strike.
    pub open spec fn has_strike(self, event_id: Seq<char>) -> bool {
        &&& self.markets@.dom().contains(event_id)
        &&& self.markets@[event_id].state.strike_price@ != 0
        &&& self.markets@[event_id].strike_price@ != 0
    }

    /// Distance of a price from the strike of a market.
    pub open spec fn distance_at(m: TrackedMarket, price: Decimal) -> Option<int> {
        magnitude(difference(num(price), num(m.strike_price)))
    }

    /// Distance from the strike at a spot price, and the product whose square root is the
    /// confidence; nothing for a market that is not tracked or has no strike.
    pub fn spot_confidence(&self, event_id: &str, price: Decimal) -> (r: Option<(Decimal, Decimal)>)
        requires
            self.has_strike(event_id@) ==> {
                let m = self.markets@[event_id@];
                &&& Self::distance_at(m, price) is Some
                &&& forall|distance: Decimal|
                    #![trigger m.position_manager.conf_product(
                        distance,
                        m.state.seconds_remaining,
                        self.config.window_duration_secs,
                    )]
                    num(distance) == Self::distance_at(m, price)
                        ==> m.position_manager.conf_product(
                        distance,
                        m.state.seconds_remaining,
                        self.config.window_duration_secs,
                    ) is Some
            },
        ensures
            match r {
                Some((distance, confidence_product)) => {
                    let m = self.markets@[event_id@];
                    &&& self.has_strike(event_id@)
                    &&& num(distance) == Self::distance_at(m, price)
                    &&& num(confidence_product) == m.position_manager.conf_product(
                        distance,
                        m.state.seconds_remaining,
                        self.config.window_duration_secs,
                    )
                },
                None => !self.has_strike(event_id@),
            },
    {
        match self.markets.get(event_id) {
            Some(market) => {
                if market.state.strike_price.is_zero() || market.strike_price.is_zero() {
                    return None;
                }
                let distance = price.minus(market.strike_price).abs();
                let confidence_product = market.position_manager.confidence_product(
                    distance,
                    market.state.seconds_remaining,
                    self.config.window_duration_secs,
                );
                Some((distance, confidence_product))
            },
            None => None,
        }
    }

    /// Price of the side that a spot price favours: its ask, else one half.
    pub open spec fn favored_at(m: TrackedMarket, price: Decimal) -> int {
        match if price@ > m.strike_price@ {
            m.state.yes_book.ask()
        } else {
            m.state.no_book.ask()
        } {
            Some(ask) => ask@,
            None => units(50, 2),
        }
    }

    /// Terms of the snapshot at a spot price.
    pub open spec fn spot_terms(
        self,
        m: TrackedMarket,
        distance: Decimal,
        confidence: Decimal,
        favored: Decimal,
    ) -> SnapshotTerms {
        let seconds = m.state.seconds_remaining;
        SnapshotTerms {
            confidence,
            seconds,
            edge_seconds: if seconds > 0 { seconds } else { 0 },
            window: self.config.window_duration_secs,
            distance: distance@,
            atr: m.position_manager.config.atr,
            price: favored,
            max_edge_factor: self.config.max_edge_factor,
        }
    }

    /// The snapshot of a market at a spot price; `distance` and the square root `root` of the
    /// confidence product go with `spot_confidence`.
    pub fn spot_snapshot(&self, event_id: &str, price: Decimal, distance: Decimal, root: Decimal)
        -> (r: ConfidenceSnapshot)
        requires
            self.markets@.dom().contains(event_id@),
            ({
                let m = self.markets@[event_id@];
                let manager = m.position_manager;
                let window = self.config.window_duration_secs;
                &&& manager.time_conf(m.state.seconds_remaining, window) is Some
                &&& manager.dist_conf(manager.atr_multiple(distance)) is Some
                &&& manager.confidence(distance, m.state.seconds_remaining, window, root) is Some
                &&& forall|confidence: Decimal, favored: Decimal|
                    num(confidence) == manager.confidence(
                        distance,
                        m.state.seconds_remaining,
                        window,
                        root,
                    ) && favored@ == Self::favored_at(m, price) ==> (#[trigger] self.spot_terms(
                        m,
                        distance,
                        confidence,
                        favored,
                    )).fits()
            }),
        ensures
            ({
                let m = self.markets@[event_id@];
                &&& num(r.confidence) == m.position_manager.confidence(
                    distance,
                    m.state.seconds_remaining,
                    self.config.window_duration_secs,
                    root,
                )
                &&& r.favorable_price@ == Self::favored_at(m, price)
                &&& self.spot_terms(m, distance, r.confidence, r.favorable_price).shown_by(
                    m.event_id@,
                    r,
                )
            }),
    {
        let market = self.markets.get(event_id).unwrap();
        let seconds: i64 = market.state.seconds_remaining;
        let window: i64 = self.config.window_duration_secs;
        let confidence = market.position_manager.calculate_confidence(
            distance,
            seconds,
            window,
            root,
        );
        let ask = if price > market.strike_price {
            market.state.yes_book.best_ask()
        } else {
            market.state.no_book.best_ask()
        };
        let favored = match ask {
            Some(ask) => ask,
            None => Decimal::new(50, 2),
        };
        assert(self.spot_terms(*market, distance, confidence, favored).fits());
        ConfidenceSnapshot::of(
            &market.event_id,
            confidence,
            seconds,
            if seconds > 0 {
                seconds
            } else {
                0
            },
            window,
            distance,
            market.position_manager.atr(),
            favored,
            self.config.max_edge_factor,
        )
    }

    /// Whether a market is tracked and has not ended.
    pub open spec fn is_live(self, event_id: Seq<char>, now_ms: i64) -> bool {
        self.markets@.dom().contains(event_id) && now_ms < self.markets@[event_id].window_end_ms
    }

    /// The live market with the fewest seconds remaining; of several with as few, some one.
    pub fn closest_market(&self, now_ms: i64) -> (r: Option<String>)
        ensures
            match r {
                Some(id) => {
                    &&& self.is_live(id@, now_ms)
                    &&& forall|k: Seq<char>| #[trigger]
                        self.is_live(k, now_ms) ==> self.markets@[id@].state.seconds_remaining
                            <= self.markets@[k].state.seconds_remaining
                },
                None => forall|k: Seq<char>| !(#[trigger] self.is_live(k, now_ms)),
            },
    {
        let keys = self.markets.keys();
        let mut best: Option<usize> = None;
        let mut i: usize = 0;
        while i < keys.len()
            invariant
                i <= keys@.len(),
                forall|j: int|
                    0 <= j < keys@.len() ==> self.markets@.dom().contains((#[trigger] keys@[j])@),
                match best {
                    Some(b) => {
                        &&& b < i
                        &&& self.is_live(keys@[b as int]@, now_ms)
                        &&& forall|j: int|
                            0 <= j < i && self.is_live((#[trigger] keys@[j])@, now_ms)
                                ==> self.markets@[keys@[b as int]@].state.seconds_remaining
                                <= self.markets@[keys@[j]@].state.seconds_remaining
                    },
                    None => forall|j: int|
                        0 <= j < i ==> !self.is_live((#[trigger] keys@[j])@, now_ms),
                },
            decreases keys@.len() - i,
        {
            if let Some(market) = self.markets.get(keys[i].as_str()) {
                if !market.is_expired(now_ms) {
                    let nearer = match best {
                        Some(b) => match self.markets.get(keys[b].as_str()) {
                            Some(other) => market.state.seconds_remaining
                                < other.state.seconds_remaining,
                            None => true,
                        },
                        None => true,
                    };
                    if nearer {
                        best = Some(i);
                    }
                }
            }
            i += 1;
        }
        assert forall|k: Seq<char>| #[trigger] self.is_live(k, now_ms) implies exists|j: int|
            0 <= j < keys@.len() && (#[trigger] keys@[j])@ == k by {
            assert(self.markets@.dom().contains(k));
        }
        match best {
            Some(b) => Some(keys[b].clone()),
            None => None,
        }
    }

    /// Stops tracking a market that was found closed.
    pub fn drop_market(&mut self, event_id: &str)
        ensures
            *final(self) == (StrategyState { markets: final(self).markets, ..*old(self) }),
            final(self).markets@ == old(self).markets@.remove(event_id@),
    {
        let dropped = self.markets.remove(event_id);
    }

    // ------------------------------------------------------------------------
    // Hedges
    // ------------------------------------------------------------------------

    /// Raises the peak of confidence of a market with a position.
    pub fn note_confidence(&mut self, event_id: &str, confidence: Decimal)
        ensures
            if old(self).markets@.dom().contains(event_id@) {
                let m = old(self).markets@[event_id@];
                &&& *final(self) == (StrategyState { markets: final(self).markets, ..*old(self) })
                &&& final(self).markets@ == old(self).markets@.insert(
                    event_id@,
                    (TrackedMarket {
                        peak_confidence: if m.position_direction is Some && m.peak_confidence@
                            < confidence@ {
                            confidence
                        } else {
                            m.peak_confidence
                        },
                        ..m
                    }),
                )
            } else {
                *final(self) == *old(self)
            },
    {
        if !self.markets.contains_key(event_id) {
            return;
        }
        if let Some(mut market) = self.markets.remove(event_id) {
            market.note_confidence(confidence);
            self.markets.insert(event_id.to_owned(), market);
            assert(self.markets@ =~= old(self).markets@.insert(event_id@, market));
        }
    }

    /// Whether a hedge tier can be looked at within range.
    pub open spec fn hedge_fits(
        self,
        event_id: Seq<char>,
        tier: int,
        confidence: Decimal,
        signal: Signal,
    ) -> bool {
        self.markets@.dom().contains(event_id) ==> {
            let m = self.markets@[event_id];
            let ask = self.live_ask(m.hedge_token()@);
            &&& m.position_direction is Some && m.position_shares()@ > 0 ==> m.drop_from_peak(
                confidence,
            ) is Some
            &&& m.tier_due(tier, confidence, signal) && ask is Some && m.tier_affordable(
                tier,
                ask->0,
            ) ==> m.tier_share(tier) is Some
        }
    }

    /// What a hedge tier of a market comes to, at the current ask of the other outcome.
    pub fn check_hedge(
        &self,
        event_id: &str,
        tier: usize,
        confidence: Decimal,
        signal: Signal,
    ) -> (r: HedgeAction)
        requires
            tier < 3,
            self.hedge_fits(event_id@, tier as int, confidence, signal),
        ensures
            ({
                let m = self.markets@[event_id@];
                let ask = self.live_ask(m.hedge_token()@);
                if self.markets@.dom().contains(event_id@) {
                    m.hedges_as(tier as int, confidence, signal, ask, r)
                } else {
                    r is Wait
                }
            }),
    {
        match self.markets.get(event_id) {
            Some(market) => {
                let up = match market.position_direction {
                    Some(up) => up,
                    None => {
                        return HedgeAction::Wait;
                    },
                };
                let ask = if up {
                    self.ask_price(market.no_token_id.as_str())
                } else {
                    self.ask_price(market.yes_token_id.as_str())
                };
                market.hedge_action(tier, confidence, signal, ask)
            },
            None => HedgeAction::Wait,
        }
    }

    /// Whether `order` is the order of a hedge in a market.
    pub open spec fn hedges_with(
        self,
        m: TrackedMarket,
        tier: usize,
        shares: Decimal,
        price: Decimal,
        order: OrderRequest,
    ) -> bool {
        &&& order.request_id@ == "hedge-"@ + digits(self.decision_counter as nat) + "-t"@ + digits(
            tier as nat,
        )
        &&& order.event_id == m.event_id
        &&& order.token_id == m.hedge_token()
        &&& order.outcome == m.hedge_side()
        &&& order.side == Side::Buy
        &&& order.size == shares
        &&& order.price == price
        &&& order.order_type == OrderType::Ioc
    }

    /// The order of a hedge in a market with a position. The tier is used up, whatever becomes of
    /// the order.
    pub fn hedge_order(&mut self, event_id: &str, tier: usize, shares: Decimal, price: Decimal)
        -> (r: Option<OrderRequest>)
        requires
            tier < 3,
            old(self).decision_counter < u64::MAX,
        ensures
            if old(self).markets@.dom().contains(event_id@) {
                let before = old(self).markets@[event_id@];
                let after = final(self).markets@[event_id@];
                &&& *final(self) == (StrategyState {
                    markets: final(self).markets,
                    decision_counter: (old(self).decision_counter + 1) as u64,
                    ..*old(self)
                })
                &&& final(self).markets@ == old(self).markets@.insert(event_id@, after)
                &&& after == (TrackedMarket {
                    hedge_tiers_triggered: after.hedge_tiers_triggered,
                    ..before
                })
                &&& after.hedge_tiers_triggered@ == before.hedge_tiers_triggered@.update(
                    tier as int,
                    true,
                )
                &&& r is Some
                &&& old(self).hedges_with(before, tier, shares, price, r->0)
            } else {
                r is None && *final(self) == *old(self)
            },
    {
        if !self.markets.contains_key(event_id) {
            return None;
        }
        let mut market = match self.markets.remove(event_id) {
            Some(market) => market,
            None => {
                return None;
            },
        };
        let counter: u64 = self.decision_counter;
        self.decision_counter = self.decision_counter + 1;
        market.mark_tier(tier);
        let up = match market.position_direction {
            Some(up) => up,
            None => false,
        };
        let order = OrderRequest {
            request_id: "hedge-".to_owned().concat(number_text(counter).as_str()).concat(
                "-t",
            ).concat(number_text(tier as u64).as_str()),
            event_id: market.event_id.clone(),
            token_id: if up {
                market.no_token_id.clone()
            } else {
                market.yes_token_id.clone()
            },
            outcome: if up {
                Outcome::No
            } else {
                Outcome::Yes
            },
            side: Side::Buy,
            size: shares,
            price,
            order_type: OrderType::Ioc,
        };
        self.markets.insert(event_id.to_owned(), market);
        assert(self.markets@ =~= old(self).markets@.insert(event_id@, market));
        Some(order)
    }

    /// Books shares that were bought in a market, by a hedge or otherwise.
    pub fn book_shares(&mut self, event_id: &str, outcome: Outcome, size: Decimal, cost: Decimal)
        requires
            old(self).markets@.dom().contains(event_id@) ==> old(
                self,
            ).markets@[event_id@].inventory.fill_fits(outcome, size, cost),
        ensures
            if old(self).markets@.dom().contains(event_id@) {
                let before = old(self).markets@[event_id@];
                let after = final(self).markets@[event_id@];
                &&& *final(self) == (StrategyState { markets: final(self).markets, ..*old(self) })
                &&& final(self).markets@ == old(self).markets@.insert(event_id@, after)
                &&& after == (TrackedMarket { inventory: after.inventory, ..before })
                &&& before.inventory.filled(outcome, size, cost, after.inventory)
            } else {
                *final(self) == *old(self)
            },
    {
        if !self.markets.contains_key(event_id) {
            return;
        }
        if let Some(mut market) = self.markets.remove(event_id) {
            market.inventory.record_fill(outcome, size, cost);
            self.markets.insert(event_id.to_owned(), market);
            assert(self.markets@ =~= old(self).markets@.insert(event_id@, market));
        }
    }

    // ------------------------------------------------------------------------
    // Maker orders
    // ------------------------------------------------------------------------

    /// Ids of the resting orders to take back before an order is placed: those of the same token
    /// that are stale, off the price or filled. None for a market that is not tracked.
    pub fn maker_orders_to_cancel(
        &self,
        opportunity: &MakerOpportunity,
        now_ms: i64,
        config: &MakerOrderConfig,
    ) -> (r: Vec<String>)
        requires
            ({
                let orders = self.markets@[opportunity.event_id@].active_maker_orders@;
                self.markets@.dom().contains(opportunity.event_id@) ==> forall|k: Seq<char>|
                    #[trigger] orders.dom().contains(k) && orders[k].token_id@
                        == opportunity.token_id@ && !orders[k].stale(
                        now_ms,
                        config.stale_threshold_ms,
                    ) && orders[k].price@ != 0 ==> orders[k].price_change(
                        opportunity.price,
                    ) is Some
            }),
        ensures
            if self.markets@.dom().contains(opportunity.event_id@) {
                lists(
                    r@,
                    self.markets@[opportunity.event_id@].active_maker_orders@,
                    |o: ActiveMakerOrder|
                        outdated(
                            o,
                            opportunity.token_id@,
                            opportunity.price,
                            now_ms,
                            *config,
                        ),
                )
            } else {
                r@.len() == 0
            },
    {
        match self.markets.get(opportunity.event_id.as_str()) {
            Some(market) => outdated_orders(
                &market.active_maker_orders,
                opportunity.token_id.as_str(),
                opportunity.price,
                now_ms,
                config,
            ),
            None => Vec::new(),
        }
    }

    /// Ids of the resting orders of a market that are stale or filled.
    pub fn maker_orders_to_refresh(&self, event_id: &str, now_ms: i64, config: &MakerOrderConfig)
        -> (r: Vec<String>)
        ensures
            if self.markets@.dom().contains(event_id@) {
                lists(
                    r@,
                    self.markets@[event_id@].active_maker_orders@,
                    |o: ActiveMakerOrder| worn_out(o, now_ms, *config),
                )
            } else {
                r@.len() == 0
            },
    {
        match self.markets.get(event_id) {
            Some(market) => worn_out_orders(&market.active_maker_orders, now_ms, config),
            None => Vec::new(),
        }
    }

    /// Whether what was filled of a cancelled order can be booked within range.
    pub open spec fn cancel_fits(
        self,
        event_id: Seq<char>,
        order_id: Seq<char>,
        filled: Option<Decimal>,
    ) -> bool {
        let m = self.markets@[event_id];
        let order = m.active_maker_orders@[order_id];
        self.markets@.dom().contains(event_id) && m.active_maker_orders@.dom().contains(order_id)
            && filled is Some && filled->0@ > 0 ==> {
            &&& product(num(filled->0), num(order.price)) is Some
            &&& forall|cost: Decimal| #[trigger]
                num(cost) == product(num(filled->0), num(order.price)) ==> m.inventory.fill_fits(
                    m.outcome_of(order.token_id@),
                    filled->0,
                    cost,
                )
        }
    }

    /// Whether `after` is a market in which a cancelled order was taken note of.
    pub open spec fn cancelled_in(
        before: TrackedMarket,
        order_id: Seq<char>,
        filled: Option<Decimal>,
        after: TrackedMarket,
    ) -> bool {
        &&& after == (TrackedMarket {
            inventory: after.inventory,
            active_maker_orders: after.active_maker_orders,
            ..before
        })
        &&& after.active_maker_orders@ == before.active_maker_orders@.remove(order_id)
        &&& if before.active_maker_orders@.dom().contains(order_id) && filled is Some
            && filled->0@ > 0 {
            let order = before.active_maker_orders@[order_id];
            exists|cost: Decimal|
                num(cost) == product(num(filled->0), num(order.price))
                    && #[trigger] before.inventory.filled(
                    before.outcome_of(order.token_id@),
                    filled->0,
                    cost,
                    after.inventory,
                )
        } else {
            after.inventory == before.inventory
        }
    }

    /// Takes note of a cancelled order: what was filled of it, where that is known, is booked at
    /// the price of the order, and the order is no longer tracked.
    pub fn order_cancelled(&mut self, event_id: &str, order_id: &str, filled: Option<Decimal>)
        requires
            old(self).cancel_fits(event_id@, order_id@, filled),
        ensures
            if old(self).markets@.dom().contains(event_id@) {
                let before = old(self).markets@[event_id@];
                let after = final(self).markets@[event_id@];
                &&& *final(self) == (StrategyState { markets: final(self).markets, ..*old(self) })
                &&& final(self).markets@ == old(self).markets@.insert(event_id@, after)
                &&& Self::cancelled_in(before, order_id@, filled, after)
            } else {
                *final(self) == *old(self)
            },
    {
        if !self.markets.contains_key(event_id) {
            return;
        }
        let mut market = match self.markets.remove(event_id) {
            Some(market) => market,
            None => {
                return;
            },
        };
        let dropped = market.active_maker_orders.remove(order_id);
        if let Some(order) = dropped {
            if let Some(filled) = filled {
                if filled > Decimal::zero() {
                    let cost = filled.times(order.price);
                    assert(num(cost) == product(num(filled), num(order.price)));
                    let outcome = market.token_outcome(&order.token_id);
                    market.inventory.record_fill(outcome, filled, cost);
                }
            }
        }
        self.markets.insert(event_id.to_owned(), market);
        assert(self.markets@ =~= old(self).markets@.insert(event_id@, market));
    }

    /// Whether an order of the token, side and price of an opportunity rests in a market.
    pub open spec fn rests(m: TrackedMarket, opportunity: MakerOpportunity) -> bool {
        exists|k: Seq<char>| #[trigger]
            m.active_maker_orders@.dom().contains(k) && m.active_maker_orders@[k].token_id@
                == opportunity.token_id@ && m.active_maker_orders@[k].side == opportunity.side
                && m.active_maker_orders@[k].price@ == opportunity.price@
    }

    /// Whether this is what to do about a maker opportunity in a market.
    pub open spec fn plans(
        self,
        m: TrackedMarket,
        opportunity: MakerOpportunity,
        config: MakerOrderConfig,
        r: MakerStep,
    ) -> bool {
        if Self::rests(m, opportunity) {
            r is AlreadyThere
        } else if m.active_maker_orders@.dom().len() >= config.max_orders_per_market {
            r is Full
        } else {
            let outcome = m.outcome_of(opportunity.token_id@);
            &&& r is Place
            &&& r->Place_0.request_id@ == "maker-"@ + digits(self.decision_counter as nat) + (
            if outcome == Outcome::Yes {
                "-yes"@
            } else {
                "-no"@
            })
            &&& r->Place_0.event_id == opportunity.event_id
            &&& r->Place_0.token_id == opportunity.token_id
            &&& r->Place_0.outcome == outcome
            &&& r->Place_0.side == opportunity.side
            &&& r->Place_0.size == opportunity.size
            &&& r->Place_0.price == opportunity.price
            &&& r->Place_0.order_type == OrderType::Gtc
        }
    }

    /// What to do about a maker opportunity, once outdated orders were cancelled.
    pub fn plan_maker(&mut self, opportunity: &MakerOpportunity, config: &MakerOrderConfig) -> (r:
        MakerStep)
        requires
            old(self).decision_counter < u64::MAX,
        ensures
            ({
                let id = opportunity.event_id@;
                let m = old(self).markets@[id];
                if !old(self).markets@.dom().contains(id) {
                    r is NoMarket && *final(self) == *old(self)
                } else {
                    &&& old(self).plans(m, *opportunity, *config, r)
                    &&& *final(self) == if r is Place {
                        StrategyState {
                            decision_counter: (old(self).decision_counter + 1) as u64,
                            ..*old(self)
                        }
                    } else {
                        *old(self)
                    }
                }
            }),
    {
        let outcome = match self.markets.get(opportunity.event_id.as_str()) {
            Some(market) => {
                if has_order_at(
                    &market.active_maker_orders,
                    opportunity.token_id.as_str(),
                    opportunity.side,
                    opportunity.price,
                ) {
                    return MakerStep::AlreadyThere;
                }
                if market.active_maker_orders.len() >= config.max_orders_per_market {
                    return MakerStep::Full;
                }
                market.token_outcome(&opportunity.token_id)
            },
            None => {
                return MakerStep::NoMarket;
            },
        };
        let counter: u64 = self.decision_counter;
        self.decision_counter = self.decision_counter + 1;
        let base = "maker-".to_owned().concat(number_text(counter).as_str());
        MakerStep::Place(
            OrderRequest {
                request_id: if outcome == Outcome::Yes {
                    base.concat("-yes")
                } else {
                    base.concat("-no")
                },
                event_id: opportunity.event_id.clone(),
                token_id: opportunity.token_id.clone(),
                outcome,
                side: opportunity.side,
                size: opportunity.size,
                price: opportunity.price,
                order_type: OrderType::Gtc,
            },
        )
    }

    /// Whether the result of a maker order can be booked within range.
    pub open spec fn maker_result_fits(self, opportunity: MakerOpportunity, result: MakerResult) -> bool {
        let m = self.markets@[opportunity.event_id@];
        let outcome = m.outcome_of(opportunity.token_id@);
        self.markets@.dom().contains(opportunity.event_id@) ==> match result {
            MakerResult::Filled { size, price, fee } => {
                let cost = TrackedMarket::fill_cost(size, price, fee);
                &&& cost is Some
                &&& forall|c: Decimal| #[trigger]
                    num(c) == cost ==> m.inventory.fill_fits(outcome, size, c)
                &&& product(product(num(size), num(price)), lit(100, 0)) is Some
            },
            MakerResult::Partial { order_id, requested, filled, avg_price, fee } => {
                let cost = TrackedMarket::fill_cost(filled, avg_price, fee);
                &&& cost is Some
                &&& forall|c: Decimal| #[trigger]
                    num(c) == cost ==> m.inventory.fill_fits(outcome, filled, c)
                &&& difference(num(requested), num(filled)) is Some
                &&& product(product(num(filled), num(avg_price)), lit(100, 0)) is Some
            },
            _ => true,
        }
    }

    /// Whether `after` tracks one more resting order.
    pub open spec fn with_order(
        before: TrackedMarket,
        opportunity: MakerOpportunity,
        order_id: String,
        size: Option<int>,
        now_ms: i64,
        after: TrackedMarket,
    ) -> bool {
        let order = after.active_maker_orders@[order_id@];
        &&& after.active_maker_orders@ == before.active_maker_orders@.insert(order_id@, order)
        &&& order.order_id == order_id
        &&& order.token_id == opportunity.token_id
        &&& order.side == opportunity.side
        &&& order.price == opportunity.price
        &&& num(order.original_size) == size
        &&& order.remaining_size == order.original_size
        &&& order.filled_size@ == 0
        &&& order.placed_at_ms == now_ms
        &&& order.updated_at_ms == now_ms
    }

    /// Whether `after` is a market with the result of a maker order booked.
    pub open spec fn maker_booked(
        before: TrackedMarket,
        opportunity: MakerOpportunity,
        result: MakerResult,
        now_ms: i64,
        after: TrackedMarket,
    ) -> bool {
        let outcome = before.outcome_of(opportunity.token_id@);
        &&& after == (TrackedMarket {
            inventory: after.inventory,
            active_maker_orders: after.active_maker_orders,
            ..before
        })
        &&& match result {
            MakerResult::Filled { size, price, fee } => {
                &&& after.active_maker_orders == before.active_maker_orders
                &&& exists|cost: Decimal|
                    num(cost) == TrackedMarket::fill_cost(size, price, fee)
                        && #[trigger] before.inventory.filled(outcome, size, cost, after.inventory)
            },
            MakerResult::Partial { order_id, requested, filled, avg_price, fee } => {
                let left = difference(num(requested), num(filled));
                &&& if left->0 > 0 {
                    Self::with_order(before, opportunity, order_id, left, now_ms, after)
                } else {
                    after.active_maker_orders == before.active_maker_orders
                }
                &&& exists|cost: Decimal|
                    num(cost) == TrackedMarket::fill_cost(filled, avg_price, fee)
                        && #[trigger] before.inventory.filled(
                        outcome,
                        filled,
                        cost,
                        after.inventory,
                    )
            },
            MakerResult::Pending { order_id } => {
                &&& after.inventory == before.inventory
                &&& Self::with_order(
                    before,
                    opportunity,
                    order_id,
                    num(opportunity.size),
                    now_ms,
                    after,
                )
            },
            MakerResult::Refused => after == before,
        }
    }

    /// Books what became of a maker order: fills go to the inventory, what rests is tracked. Gives
    /// back the action and the volume in cents.
    pub fn finish_maker(
        &mut self,
        opportunity: &MakerOpportunity,
        result: MakerResult,
        now_ms: i64,
    ) -> (r: (TradeAction, u64))
        requires
            old(self).maker_result_fits(*opportunity, result),
        ensures
            if old(self).markets@.dom().contains(opportunity.event_id@) {
                let before = old(self).markets@[opportunity.event_id@];
                let after = final(self).markets@[opportunity.event_id@];
                &&& *final(self) == (StrategyState { markets: final(self).markets, ..*old(self) })
                &&& final(self).markets@ == old(self).markets@.insert(opportunity.event_id@, after)
                &&& Self::maker_booked(before, *opportunity, result, now_ms, after)
                &&& r.0 == if result is Refused {
                    TradeAction::SkipSizing
                } else {
                    TradeAction::Execute
                }
                &&& r.1 == match result {
                    MakerResult::Filled { size, price, fee } => cents_of(
                        product(num(size), num(price)),
                    ),
                    MakerResult::Partial { order_id, requested, filled, avg_price, fee } => cents_of(
                        product(num(filled), num(avg_price)),
                    ),
                    _ => 0,
                }
            } else {
                *final(self) == *old(self) && r == (TradeAction::SkipSizing, 0u64)
            },
    {
        let id = opportunity.event_id.as_str();
        if !self.markets.contains_key(id) {
            return (TradeAction::SkipSizing, 0);
        }
        let mut market = match self.markets.remove(id) {
            Some(market) => market,
            None => {
                return (TradeAction::SkipSizing, 0);
            },
        };
        let ghost before = market;
        let outcome = market.token_outcome(&opportunity.token_id);
        let r: (TradeAction, u64) = match result {
            MakerResult::Filled { size, price, fee } => {
                let worth = size.times(price);
                let cost = worth.plus(fee);
                assert(num(cost) == TrackedMarket::fill_cost(size, price, fee));
                market.inventory.record_fill(outcome, size, cost);
                (TradeAction::Execute, volume_cents(worth))
            },
            MakerResult::Partial { order_id, requested, filled, avg_price, fee } => {
                let worth = filled.times(avg_price);
                let cost = worth.plus(fee);
                assert(num(cost) == TrackedMarket::fill_cost(filled, avg_price, fee));
                market.inventory.record_fill(outcome, filled, cost);
                let left = requested.minus(filled);
                if left > Decimal::zero() {
                    let order = ActiveMakerOrder::new(
                        order_id.clone(),
                        opportunity.token_id.clone(),
                        opportunity.side,
                        opportunity.price,
                        left,
                        now_ms,
                    );
                    market.active_maker_orders.insert(order_id, order);
                }
                (TradeAction::Execute, volume_cents(worth))
            },
            MakerResult::Pending { order_id } => {
                let order = ActiveMakerOrder::new(
                    order_id.clone(),
                    opportunity.token_id.clone(),
                    opportunity.side,
                    opportunity.price,
                    opportunity.size,
                    now_ms,
                );
                market.active_maker_orders.insert(order_id, order);
                (TradeAction::Execute, 0)
            },
            MakerResult::Refused => (TradeAction::SkipSizing, 0),
        };
        self.markets.insert(opportunity.event_id.clone(), market);
        assert(self.markets@ =~= old(self).markets@.insert(id@, market));
        assert(Self::maker_booked(before, *opportunity, result, now_ms, market));
        r
    }

    /// Whether a fill of a resting order can be booked within range.
    pub open spec fn maker_fill_fits(self, event_id: Seq<char>, order_id: Seq<char>, size: Decimal)
        -> bool {
        let orders = self.markets@[event_id].active_maker_orders@;
        self.markets@.dom().contains(event_id) && orders.dom().contains(order_id) ==> {
            &&& orders[order_id].filled_with(size) is Some
            &&& difference(
                num(orders[order_id].original_size),
                orders[order_id].filled_with(size),
            ) is Some
        }
    }

    /// Whether `after` are the resting orders of a market once one of them was filled further.
    pub open spec fn maker_filled(
        before: Map<Seq<char>, ActiveMakerOrder>,
        order_id: Seq<char>,
        filled_size: Decimal,
        now_ms: i64,
        after: Map<Seq<char>, ActiveMakerOrder>,
    ) -> bool {
        let order = before[order_id];
        let left = difference(num(order.original_size), order.filled_with(filled_size));
        if left->0 <= 0 {
            after == before.remove(order_id)
        } else {
            let now = after[order_id];
            &&& after == before.insert(order_id, now)
            &&& now == (ActiveMakerOrder {
                filled_size: now.filled_size,
                remaining_size: now.remaining_size,
                updated_at_ms: now_ms,
                ..order
            })
            &&& num(now.filled_size) == order.filled_with(filled_size)
            &&& num(now.remaining_size) == left
        }
    }

    /// Books a fill of a resting order; an order of which nothing remains is no longer tracked.
    pub fn handle_maker_fill(
        &mut self,
        event_id: &str,
        order_id: &str,
        filled_size: Decimal,
        now_ms: i64,
    )
        requires
            old(self).maker_fill_fits(event_id@, order_id@, filled_size),
        ensures
            if old(self).markets@.dom().contains(event_id@)
                && old(self).markets@[event_id@].active_maker_orders@.dom().contains(order_id@) {
                let before = old(self).markets@[event_id@];
                let after = final(self).markets@[event_id@];
                &&& *final(self) == (StrategyState { markets: final(self).markets, ..*old(self) })
                &&& final(self).markets@ == old(self).markets@.insert(event_id@, after)
                &&& after == (TrackedMarket {
                    active_maker_orders: after.active_maker_orders,
                    ..before
                })
                &&& Self::maker_filled(
                    before.active_maker_orders@,
                    order_id@,
                    filled_size,
                    now_ms,
                    after.active_maker_orders@,
                )
            } else {
                *final(self) == *old(self)
            },
    {
        let known = match self.markets.get(event_id) {
            Some(market) => market.active_maker_orders.contains_key(order_id),
            None => false,
        };
        if !known {
            return;
        }
        let mut market = match self.markets.remove(event_id) {
            Some(market) => market,
            None => {
                return;
            },
        };
        let ghost before = market;
        if let Some(mut order) = market.active_maker_orders.remove(order_id) {
            order.record_fill(filled_size, now_ms);
            if !order.is_fully_filled() {
                market.active_maker_orders.insert(order_id.to_owned(), order);
                assert(market.active_maker_orders@ =~= before.active_maker_orders@.insert(
                    order_id@,
                    order,
                ));
            }
        }
        self.markets.insert(event_id.to_owned(), market);
        assert(self.markets@ =~= old(self).markets@.insert(event_id@, market));
    }

    // ------------------------------------------------------------------------
    // Orders managed in the background, and records
    // ------------------------------------------------------------------------

    /// Takes in news about an order that is managed in the background: a fill goes to the position
    /// that is handed in, if there is one, and an order that is over is no longer in flight.
    pub fn handle_order_update(&mut self, update: &OrderUpdate, position: Option<Inventory>) -> (r:
        Option<Inventory>)
        requires
            match *update {
                OrderUpdate::Fill {
                    market_id,
                    outcome,
                    side,
                    filled_size,
                    avg_price,
                    fee,
                    is_complete,
                } => position is Some ==> position->0.update_fits(
                    outcome,
                    side,
                    filled_size,
                    avg_price,
                    fee,
                ),
                _ => true,
            },
        ensures
            if update.ends_order() {
                old(self).flagged(
                    update.market(),
                    PendingOrderType::Directional,
                    false,
                    *final(self),
                )
            } else {
                *final(self) == *old(self)
            },
            r is Some <==> position is Some,
            match *update {
                OrderUpdate::Fill {
                    market_id,
                    outcome,
                    side,
                    filled_size,
                    avg_price,
                    fee,
                    is_complete,
                } => position is Some ==> position->0.updated(
                    outcome,
                    side,
                    filled_size,
                    avg_price,
                    fee,
                    r->0,
                ),
                _ => r == position,
            },
    {
        match update {
            OrderUpdate::Fill {
                market_id,
                outcome,
                side,
                filled_size,
                avg_price,
                fee,
                is_complete,
            } => {
                if *is_complete {
                    self.set_pending(market_id.as_str(), PendingOrderType::Directional, false);
                }
                match position {
                    Some(mut inventory) => {
                        inventory.apply_update(*outcome, *side, *filled_size, *avg_price, *fee);
                        Some(inventory)
                    },
                    None => None,
                }
            },
            OrderUpdate::Rejected { market_id } => {
                self.set_pending(market_id.as_str(), PendingOrderType::Directional, false);
                position
            },
            OrderUpdate::Cancelled { market_id } => {
                self.set_pending(market_id.as_str(), PendingOrderType::Directional, false);
                position
            },
            OrderUpdate::ChaseEnded { market_id } => {
                self.set_pending(market_id.as_str(), PendingOrderType::Directional, false);
                position
            },
        }
    }

    /// Record of a decision on an arbitrage; each record has its own number.
    pub fn record_decision(
        &mut self,
        opportunity: &ArbOpportunity,
        sizing: SizingResult,
        toxic_warning: Option<ToxicFlowWarning>,
        action: TradeAction,
        timestamp_ms: i64,
        latency_us: u64,
    ) -> (r: crate::strategy::TradeDecision)
        requires
            old(self).decision_counter < u64::MAX,
        ensures
            *final(self) == (StrategyState {
                decision_counter: (old(self).decision_counter + 1) as u64,
                ..*old(self)
            }),
            r == (crate::strategy::TradeDecision {
                decision_id: old(self).decision_counter,
                event_id: opportunity.event_id,
                asset: opportunity.asset,
                opportunity: *opportunity,
                sizing,
                toxic_warning,
                action,
                timestamp_ms,
                latency_us,
            }),
    {
        let decision = crate::strategy::TradeDecision {
            decision_id: self.decision_counter,
            event_id: opportunity.event_id.clone(),
            asset: opportunity.asset,
            opportunity: opportunity.clone(),
            sizing,
            toxic_warning,
            action,
            timestamp_ms,
            latency_us,
        };
        self.decision_counter = self.decision_counter + 1;
        decision
    }

    /// Record of a decision of any engine; each record has its own number.
    pub fn record_multi_decision(
        &mut self,
        event_id: String,
        asset: CryptoAsset,
        engine: EngineType,
        aggregated: AggregatedDecision,
        sizing: Option<SizingResult>,
        toxic_warning: Option<ToxicFlowWarning>,
        action: TradeAction,
        timestamp_ms: i64,
        latency_us: u64,
    ) -> (r: MultiEngineDecision)
        requires
            old(self).decision_counter < u64::MAX,
        ensures
            *final(self) == (StrategyState {
                decision_counter: (old(self).decision_counter + 1) as u64,
                ..*old(self)
            }),
            r == (MultiEngineDecision {
                decision_id: old(self).decision_counter,
                event_id,
                asset,
                engine,
                aggregated,
                sizing,
                toxic_warning,
                action,
                timestamp_ms,
                latency_us,
            }),
    {
        let decision = MultiEngineDecision {
            decision_id: self.decision_counter,
            event_id,
            asset,
            engine,
            aggregated,
            sizing,
            toxic_warning,
            action,
            timestamp_ms,
            latency_us,
        };
        self.decision_counter = self.decision_counter + 1;
        decision
    }
}

/// A directional trade never exceeds what the account may still take, nor is it below one dollar.
pub proof fn law_trade_within_capacity(
    case: DirectionalCase,
    confidence: int,
    r: DirectionalOutcome,
)
    requires
        case.comes_to(confidence, r),
        r is Execute,
        case.capacity is Some,
        case.wanted(confidence) is Some,
    ensures
        r->size@ <= case.capacity->0,
        r->size@ <= case.wanted(confidence)->0,
        r->size@ >= units(1, 0),
        case.capacity->0 > 0,
{
}

/// With trading stopped on severe flow, a market with a high or critical warning is blocked.
pub proof fn law_severe_flow_blocks(
    state: StrategyState,
    market: TrackedMarket,
    now_ms: i64,
    e: Evaluation,
)
    requires
        state.evaluates(market, now_ms, Some(e)),
        state.config.block_on_toxic_high,
        (market.yes_toxic_warning is Some && market.yes_toxic_warning->0.severity.blocks()) || (
        market.no_toxic_warning is Some && market.no_toxic_warning->0.severity.blocks()),
    ensures
        e.blocked,
{
}

/// An order is tried again only where it was refused for taking liquidity, at the current bid, and
/// fewer than three times; a closed market is never tried again; shares count as bought where the
/// chase succeeded or filled something.
pub proof fn law_chases_end(
    stop: Option<ChaseStop>,
    success: bool,
    filled: Decimal,
    retries: u32,
    fresh_bid: Option<Decimal>,
)
    ensures
        ({
            let r = step_after(stop, success, filled, retries, fresh_bid);
            &&& r is RetryAt ==> fresh_bid == Some(r->RetryAt_0) && r->RetryAt_0@ > 0 && retries < 2
                && stop == Some(ChaseStop::PostOnlyRejected)
            &&& r is Closed <==> stop == Some(ChaseStop::MarketClosed)
            &&& r is MaxRetries <==> stop == Some(ChaseStop::PostOnlyRejected) && retries >= 2
            &&& r is NoFreshPrice ==> fresh_bid is None || fresh_bid->0@ <= 0
            &&& stop is None || stop == Some(ChaseStop::Other) ==> (r is Filled <==> success
                || filled@ > 0) && (r is Failed <==> !success && filled@ <= 0)
        }),
{
}

/// Only limit orders rest and follow the price, and only outside a replay.
pub proof fn law_order_styles(execution: ExecutionConfig, is_backtest: bool)
    ensures
        style_of(execution, is_backtest).0 is Gtc <==> execution.execution_mode is Limit,
        style_of(execution, is_backtest).1 ==> execution.execution_mode is Limit
            && execution.chase_enabled && !is_backtest,
        execution.execution_mode is Limit && execution.chase_enabled && !is_backtest ==> style_of(
            execution,
            is_backtest,
        ).1,
{
}

/// A directional order buys YES on the way up and NO on the way down, at the ask of that token.
pub proof fn law_directional_orders_buy_the_favored_side(
    state: StrategyState,
    m: TrackedMarket,
    opportunity: DirectionalOpportunity,
    dollars: Decimal,
    order: OrderRequest,
)
    requires
        state.buys(m, opportunity, dollars, order),
        state.has_price(m, opportunity.signal),
    ensures
        order.side is Buy,
        order.price@ > 0,
        order.event_id == opportunity.event_id,
        opportunity.signal is StrongUp || opportunity.signal is LeanUp ==> {
            &&& order.outcome is Yes
            &&& order.token_id == m.yes_token_id
            &&& state.order_books@.dom().contains(m.yes_token_id@)
            &&& order.price == state.order_books@[m.yes_token_id@].best_ask
        },
        opportunity.signal is StrongDown || opportunity.signal is LeanDown ==> {
            &&& order.outcome is No
            &&& order.token_id == m.no_token_id
            &&& state.order_books@.dom().contains(m.no_token_id@)
            &&& order.price == state.order_books@[m.no_token_id@].best_ask
        },
        dollars@ >= 0 && divided_by(num(dollars), order.price) is Some ==> order.size@
            >= m.min_order_size@ && (order.size@ > m.min_order_size@ ==> order.size@ <= divided_by(
            num(dollars),
            order.price,
        )->0) && divided_by(num(dollars), order.price)->0 < order.size@ + units(1, 0),
        order.order_type is Gtc <==> state.config.execution.execution_mode is Limit,
{
    if dollars@ >= 0 && divided_by(num(dollars), order.price) is Some {
        crate::market::law_shares_for_dollars(m, dollars, order.price);
    }
}

/// The price that a directional trade is weighed at is the best ask of the very token that the order
/// buys, as long as books and markets agree on their tokens; where the live book of that token shows
/// the same book, it is also the price of the order.
pub proof fn law_weighed_price_is_the_price_paid(
    state: StrategyState,
    m: TrackedMarket,
    now_ms: i64,
    opportunity: DirectionalOpportunity,
    dollars: Decimal,
    order: OrderRequest,
)
    requires
        state.directional_detector.describes(m.state, now_ms, opportunity),
        m.state.yes_book.token_id@ == m.yes_token_id@,
        m.state.no_book.token_id@ == m.no_token_id@,
        opportunity.signal !is Neutral,
        state.buys(m, opportunity, dollars, order),
    ensures
        order.token_id@ == m.state.yes_book.token_id@ || order.token_id@
            == m.state.no_book.token_id@,
        opportunity.signal is StrongUp || opportunity.signal is LeanUp ==> {
            &&& order.token_id@ == m.state.yes_book.token_id@
            &&& m.state.yes_book.asks@.len() > 0
            &&& opportunity.spec_favorable_price() == Some(m.state.yes_book.asks@[0].price@)
        },
        opportunity.signal is StrongDown || opportunity.signal is LeanDown ==> {
            &&& order.token_id@ == m.state.no_book.token_id@
            &&& m.state.no_book.asks@.len() > 0
            &&& opportunity.spec_favorable_price() == Some(m.state.no_book.asks@[0].price@)
        },
        m.yes_token_id@ != m.no_token_id@ && state.order_books@.dom().contains(order.token_id@)
            && state.order_books@[order.token_id@].shows(
            order.token_id@,
            StrategyState::book_in(m, order.token_id@),
        ) ==> opportunity.spec_favorable_price() == Some(order.price@),
{
    crate::directional::law_favored_price_is_of_the_bought_side(opportunity);
}

/// The two orders of an arbitrage buy as many shares of YES as of NO in one event, and a pair costs
/// what the opportunity says.
pub proof fn law_pair_orders_make_pairs(
    state: StrategyState,
    market: MarketState,
    now_ms: i64,
    opportunity: ArbOpportunity,
    sizing: SizingResult,
    yes: OrderRequest,
    no: OrderRequest,
)
    requires
        state.arb_detector.detect_fits(market),
        state.arb_detector.rejection(market) is None,
        state.arb_detector.describes(market, now_ms, opportunity),
        state.pair_orders(opportunity, sizing, yes, no),
    ensures
        yes.side is Buy && no.side is Buy,
        yes.outcome is Yes && no.outcome is No,
        yes.size == no.size && yes.size == sizing.size,
        yes.event_id == market.event_id && no.event_id == market.event_id,
        yes.token_id == market.yes_book.token_id && no.token_id == market.no_book.token_id,
        yes.price == market.yes_book.asks@[0].price,
        no.price == market.no_book.asks@[0].price,
        Some(opportunity.combined_cost@) == sum(num(yes.price), num(no.price)),
{
    crate::arb::law_pairs_are_what_both_sides_offer(
        state.arb_detector,
        market,
        now_ms,
        opportunity,
    );
}

/// A lead of Binance in the direction of the signal raises confidence, up to one; a lead against it
/// lowers confidence, down to zero. Up and down are treated alike, and without a lead, or with the
/// adjustment off, nothing changes.
pub proof fn law_leads_confirm_or_oppose(
    config: StrategyConfig,
    lead: Decimal,
    opposite: Decimal,
    confidence: Decimal,
)
    requires
        opposite@ == -lead@,
        0 <= confidence@ <= units(1, 0),
        representable(confidence@),
        config.lead_confirm_boost@ >= 0,
        0 <= config.lead_oppose_cut@ <= units(1, 0),
    ensures
        lead_adjusted(config, Signal::StrongUp, None, confidence) == Some(confidence@),
        !config.binance_lead_enabled ==> lead_adjusted(
            config,
            Signal::StrongUp,
            Some(lead),
            confidence,
        ) == Some(confidence@),
        lead_adjusted(config, Signal::StrongUp, Some(lead), confidence) == lead_adjusted(
            config,
            Signal::StrongDown,
            Some(opposite),
            confidence,
        ),
        lead_adjusted(config, Signal::LeanUp, Some(lead), confidence) == lead_adjusted(
            config,
            Signal::LeanDown,
            Some(opposite),
            confidence,
        ),
        lead_adjusted(config, Signal::LeanUp, Some(lead), confidence) == lead_adjusted(
            config,
            Signal::StrongUp,
            Some(lead),
            confidence,
        ),
        lead@ > 0 && lead_adjusted(
            config,
            Signal::StrongUp,
            Some(lead),
            confidence,
        ) is Some ==> confidence@ <= lead_adjusted(
            config,
            Signal::StrongUp,
            Some(lead),
            confidence,
        )->0 <= units(1, 0),
        lead@ < 0 && lead_adjusted(
            config,
            Signal::StrongUp,
            Some(lead),
            confidence,
        ) is Some ==> 0 <= lead_adjusted(
            config,
            Signal::StrongUp,
            Some(lead),
            confidence,
        )->0 <= confidence@,
{
    let one = units(1, 0);
    let c = confidence@;
    law_arithmetic_is_exact(c, 0);
    let up = sum(lit(1, 0), num(config.lead_confirm_boost));
    if up is Some && product(num(confidence), up) is Some {
        lemma_lit_sum(1, 0, 0);
        lemma_sum_monotone(one, 0, config.lead_confirm_boost@);
        lemma_product_monotone(c, one, up->0);
    }
    let down = difference(lit(1, 0), num(config.lead_oppose_cut));
    if down is Some {
        lemma_lit_sum(1, 0, 0);
        lemma_sign(one - config.lead_oppose_cut@, 1);
        lemma_rounded_monotone(one - config.lead_oppose_cut@, 1, one, 1);
        lemma_product_shrinks(c, down->0);
    }
}

/// The market is looked at with the latest prices of its own asset, its own Chainlink strike and the
/// time that remains; nothing else of it changes.
pub proof fn law_evaluation_uses_the_latest_prices(state: StrategyState, event_id: Seq<char>, now_ms: i64)
    ensures
        ({
            let m = state.markets@[event_id];
            let p = state.prepared(event_id, now_ms);
            &&& p == (TrackedMarket { state: p.state, ..m })
            &&& p.state.yes_book == m.state.yes_book && p.state.no_book == m.state.no_book
            &&& p.state.strike_price == m.state.strike_price
            &&& p.state.chainlink_strike == m.chainlink_strike
            &&& state.spot_prices.at(m.state.asset) is Some ==> p.state.spot_price
                == state.spot_prices.at(m.state.asset)
            &&& state.spot_prices.at(m.state.asset) is None ==> p.state.spot_price
                == m.state.spot_price
            &&& state.chainlink_prices.at(m.state.asset) is Some ==> p.state.chainlink_price
                == state.chainlink_prices.at(m.state.asset)
            &&& state.chainlink_prices.at(m.state.asset) is None ==> p.state.chainlink_price
                == m.state.chainlink_price
            &&& now_ms <= m.window_end_ms ==> p.state.seconds_remaining * 1000 <= m.window_end_ms
                - now_ms < p.state.seconds_remaining * 1000 + 1000
        }),
{
}

/// An engine that is switched off never decides, and an engine decides only on what its detector has
/// found in the market; the trade is stopped exactly where severe flow in either token is to stop it.
pub proof fn law_engines_decide_on_what_they_find(
    state: StrategyState,
    market: TrackedMarket,
    now_ms: i64,
    e: Evaluation,
)
    requires
        state.evaluates(market, now_ms, Some(e)),
    ensures
        e.asset == market.asset,
        e.aggregated.primary is Some,
        e.aggregated.primary->0 is Arbitrage ==> {
            &&& state.engines_config.arbitrage.enabled
            &&& state.arb_detector.rejection(market.state) is None
            &&& state.arb_detector.describes(
                market.state,
                now_ms,
                e.aggregated.primary->0->Arbitrage_0,
            )
        },
        e.aggregated.primary->0 is Directional ==> {
            &&& state.engines_config.directional.enabled
            &&& state.directional_detector.skip_reason(market.state) is None
            &&& state.directional_detector.describes(
                market.state,
                now_ms,
                e.aggregated.primary->0->Directional_0,
            )
        },
        e.aggregated.primary->0 is Maker ==> {
            &&& state.engines_config.maker.enabled
            &&& state.maker_detector.detects(
                market.state,
                None,
                None,
                now_ms,
                e.aggregated.primary->0->Maker_0@,
            )
        },
        e.blocked ==> state.config.block_on_toxic_high && e.toxic_warning is Some && (
        e.toxic_warning->0.severity is High || e.toxic_warning->0.severity is Critical) && (
        e.toxic_warning == market.yes_toxic_warning || e.toxic_warning == market.no_toxic_warning),
        state.config.block_on_toxic_high && market.yes_toxic_warning is Some && (
        market.yes_toxic_warning->0.severity is High
            || market.yes_toxic_warning->0.severity is Critical) ==> e.blocked,
        state.config.block_on_toxic_high && market.no_toxic_warning is Some && (
        market.no_toxic_warning->0.severity is High
            || market.no_toxic_warning->0.severity is Critical) ==> e.blocked,
{
    let (arb, directional, maker, decision) = choose|
        arb: Option<ArbOpportunity>,
        directional: Option<DirectionalOpportunity>,
        maker: Seq<MakerOpportunity>,
        decision: AggregatedDecision,
    |
        {
            &&& #[trigger] state.finds(market.state, now_ms, arb, directional, maker)
            &&& #[trigger] state.aggregator.decides(arb, directional, maker, decision)
            &&& decision.primary is Some
            &&& e.aggregated == decision
            &&& e.asset == market.asset
            &&& e.toxic_warning == market.worst_warning()
            &&& e.blocked == state.blocks(e.toxic_warning)
        };
    crate::aggregator::law_the_winner_is_executed(
        state.aggregator,
        arb,
        directional,
        maker,
        decision,
    );
    crate::market::law_worst_warning_counts(market);
}

/// The account may take more exactly as long as its exposure is below the limit, and the more it has
/// taken the less it may take.
pub proof fn law_capacity_runs_out(state: StrategyState, less: Decimal, more: Decimal)
    requires
        less@ <= more@,
        state.capacity(less) is Some,
        state.capacity(more) is Some,
    ensures
        state.capacity(more)->0 <= state.capacity(less)->0,
        state.capacity(more)->0 > 0 <==> more@ < state.config.sizing_config.max_total_exposure@,
{
    let limit = state.config.sizing_config.max_total_exposure@;
    lemma_rounded_monotone(limit - more@, 1, limit - less@, 1);
    lemma_sign(limit - more@, 1);
    if limit > more@ {
        lemma_exact(1, 1, 1, 0);
        lemma_rounded_monotone(1, 1, limit - more@, 1);
    }
}

/// A directional trade takes place only with an edge and a budget: nothing that the position manager
/// refuses is traded, the size is at most that of the largest order and what the account may still
/// take, and skips for want of confidence or budget, which recur all the time, are not recorded.
pub proof fn law_directional_outcomes(case: DirectionalCase, confidence: int, r: DirectionalOutcome)
    requires
        case.comes_to(confidence, r),
        case.skip_reason(confidence) is None ==> case.capacity is Some && case.wanted(
            confidence,
        ) is Some,
        case.market.position_manager.config.min_order_size@
            <= case.market.position_manager.config.max_order_size@,
    ensures
        r is Skip <==> case.market.position_manager.skip_reason(
            confidence,
            case.market.state.seconds_remaining,
            case.price,
            case.config.max_edge_factor,
            case.config.window_duration_secs,
        ) is Some,
        r is NoCapacity ==> case.capacity->0 <= 0,
        r is TooSmall ==> case.capacity->0 > 0,
        r is Execute ==> {
            &&& units(1, 0) <= r->size@ <= case.capacity->0
            &&& r->size@ <= case.market.position_manager.config.max_order_size@
            &&& r->Execute_confidence@ == confidence
            &&& r->phase == phase_of(case.market.state.seconds_remaining)
        },
        r is Skip ==> (r->record <==> !(r->reason is LowConfidence) && !(
        r->reason is PhaseBudgetExhausted) && !(r->reason is TotalBudgetExhausted)),
{
}

/// Levels are looked at for the spot price, or else for the strike.
pub proof fn law_levels_are_for_the_spot_price(case: DirectionalCase)
    ensures
        case.market.state.spot_price is Some ==> Some(case.spot()) == case.market.state.spot_price,
        case.market.state.spot_price is None ==> case.spot() == case.market.strike_price,
{
}

/// A spot price above the strike favours YES, any other NO: what counts is the best ask of that book,
/// or one half where there is none.
pub proof fn law_spot_price_favors_a_side(m: TrackedMarket, price: Decimal)
    ensures
        price@ > m.strike_price@ && m.state.yes_book.asks@.len() > 0 ==> StrategyState::favored_at(
            m,
            price,
        ) == m.state.yes_book.asks@[0].price@,
        price@ <= m.strike_price@ && m.state.no_book.asks@.len() > 0 ==> StrategyState::favored_at(
            m,
            price,
        ) == m.state.no_book.asks@[0].price@,
        price@ > m.strike_price@ && m.state.yes_book.asks@.len() == 0 ==> StrategyState::favored_at(
            m,
            price,
        ) == units(5, 1),
        price@ <= m.strike_price@ && m.state.no_book.asks@.len() == 0 ==> StrategyState::favored_at(
            m,
            price,
        ) == units(5, 1),
{
    let p = crate::decimal::pow10(26);
    assert(50 * p == 5 * (10 * p));
}

/// The distance from the strike does not depend on the side of it, and is zero at the strike only.
pub proof fn law_distance_has_no_side(m: TrackedMarket, above: Decimal, below: Decimal)
    requires
        above@ - m.strike_price@ == m.strike_price@ - below@,
    ensures
        StrategyState::distance_at(m, above) == StrategyState::distance_at(m, below),
        representable(above@ - m.strike_price@) && above@ >= m.strike_price@
            ==> StrategyState::distance_at(m, above) == Some(above@ - m.strike_price@),
{
    crate::decimal::lemma_rounded_negated(above@ - m.strike_price@, 1);
    law_arithmetic_is_exact(above@, m.strike_price@);
}

/// A buy adds the shares that a sale of the same size takes away; either costs its price for every
/// share and the fee on top.
pub proof fn law_reported_fills(size: Decimal, avg_price: Decimal, fee: Decimal)
    ensures
        share_change(Side::Buy, size@) == size@,
        share_change(Side::Buy, size@) + share_change(Side::Sell, size@) == 0,
        avg_price@ == units(1, 0) && fee@ == 0 && representable(size@) ==> cost_change(
            avg_price,
            size,
            fee,
        ) == Some(size@),
        size@ == units(1, 0) && representable(avg_price@) && representable(avg_price@ + fee@)
            ==> cost_change(avg_price, size, fee) == Some(avg_price@ + fee@),
{
    law_arithmetic_is_exact(size@, 0);
    law_arithmetic_is_exact(avg_price@, fee@);
    let one = units(1, 0);
    assert(product(Some(one), Some(size@)) == product(Some(size@), Some(one))) by {
        assert(one * size@ == size@ * one) by (nonlinear_arith);
    }
}

/// News of an order is about the market that it names; every order that did not merely fill in part
/// is over.
pub proof fn law_news_of_orders(update: OrderUpdate)
    ensures
        update is Rejected ==> update.market() == update->Rejected_market_id@,
        update is Cancelled ==> update.market() == update->Cancelled_market_id@,
        update is ChaseEnded ==> update.market() == update->ChaseEnded_market_id@,
        update is Fill ==> update.market() == update->Fill_market_id@,
        !update.ends_order() ==> update is Fill && !update->is_complete,
        update is Fill && !update->is_complete ==> !update.ends_order(),
{
}

/// What was filled of the orders of an arbitrage is booked on both sides, each on its own.
pub proof fn law_arbitrage_fills_both_sides(
    before: Inventory,
    yes: FillAmounts,
    no: FillAmounts,
    between: Inventory,
    after: Inventory,
)
    requires
        StrategyState::filled_if(before, Outcome::Yes, yes, between),
        StrategyState::filled_if(between, Outcome::No, no, after),
        yes.size@ > 0,
        no.size@ > 0,
        representable(before.yes_shares@ + yes.size@),
        representable(before.no_shares@ + no.size@),
        representable(before.yes_cost_basis@ + yes.cost@),
        representable(before.no_cost_basis@ + no.cost@),
    ensures
        after.yes_shares@ == before.yes_shares@ + yes.size@,
        after.no_shares@ == before.no_shares@ + no.size@,
        after.yes_cost_basis@ == before.yes_cost_basis@ + yes.cost@,
        after.no_cost_basis@ == before.no_cost_basis@ + no.cost@,
{
    crate::types::law_fill_books_one_side(before, Outcome::Yes, yes.size, yes.cost, between);
    crate::types::law_fill_books_one_side(between, Outcome::No, no.size, no.cost, after);
}

/// A fill of a maker order is booked on the side of its token, and nothing on the other; an order that
/// rests is known by its id with the token, side and price that it was placed for.
pub proof fn law_maker_fills_are_booked_on_their_side(
    before: TrackedMarket,
    opportunity: MakerOpportunity,
    result: MakerResult,
    now_ms: i64,
    after: TrackedMarket,
)
    requires
        StrategyState::maker_booked(before, opportunity, result, now_ms, after),
        before.yes_token_id@ != before.no_token_id@,
    ensures
        opportunity.token_id@ == before.yes_token_id@ ==> after.inventory.no_shares
            == before.inventory.no_shares && after.inventory.no_cost_basis
            == before.inventory.no_cost_basis,
        opportunity.token_id@ == before.no_token_id@ ==> after.inventory.yes_shares
            == before.inventory.yes_shares && after.inventory.yes_cost_basis
            == before.inventory.yes_cost_basis,
        result is Filled && opportunity.token_id@ == before.yes_token_id@ && representable(
            before.inventory.yes_shares@ + result->size@,
        ) ==> after.inventory.yes_shares@ == before.inventory.yes_shares@ + result->size@,
        result is Filled && opportunity.token_id@ == before.no_token_id@ && representable(
            before.inventory.no_shares@ + result->size@,
        ) ==> after.inventory.no_shares@ == before.inventory.no_shares@ + result->size@,
        result is Partial && opportunity.token_id@ == before.yes_token_id@ && representable(
            before.inventory.yes_shares@ + result->filled@,
        ) ==> after.inventory.yes_shares@ == before.inventory.yes_shares@ + result->filled@,
        result is Partial && opportunity.token_id@ == before.no_token_id@ && representable(
            before.inventory.no_shares@ + result->filled@,
        ) ==> after.inventory.no_shares@ == before.inventory.no_shares@ + result->filled@,
        result is Refused ==> after == before,
        result is Pending ==> after.inventory == before.inventory && ({
            let order = after.active_maker_orders@[result->Pending_order_id@];
            &&& after.active_maker_orders@.dom().contains(result->Pending_order_id@)
            &&& order.token_id == opportunity.token_id
            &&& order.side == opportunity.side
            &&& order.price == opportunity.price
            &&& order.original_size@ == opportunity.size@
            &&& order.remaining_size@ == opportunity.size@
            &&& order.filled_size@ == 0
        }),
        result is Partial && representable(result->requested@ - result->filled@)
            && result->requested@ > result->filled@ ==> ({
            let order = after.active_maker_orders@[result->Partial_order_id@];
            &&& after.active_maker_orders@.dom().contains(result->Partial_order_id@)
            &&& order.remaining_size@ == result->requested@ - result->filled@
        }),
        result is Partial && representable(result->requested@ - result->filled@)
            && result->requested@ <= result->filled@ ==> after.active_maker_orders
            == before.active_maker_orders,
        before.outcome_of(before.yes_token_id@) is Yes,
        before.outcome_of(before.no_token_id@) is No,
{
    let outcome = before.outcome_of(opportunity.token_id@);
    match result {
        MakerResult::Filled { size, price, fee } => {
            let cost = choose|cost: Decimal|
                num(cost) == TrackedMarket::fill_cost(size, price, fee)
                    && #[trigger] before.inventory.filled(outcome, size, cost, after.inventory);
            crate::types::law_fill_books_one_side(
                before.inventory,
                outcome,
                size,
                cost,
                after.inventory,
            );
        },
        MakerResult::Partial { order_id, requested, filled, avg_price, fee } => {
            let cost = choose|cost: Decimal|
                num(cost) == TrackedMarket::fill_cost(filled, avg_price, fee)
                    && #[trigger] before.inventory.filled(outcome, filled, cost, after.inventory);
            crate::types::law_fill_books_one_side(
                before.inventory,
                outcome,
                filled,
                cost,
                after.inventory,
            );
            law_arithmetic_is_exact(requested@, filled@);
        },
        _ => {},
    }
}

/// An order that was begun counts at once: its dollars count as spent in total and in the phase of
/// the market, in no other phase, and the next order has to wait.
pub proof fn law_begun_orders_count(
    m: TrackedMarket,
    dollars: Decimal,
    signal: Signal,
    scaled_root: Decimal,
    after: TrackedMarket,
    other: Phase,
)
    requires
        StrategyState::began(m, dollars, signal, scaled_root, after),
        representable(m.position_manager.total_spent@ + dollars@),
        representable(
            m.position_manager.phase_spent.at(phase_of(m.state.seconds_remaining))@ + dollars@,
        ),
    ensures
        after.position_manager.total_spent@ == m.position_manager.total_spent@ + dollars@,
        after.position_manager.phase_spent.at(phase_of(m.state.seconds_remaining))@
            == m.position_manager.phase_spent.at(phase_of(m.state.seconds_remaining))@ + dollars@,
        other != phase_of(m.state.seconds_remaining) ==> after.position_manager.phase_spent.at(
            other,
        ) == m.position_manager.phase_spent.at(other),
        after.inventory == m.inventory,
        after.position_direction == m.position_direction,
        after.last_order_ms is Some,
        units(5, 1) <= after.last_confidence@ <= units(3, 0),
{
    law_arithmetic_is_exact(m.position_manager.total_spent@, dollars@);
    law_arithmetic_is_exact(
        m.position_manager.phase_spent.at(phase_of(m.state.seconds_remaining))@,
        dollars@,
    );
}

/// A fill that was reported is booked on its own side: a buy adds shares there, a sale takes them
/// away, and the other side stays as it is.
pub proof fn law_reported_fills_are_booked_on_their_side(
    before: Inventory,
    outcome: Outcome,
    side: Side,
    size: Decimal,
    avg_price: Decimal,
    fee: Decimal,
    after: Inventory,
)
    requires
        before.updated(outcome, side, size, avg_price, fee, after),
    ensures
        outcome is Yes ==> after.no_shares == before.no_shares && after.no_cost_basis
            == before.no_cost_basis,
        outcome is No ==> after.yes_shares == before.yes_shares && after.yes_cost_basis
            == before.yes_cost_basis,
        outcome is Yes && side is Buy && representable(before.yes_shares@ + size@)
            ==> after.yes_shares@ == before.yes_shares@ + size@,
        outcome is Yes && side is Sell && representable(before.yes_shares@ - size@)
            ==> after.yes_shares@ == before.yes_shares@ - size@,
        outcome is No && side is Buy && representable(before.no_shares@ + size@)
            ==> after.no_shares@ == before.no_shares@ + size@,
        outcome is No && side is Sell && representable(before.no_shares@ - size@)
            ==> after.no_shares@ == before.no_shares@ - size@,
        after.realized_pnl == before.realized_pnl,
{
    law_arithmetic_is_exact(before.yes_shares@, size@);
    law_arithmetic_is_exact(before.no_shares@, size@);
    law_arithmetic_is_exact(before.yes_shares@, -size@);
    law_arithmetic_is_exact(before.no_shares@, -size@);
    assert(before.yes_shares@ + -size@ == before.yes_shares@ - size@);
    assert(before.no_shares@ + -size@ == before.no_shares@ - size@);
}

/// An order that ended without a fill gives back what was reserved for it and changes nothing else; as
/// long as it is pending the budget stays reserved; a fill is booked on the side that was bought.
pub proof fn law_ends_of_directional_orders(
    before: TrackedMarket,
    up: bool,
    fill: FillAmounts,
    still_pending: bool,
    reserved: Decimal,
    multiplier: Decimal,
    after: TrackedMarket,
)
    requires
        StrategyState::directional_ended(
            before,
            up,
            fill,
            still_pending,
            reserved,
            multiplier,
            after,
        ),
    ensures
        fill.size@ <= 0 && still_pending ==> after == before,
        fill.size@ <= 0 ==> after.inventory == before.inventory && after.position_direction
            == before.position_direction,
        fill.size@ <= 0 && !still_pending && reserved@ > 0 && reserved@
            <= before.position_manager.total_spent@ && representable(
            before.position_manager.total_spent@ - reserved@,
        ) ==> after.position_manager.total_spent@ == before.position_manager.total_spent@
            - reserved@,
        fill.size@ > 0 && up ==> after.inventory.no_shares == before.inventory.no_shares,
        fill.size@ > 0 && !up ==> after.inventory.yes_shares == before.inventory.yes_shares,
        fill.size@ > 0 && up && representable(before.inventory.yes_shares@ + fill.size@)
            ==> after.inventory.yes_shares@ == before.inventory.yes_shares@ + fill.size@,
        fill.size@ > 0 && !up && representable(before.inventory.no_shares@ + fill.size@)
            ==> after.inventory.no_shares@ == before.inventory.no_shares@ + fill.size@,
{
    law_arithmetic_is_exact(before.position_manager.total_spent@, reserved@);
    if fill.size@ > 0 {
        crate::types::law_fill_books_one_side(
            before.inventory,
            if up {
                Outcome::Yes
            } else {
                Outcome::No
            },
            fill.size,
            fill.cost,
            after.inventory,
        );
    }
}

/// A hedge buys what the position is not: NO for a position in YES, YES for one in NO.
pub proof fn law_hedge_orders_buy_the_other_side(
    state: StrategyState,
    m: TrackedMarket,
    tier: usize,
    shares: Decimal,
    price: Decimal,
    order: OrderRequest,
)
    requires
        state.hedges_with(m, tier, shares, price, order),
    ensures
        order.side is Buy,
        order.size == shares && order.price == price,
        order.event_id == m.event_id,
        m.position_direction == Some(true) ==> order.outcome is No && order.token_id
            == m.no_token_id,
        m.position_direction == Some(false) ==> order.outcome is Yes && order.token_id
            == m.yes_token_id,
{
    assert(m.position_direction == Some(false) ==> m.position_direction != Some(true));
}

/// A maker order is placed as it was found, for the token and at the price and size of the
/// opportunity; not where such an order rests, and not in a market that is full.
pub proof fn law_maker_orders_are_placed_once(
    state: StrategyState,
    m: TrackedMarket,
    opportunity: MakerOpportunity,
    config: MakerOrderConfig,
    r: MakerStep,
    other: Seq<char>,
)
    requires
        state.plans(m, opportunity, config, r),
        m.yes_token_id@ != m.no_token_id@,
    ensures
        r is Place ==> {
            &&& r->Place_0.token_id == opportunity.token_id
            &&& r->Place_0.side == opportunity.side
            &&& r->Place_0.price == opportunity.price
            &&& r->Place_0.size == opportunity.size
            &&& r->Place_0.event_id == opportunity.event_id
            &&& opportunity.token_id@ == m.yes_token_id@ ==> r->Place_0.outcome is Yes
            &&& opportunity.token_id@ == m.no_token_id@ ==> r->Place_0.outcome is No
            &&& m.active_maker_orders@.dom().len() < config.max_orders_per_market
        },
        m.active_maker_orders@.dom().contains(other) && m.active_maker_orders@[other].token_id@
            == opportunity.token_id@ && m.active_maker_orders@[other].side == opportunity.side
            && m.active_maker_orders@[other].price@ == opportunity.price@ ==> r is AlreadyThere,
        r is Full ==> m.active_maker_orders@.dom().len() >= config.max_orders_per_market,
{
}

/// A resting order stays until it is filled: what was filled and what remains make up its size, and
/// the other orders are left alone.
pub proof fn law_resting_orders_fill_up(
    before: Map<Seq<char>, ActiveMakerOrder>,
    order_id: Seq<char>,
    filled_size: Decimal,
    now_ms: i64,
    after: Map<Seq<char>, ActiveMakerOrder>,
    other: Seq<char>,
)
    requires
        StrategyState::maker_filled(before, order_id, filled_size, now_ms, after),
        before.dom().contains(order_id),
        other != order_id,
        representable(before[order_id].filled_size@ + filled_size@),
        representable(
            before[order_id].original_size@ - before[order_id].filled_size@ - filled_size@,
        ),
    ensures
        ({
            let order = before[order_id];
            let left = order.original_size@ - order.filled_size@ - filled_size@;
            &&& left <= 0 ==> !after.dom().contains(order_id)
            &&& left > 0 ==> {
                &&& after.dom().contains(order_id)
                &&& after[order_id].remaining_size@ == left
                &&& after[order_id].filled_size@ == order.filled_size@ + filled_size@
                &&& after[order_id].price == order.price
                &&& after[order_id].token_id == order.token_id
                &&& after[order_id].side == order.side
            }
        }),
        after.dom().contains(other) == before.dom().contains(other),
        before.dom().contains(other) ==> after[other] == before[other],
{
    let order = before[order_id];
    law_arithmetic_is_exact(order.filled_size@, filled_size@);
    law_arithmetic_is_exact(order.original_size@, order.filled_size@ + filled_size@);
    assert(order.original_size@ - (order.filled_size@ + filled_size@) == order.original_size@
        - order.filled_size@ - filled_size@);
}

/// A cancelled order is gone, and no other; what was filled of it is booked on the side of its token.
pub proof fn law_cancelled_orders_are_gone(
    before: TrackedMarket,
    order_id: Seq<char>,
    filled: Option<Decimal>,
    after: TrackedMarket,
    other: Seq<char>,
)
    requires
        StrategyState::cancelled_in(before, order_id, filled, after),
        before.yes_token_id@ != before.no_token_id@,
        other != order_id,
    ensures
        !after.active_maker_orders@.dom().contains(order_id),
        after.active_maker_orders@.dom().contains(other)
            == before.active_maker_orders@.dom().contains(other),
        filled is None ==> after.inventory == before.inventory,
        !before.active_maker_orders@.dom().contains(order_id) ==> after.inventory
            == before.inventory,
        before.active_maker_orders@.dom().contains(order_id) && filled is Some && filled->0@ > 0
            && before.active_maker_orders@[order_id].token_id@ == before.yes_token_id@ ==> {
            &&& after.inventory.no_shares == before.inventory.no_shares
            &&& representable(before.inventory.yes_shares@ + filled->0@)
                ==> after.inventory.yes_shares@ == before.inventory.yes_shares@ + filled->0@
        },
        before.active_maker_orders@.dom().contains(order_id) && filled is Some && filled->0@ > 0
            && before.active_maker_orders@[order_id].token_id@ == before.no_token_id@ ==> {
            &&& after.inventory.yes_shares == before.inventory.yes_shares
            &&& representable(before.inventory.no_shares@ + filled->0@)
                ==> after.inventory.no_shares@ == before.inventory.no_shares@ + filled->0@
        },
{
    if before.active_maker_orders@.dom().contains(order_id) && filled is Some && filled->0@ > 0 {
        let order = before.active_maker_orders@[order_id];
        let outcome = before.outcome_of(order.token_id@);
        let cost = choose|cost: Decimal|
            num(cost) == product(num(filled->0), num(order.price))
                && #[trigger] before.inventory.filled(outcome, filled->0, cost, after.inventory);
        crate::types::law_fill_books_one_side(
            before.inventory,
            outcome,
            filled->0,
            cost,
            after.inventory,
        );
    }
}

/// Nothing is bought as a pair where shares of either side are held already, or where an order is in
/// flight; a size that is placed is valid, one that is not is not.
pub proof fn law_arbitrage_waits_for_an_empty_market(
    state: StrategyState,
    event_id: Seq<char>,
    opportunity: ArbOpportunity,
    total_exposure: Decimal,
    warning: Option<&ToxicFlowWarning>,
    r: ArbStep,
)
    requires
        state.sizes_arbitrage(event_id, opportunity, total_exposure, warning, r),
        state.arbitrage_fits(event_id, opportunity, total_exposure, warning),
        state.markets@[event_id].inventory.yes_cost_basis@ >= 0,
        state.markets@[event_id].inventory.no_cost_basis@ >= 0,
    ensures
        r is Place ==> {
            &&& state.markets@[event_id].inventory.yes_cost_basis@ == 0
            &&& state.markets@[event_id].inventory.no_cost_basis@ == 0
            &&& !state.in_flight(event_id, PendingOrderType::Arbitrage)
            &&& r->Place_0.is_valid
        },
        r is TooSmall ==> !r->TooSmall_0.is_valid,
        r is InFlight ==> state.in_flight(event_id, PendingOrderType::Arbitrage),
        r is Positioned ==> state.markets@[event_id].inventory.yes_cost_basis@ > 0
            || state.markets@[event_id].inventory.no_cost_basis@ > 0,
{
    let inventory = state.markets@[event_id].inventory;
    let both = inventory.yes_cost_basis@ + inventory.no_cost_basis@;
    lemma_sign(both, 1);
    if both > 0 {
        lemma_exact(1, 1, 1, 0);
        lemma_rounded_monotone(1, 1, both, 1);
    }
}

/// A directional trade begins only where no order is in flight and the last one is long enough ago;
/// the distance that it goes by is the opportunity's share of the strike.
pub proof fn law_directional_trades_wait(
    state: StrategyState,
    event_id: Seq<char>,
    m: TrackedMarket,
    opportunity: DirectionalOpportunity,
    r: DirectionalStart,
)
    requires
        state.starts(event_id, m, opportunity, r),
    ensures
        r is Ready ==> !state.in_flight(event_id, PendingOrderType::Directional)
            && !m.cooling_down(),
        state.in_flight(event_id, PendingOrderType::Directional) ==> r is InFlight,
        r is Ready && m.strike_price@ == units(1, 0) && representable(opportunity.distance@)
            ==> r->distance_dollars@ == opportunity.distance@,
        r is Ready && opportunity.distance@ == units(1, 0) && representable(m.strike_price@)
            ==> r->distance_dollars@ == m.strike_price@,
{
    law_arithmetic_is_exact(opportunity.distance@, m.strike_price@);
    law_arithmetic_is_exact(m.strike_price@, opportunity.distance@);
}

/// A directional trade is decided on its own market, at the price it is weighed at, and within what
/// the account may still take; the snapshot of it goes by the same terms, at a distance without sign.
pub proof fn law_trades_are_decided_on_their_market(
    state: StrategyState,
    event_id: Seq<char>,
    opportunity: DirectionalOpportunity,
    price: Decimal,
    distance_dollars: Decimal,
    root: Decimal,
    total_exposure: Decimal,
    confidence: Decimal,
)
    ensures
        ({
            let case = state.directional_case(
                event_id,
                opportunity,
                price,
                distance_dollars,
                root,
                total_exposure,
            );
            let terms = case.snapshot_terms(confidence);
            let m = state.markets@[event_id];
            &&& case.market == m
            &&& case.price == price
            &&& case.opportunity == opportunity
            &&& case.config == state.config
            &&& case.distance_dollars == distance_dollars
            &&& case.capacity == difference(
                num(state.config.sizing_config.max_total_exposure),
                num(total_exposure),
            )
            &&& terms.price == price
            &&& terms.confidence == confidence
            &&& terms.seconds == m.state.seconds_remaining
            &&& terms.edge_seconds == m.state.seconds_remaining
            &&& terms.window == state.config.window_duration_secs
            &&& terms.atr == m.position_manager.config.atr
            &&& terms.distance == distance_dollars@ || terms.distance == -distance_dollars@
            &&& terms.distance >= 0
            &&& terms.max_edge_factor == state.config.max_edge_factor
        }),
{
}

/// A snapshot at a spot price goes by the market as it is, and asks for no negative edge once the
/// window is over.
pub proof fn law_terms_at_a_spot_price(
    state: StrategyState,
    m: TrackedMarket,
    distance: Decimal,
    confidence: Decimal,
    favored: Decimal,
)
    ensures
        ({
            let terms = state.spot_terms(m, distance, confidence, favored);
            &&& terms.price == favored
            &&& terms.confidence == confidence
            &&& terms.distance == distance@
            &&& terms.seconds == m.state.seconds_remaining
            &&& terms.edge_seconds >= 0
            &&& m.state.seconds_remaining >= 0 ==> terms.edge_seconds == m.state.seconds_remaining
            &&& terms.atr == m.position_manager.config.atr
            &&& terms.window == state.config.window_duration_secs
        }),
{
}

/// A market is traded only while it is tracked, before its window ends, and with a strike; it is live
/// under the same terms but for the strike.
pub proof fn law_what_is_traded(state: StrategyState, event_id: Seq<char>, now_ms: i64)
    ensures
        state.tradable(event_id, now_ms) ==> state.markets@.dom().contains(event_id)
            && state.markets@[event_id].window_end_ms > now_ms
            && state.markets@[event_id].strike_price@ != 0,
        state.markets@.dom().contains(event_id) && state.markets@[event_id].window_end_ms > now_ms
            && state.markets@[event_id].strike_price@ != 0 ==> state.tradable(event_id, now_ms),
        state.is_live(event_id, now_ms) <==> state.markets@.dom().contains(event_id)
            && state.markets@[event_id].window_end_ms > now_ms,
        state.has_strike(event_id) ==> state.markets@[event_id].strike_price@ != 0
            && state.markets@.dom().contains(event_id),
{
}

/// Dollars are a hundred cents each.
pub proof fn law_cents_of_dollars(cents: int)
    requires
        0 <= cents < 1_000_000_000,
    ensures
        cents_of(Some(units(cents, 2))) == cents,
{
    let c = crate::decimal::pow10(26);
    let p = crate::decimal::pow10(28);
    let v = units(cents, 0);
    assert(v == cents * p);
    assert(representable(v));
    assert(units(cents, 2) * units(100, 0) == p * v) by (nonlinear_arith)
        requires
            units(cents, 2) == cents * c,
            units(100, 0) == 100 * p,
            p == 100 * c,
            v == cents * p,
    ;
    crate::decimal::lemma_exact_value(units(cents, 2) * units(100, 0), p, v);
    assert(0 <= v < units(1_000_000_000, 0)) by (nonlinear_arith)
        requires
            v == cents * p,
            units(1_000_000_000, 0) == 1_000_000_000 * p,
            0 <= cents < 1_000_000_000,
            p > 0,
    ;
    crate::decimal::law_whole_parts(v);
    assert(v / p == cents) by (nonlinear_arith)
        requires
            v == cents * p,
            p > 0,
    ;
}

/// Taking over a range changes the range and nothing else.
pub proof fn law_ranges_are_taken_over(m: TrackedMarket, atr: Decimal)
    ensures
        StrategyState::with_range(m, atr).position_manager.config.atr == atr,
        StrategyState::with_range(m, atr).inventory == m.inventory,
        StrategyState::with_range(m, atr).state == m.state,
        StrategyState::with_range(m, atr).position_manager.total_spent
            == m.position_manager.total_spent,
        StrategyState::with_range(m, m.position_manager.config.atr) == m,
{
}

} // verus!
