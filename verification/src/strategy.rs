//! State of the strategy and how events change it.
//!
//! Events come in one by one: prices, books, fills, windows that open and close. Each changes the
//! state here; what it means for trading is decided in `steps`.

use vstd::prelude::*;
use vstd::string::*;
use crate::aggregator::{AggregatedDecision, DecisionAggregator};
use crate::arb::{ArbDetector, ArbOpportunity};
use crate::atr::{AssetTracker, AtrTracker};
use crate::config::EnginesConfig;
use crate::decimal::{Decimal, lit, num, quotient, units};
use crate::directional::{DirectionalConfig, DirectionalDetector};
use crate::maker::MakerDetector;
use crate::market::{Settlement, TrackedMarket, WindowOpenEvent};
use crate::pivots::PivotTracker;
use crate::position::lemma_ratio_fits;
use crate::price_buffer::{PriceBuffer, price_near};
use crate::regime::RegimeDetector;
use crate::sizing::{PositionSizer, SizingResult};
use crate::strategy_config::StrategyConfig;
use crate::table::{Table, ValueTest, lists};
use crate::toxic::{ObservedOrder, ToxicFlowDetector, ToxicFlowWarning};
use crate::types::{
    ByAsset, CryptoAsset, EngineType, MarketState, OrderBook, Outcome, PriceLevel, Side, costs,
    first_size, multiplied,
};

verus! {

/// What can go wrong in the strategy.
#[derive(Clone, Debug)]
pub enum StrategyError {
    /// The source of events failed.
    DataSource(String),
    /// The executor of orders failed.
    Executor(String),
    /// The strategy was asked to stop.
    Shutdown,
    /// Anything else.
    Internal(String),
}

impl StrategyError {
    /// The error in words.
    pub open spec fn spec_text(self) -> Seq<char> {
        match self {
            StrategyError::DataSource(text) => "Data source error: "@ + text@,
            StrategyError::Executor(text) => "Executor error: "@ + text@,
            StrategyError::Shutdown => "Shutdown requested"@,
            StrategyError::Internal(text) => "Internal error: "@ + text@,
        }
    }

    /// The error in words.
    pub fn to_string(&self) -> (r: String)
        ensures
            r@ == self.spec_text(),
    {
        match self {
            StrategyError::DataSource(text) => "Data source error: ".to_owned().concat(text.as_str()),
            StrategyError::Executor(text) => "Executor error: ".to_owned().concat(text.as_str()),
            StrategyError::Shutdown => "Shutdown requested".to_owned(),
            StrategyError::Internal(text) => "Internal error: ".to_owned().concat(text.as_str()),
        }
    }
}

/// What was done about an opportunity.
#[derive(Clone, Copy, Debug, PartialEq, Eq, Structural)]
pub enum TradeAction {
    /// Orders were placed.
    Execute,
    /// Skipped for its size.
    SkipSizing,
    /// Skipped for toxic flow.
    SkipToxic,
    /// Skipped because trading is off.
    SkipDisabled,
    /// Skipped because of too many failures.
    SkipCircuitBreaker,
}

/// A decision on an arbitrage.
#[derive(Debug)]
pub struct TradeDecision {
    pub decision_id: u64,
    pub event_id: String,
    pub asset: CryptoAsset,
    pub opportunity: ArbOpportunity,
    pub sizing: SizingResult,
    pub toxic_warning: Option<ToxicFlowWarning>,
    pub action: TradeAction,
    /// Time of the decision in milliseconds since 1970.
    pub timestamp_ms: i64,
    /// Microseconds from event to decision.
    pub latency_us: u64,
}

/// A decision of any engine.
#[derive(Debug)]
pub struct MultiEngineDecision {
    pub decision_id: u64,
    pub event_id: String,
    pub asset: CryptoAsset,
    pub engine: EngineType,
    pub aggregated: AggregatedDecision,
    pub sizing: Option<SizingResult>,
    pub toxic_warning: Option<ToxicFlowWarning>,
    pub action: TradeAction,
    /// Time of the decision in milliseconds since 1970.
    pub timestamp_ms: i64,
    /// Microseconds from event to decision.
    pub latency_us: u64,
}

/// Kinds of orders that may be in flight.
#[derive(Clone, Copy, Debug, PartialEq, Eq, Structural)]
pub enum PendingOrderType {
    Arbitrage,
    Directional,
}

/// Orders of a market that are in flight.
#[derive(Clone, Copy, Debug)]
pub struct PendingFlags {
    pub arbitrage: bool,
    pub directional: bool,
}

impl PendingFlags {
    /// Whether an order of the kind is in flight.
    pub open spec fn at(self, kind: PendingOrderType) -> bool {
        match kind {
            PendingOrderType::Arbitrage => self.arbitrage,
            PendingOrderType::Directional => self.directional,
        }
    }

    /// The flags with that of a kind set.
    pub open spec fn with(self, kind: PendingOrderType, value: bool) -> PendingFlags {
        match kind {
            PendingOrderType::Arbitrage => PendingFlags { arbitrage: value, ..self },
            PendingOrderType::Directional => PendingFlags { directional: value, ..self },
        }
    }

    /// Whether an order of the kind is in flight.
    pub fn get(&self, kind: PendingOrderType) -> (r: bool)
        ensures
            r == self.at(kind),
    {
        match kind {
            PendingOrderType::Arbitrage => self.arbitrage,
            PendingOrderType::Directional => self.directional,
        }
    }

    /// The flags with that of a kind set.
    pub fn set(self, kind: PendingOrderType, value: bool) -> (r: PendingFlags)
        ensures
            r == self.with(kind, value),
    {
        match kind {
            PendingOrderType::Arbitrage => PendingFlags { arbitrage: value, ..self },
            PendingOrderType::Directional => PendingFlags { directional: value, ..self },
        }
    }
}

/// Best prices of a token.
#[derive(Debug)]
pub struct LiveOrderBook {
    pub token_id: String,
    pub best_bid: Decimal,
    pub best_bid_size: Decimal,
    pub best_ask: Decimal,
    pub best_ask_size: Decimal,
    pub last_update_ms: i64,
}

/// A decimal, or zero.
pub open spec fn or_zero(d: Option<Decimal>) -> int {
    match d {
        Some(d) => d@,
        None => 0,
    }
}

impl LiveOrderBook {
    /// Whether these are the best prices of the book.
    pub open spec fn shows(self, token_id: Seq<char>, book: OrderBook) -> bool {
        &&& self.token_id@ == token_id
        &&& self.best_bid@ == or_zero(book.bid())
        &&& self.best_bid_size@ == or_zero(first_size(book.bids@))
        &&& self.best_ask@ == or_zero(book.ask())
        &&& self.best_ask_size@ == or_zero(first_size(book.asks@))
        &&& self.last_update_ms == book.last_update_ms
    }

    /// The best prices of a book; zero where there are none.
    pub fn of(token_id: &str, book: &OrderBook) -> (r: LiveOrderBook)
        ensures
            r.shows(token_id@, *book),
    {
        LiveOrderBook {
            token_id: token_id.to_owned(),
            best_bid: book.best_bid().unwrap_or(Decimal::zero()),
            best_bid_size: book.best_bid_size().unwrap_or(Decimal::zero()),
            best_ask: book.best_ask().unwrap_or(Decimal::zero()),
            best_ask_size: book.best_ask_size().unwrap_or(Decimal::zero()),
            last_update_ms: book.last_update_ms,
        }
    }
}

/// A change that concerns many markets.
#[derive(Clone, Copy, Debug)]
pub enum MarketChange {
    /// A spot price of an asset.
    Spot(CryptoAsset, Decimal),
    /// A Chainlink price of an asset.
    Chainlink(CryptoAsset, Decimal),
    /// The time, in milliseconds since 1970.
    Time(i64),
}

/// A market after a change.
pub open spec fn changed(m: TrackedMarket, change: MarketChange) -> TrackedMarket {
    match change {
        MarketChange::Spot(asset, price) => if m.asset == asset {
            TrackedMarket { state: MarketState { spot_price: Some(price), ..m.state }, ..m }
        } else {
            m
        },
        MarketChange::Chainlink(asset, price) => if m.asset == asset {
            TrackedMarket { state: MarketState { chainlink_price: Some(price), ..m.state }, ..m }
        } else {
            m
        },
        MarketChange::Time(now_ms) => TrackedMarket {
            state: MarketState { seconds_remaining: m.seconds_left(now_ms) as i64, ..m.state },
            ..m
        },
    }
}

fn change_market(market: &mut TrackedMarket, change: MarketChange)
    ensures
        *final(market) == changed(*old(market), change),
{
    match change {
        MarketChange::Spot(asset, price) => {
            if market.asset == asset {
                market.state.spot_price = Some(price);
            }
        },
        MarketChange::Chainlink(asset, price) => {
            if market.asset == asset {
                market.state.chainlink_price = Some(price);
            }
        },
        MarketChange::Time(now_ms) => {
            market.update_time(now_ms);
        },
    }
}

/// Whether every market of a table has changed, and nothing else.
pub open spec fn all_changed(
    before: Map<Seq<char>, TrackedMarket>,
    after: Map<Seq<char>, TrackedMarket>,
    change: MarketChange,
) -> bool {
    &&& after.dom() == before.dom()
    &&& forall|k: Seq<char>| #[trigger]
        before.dom().contains(k) ==> after[k] == changed(before[k], change)
}

/// Changes every market of a table.
fn change_all(markets: &mut Table<TrackedMarket>, change: MarketChange)
    ensures
        all_changed(old(markets)@, final(markets)@, change),
{
    let keys = markets.keys();
    let ghost before = markets@;
    let mut i: usize = 0;
    while i < keys.len()
        invariant
            i <= keys@.len(),
            before == old(markets)@,
            markets@.dom() == before.dom(),
            forall|j: int| 0 <= j < keys@.len() ==> before.dom().contains((#[trigger] keys@[j])@),
            forall|a: int, b: int|
                0 <= a < b < keys@.len() ==> (#[trigger] keys@[a])@ != (#[trigger] keys@[b])@,
            forall|j: int|
                0 <= j < i ==> markets@[(#[trigger] keys@[j])@] == changed(
                    before[keys@[j]@],
                    change,
                ),
            forall|j: int|
                i <= j < keys@.len() ==> markets@[(#[trigger] keys@[j])@] == before[keys@[j]@],
        decreases keys@.len() - i,
    {
        let ghost now = markets@;
        assert(before.dom().contains(keys@[i as int]@));
        if let Some(mut market) = markets.remove(keys[i].as_str()) {
            change_market(&mut market, change);
            markets.insert(keys[i].clone(), market);
        }
        proof {
            assert(markets@.dom() =~= before.dom());
            assert forall|j: int| 0 <= j < i + 1 implies markets@[(#[trigger] keys@[j])@] == changed(
                before[keys@[j]@],
                change,
            ) by {
                if j < i {
                    assert(keys@[j]@ != keys@[i as int]@);
                    assert(now[keys@[j]@] == changed(before[keys@[j]@], change));
                }
            }
            assert forall|j: int| i + 1 <= j < keys@.len() implies markets@[(#[trigger] keys@[j])@]
                == before[keys@[j]@] by {
                assert(keys@[i as int]@ != keys@[j]@);
            }
        }
        i = i + 1;
    }
    proof {
        assert forall|k: Seq<char>| #[trigger] before.dom().contains(k) implies markets@[k]
            == changed(before[k], change) by {
            let j = choose|j: int| 0 <= j < keys@.len() && (#[trigger] keys@[j])@ == k;
            assert(markets@[keys@[j]@] == changed(before[keys@[j]@], change));
        }
    }
}

/// Where the strike of a new window comes from.
#[derive(Clone, Copy, Debug)]
pub enum StrikeChoice {
    /// This is the strike.
    Use(Decimal),
    /// Look on the page of the event.
    AskPage,
    /// There is none: the window is not traded.
    Reject,
}

/// What a fill comes to.
#[derive(Clone, Debug)]
pub struct FillReport {
    pub asset: CryptoAsset,
    /// Size times price plus fee.
    pub cost: Decimal,
    pub strike_price: Decimal,
    /// Spot price, or zero.
    pub spot_price: Decimal,
    /// One less both best asks, or zero.
    pub arb_margin: Decimal,
}

/// The second in which a time in milliseconds lies.
pub open spec fn seconds_at(at_ms: i64) -> i64 {
    (at_ms as int / 1000) as i64
}

fn whole_seconds(at_ms: i64) -> (r: i64)
    ensures
        r == seconds_at(at_ms),
{
    if at_ms >= 0 {
        at_ms / 1000
    } else {
        -((-(at_ms + 1)) / 1000) - 1
    }
}

/// Counts failures and stops trading after too many of them in a row.
#[derive(Clone, Copy, Debug)]
pub struct TradingGate {
    pub enabled: bool,
    pub tripped: bool,
    pub failures: u32,
}

impl TradingGate {
    /// A gate that is closed until trading is enabled.
    pub fn new() -> (r: TradingGate)
        ensures
            r == (TradingGate { enabled: false, tripped: false, failures: 0 }),
    {
        TradingGate { enabled: false, tripped: false, failures: 0 }
    }

    /// Enables trading.
    pub fn enable_trading(&mut self)
        ensures
            *final(self) == (TradingGate { enabled: true, ..*old(self) }),
    {
        self.enabled = true;
    }

    /// Whether trading is enabled and was not stopped.
    pub open spec fn is_open(self) -> bool {
        self.enabled && !self.tripped
    }

    /// Whether trading is enabled and was not stopped.
    pub fn can_trade(&self) -> (r: bool)
        ensures
            r == self.is_open(),
    {
        self.enabled && !self.tripped
    }

    /// Counts a failure, and says whether there are now `max_failures` in a row.
    pub fn record_failure(&mut self, max_failures: u32) -> (r: bool)
        ensures
            final(self).failures == if old(self).failures < u32::MAX {
                old(self).failures + 1
            } else {
                u32::MAX as int
            },
            final(self).enabled == old(self).enabled,
            final(self).tripped == old(self).tripped,
            r == (final(self).failures >= max_failures),
    {
        if self.failures < u32::MAX {
            self.failures = self.failures + 1;
        }
        self.failures >= max_failures
    }

    /// Ends a row of failures.
    pub fn record_success(&mut self)
        ensures
            *final(self) == (TradingGate { failures: 0, ..*old(self) }),
    {
        self.failures = 0;
    }

    /// Stops trading.
    pub fn trip_circuit_breaker(&mut self)
        ensures
            *final(self) == (TradingGate { tripped: true, ..*old(self) }),
    {
        self.tripped = true;
    }

    /// State of trading once an order has failed.
    pub open spec fn after_failure(self, system_error: bool, max_failures: u32) -> TradingGate {
        if system_error {
            let failures = if self.failures < u32::MAX {
                (self.failures + 1) as u32
            } else {
                u32::MAX
            };
            TradingGate {
                failures,
                tripped: self.tripped || failures >= max_failures,
                ..self
            }
        } else {
            self
        }
    }

    /// Counts the failure of an order: only failures of the system count, and too many of them in
    /// a row stop trading.
    pub fn order_failed(&mut self, system_error: bool, max_failures: u32)
        ensures
            *final(self) == old(self).after_failure(system_error, max_failures),
    {
        if system_error && self.record_failure(max_failures) {
            self.trip_circuit_breaker();
        }
    }
}

/// Test for markets of an asset.
struct AssetTest {
    asset: CryptoAsset,
}

impl ValueTest<TrackedMarket> for AssetTest {
    closed spec fn fits(&self, m: TrackedMarket) -> bool {
        true
    }

    closed spec fn passes(&self, m: TrackedMarket) -> bool {
        m.asset == self.asset
    }

    fn check(&self, m: &TrackedMarket) -> (r: bool) {
        m.asset == self.asset
    }
}

/// Test for markets whose window has ended.
struct ExpiredTest {
    now_ms: i64,
}

impl ValueTest<TrackedMarket> for ExpiredTest {
    closed spec fn fits(&self, m: TrackedMarket) -> bool {
        true
    }

    closed spec fn passes(&self, m: TrackedMarket) -> bool {
        self.now_ms >= m.window_end_ms
    }

    fn check(&self, m: &TrackedMarket) -> (r: bool) {
        m.is_expired(self.now_ms)
    }
}

/// State of the strategy.
#[derive(Debug)]
pub struct StrategyState {
    pub config: StrategyConfig,
    pub engines_config: EnginesConfig,
    pub arb_detector: ArbDetector,
    pub directional_detector: DirectionalDetector,
    pub maker_detector: MakerDetector,
    pub aggregator: DecisionAggregator,
    pub toxic_detector: ToxicFlowDetector,
    pub sizer: PositionSizer,
    /// Markets by event.
    pub markets: Table<TrackedMarket>,
    /// Events by token.
    pub token_to_event: Table<String>,
    pub spot_prices: ByAsset<Option<Decimal>>,
    pub chainlink_prices: ByAsset<Option<Decimal>>,
    /// Times of the latest Chainlink prices in milliseconds.
    pub chainlink_last_update: ByAsset<Option<i64>>,
    pub chainlink_buffer: PriceBuffer,
    pub binance_buffer: PriceBuffer,
    pub decision_counter: u64,
    pub atr_tracker: AtrTracker,
    pub regime_detector: RegimeDetector,
    pub pivot_tracker: PivotTracker,
    /// Time of the latest event in milliseconds since 1970.
    pub simulated_time_ms: i64,
    /// Orders in flight by event.
    pub pending: Table<PendingFlags>,
    /// Best prices by token.
    pub order_books: Table<LiveOrderBook>,
    pub first_event_ms: Option<i64>,
    pub last_event_ms: Option<i64>,
}

impl StrategyState {
    /// Whether every market is filed under its own event.
    pub open spec fn keyed(self) -> bool {
        forall|k: Seq<char>| #[trigger]
            self.markets@.dom().contains(k) ==> self.markets@[k].event_id@ == k
    }

    /// Whether nothing was received yet.
    pub open spec fn is_fresh(self, config: StrategyConfig, engines: EnginesConfig, now_ms: i64) -> bool {
        &&& self.config == config
        &&& self.engines_config == engines
        &&& self.arb_detector == (ArbDetector {
            thresholds: config.arb_thresholds,
            min_confidence: 50,
        })
        &&& self.directional_detector.config.min_seconds_remaining
            == engines.directional.min_seconds_remaining
        &&& self.directional_detector.config.max_combined_cost
            == engines.directional.max_combined_cost
        &&& Some(self.directional_detector.config.max_spread_ratio@) == quotient(
            lit(engines.directional.max_spread_bps as int, 0),
            lit(10000, 0),
        )
        &&& self.directional_detector.config.min_favorable_depth
            == engines.directional.min_favorable_depth
        &&& self.maker_detector.config.min_seconds_remaining == 120
        &&& self.maker_detector.config.min_spread_bps == 50
        &&& self.maker_detector.config.max_spread_bps == 1000
        &&& self.maker_detector.config.default_order_size@ == units(50, 0)
        &&& self.maker_detector.config.max_imbalance_ratio@ == units(80, 2)
        &&& self.maker_detector.config.estimated_pool_share@ == units(1, 3)
        &&& self.aggregator.priority@ == engines.priority@
        &&& self.aggregator.allow_concurrent_maker
        &&& self.toxic_detector.config == config.toxic_config
        &&& self.toxic_detector.token_states@.dom() == Set::<Seq<char>>::empty()
        &&& self.sizer.config == config.sizing_config
        &&& self.markets@ == Map::<Seq<char>, TrackedMarket>::empty()
        &&& self.token_to_event@ == Map::<Seq<char>, String>::empty()
        &&& self.pending@ == Map::<Seq<char>, PendingFlags>::empty()
        &&& self.order_books@ == Map::<Seq<char>, LiveOrderBook>::empty()
        &&& forall|asset: CryptoAsset|
            {
                &&& (#[trigger] self.spot_prices.at(asset)) is None
                &&& self.chainlink_prices.at(asset) is None
                &&& self.chainlink_last_update.at(asset) is None
                &&& self.chainlink_buffer.entries.at(asset)@.len() == 0
                &&& self.binance_buffer.entries.at(asset)@.len() == 0
            }
        &&& self.decision_counter == 0
        &&& self.atr_tracker.is_fresh(60000, 5)
        &&& self.regime_detector.is_fresh(14400000, 20, 60000, now_ms)
        &&& self.pivot_tracker.is_empty()
        &&& self.simulated_time_ms == now_ms
        &&& self.first_event_ms is None
        &&& self.last_event_ms is None
    }

    /// A state in which nothing was received yet.
    pub fn new(config: StrategyConfig, engines_config: EnginesConfig, now_ms: i64) -> (r:
        StrategyState)
        ensures
            r.is_fresh(config, engines_config, now_ms),
            r.keyed(),
    {
        proof {
            lemma_ratio_fits(engines_config.directional.max_spread_bps as int, 10000);
        }
        let directional_config = DirectionalConfig {
            min_seconds_remaining: engines_config.directional.min_seconds_remaining as i64,
            max_combined_cost: engines_config.directional.max_combined_cost,
            max_spread_ratio: Decimal::from_i64(engines_config.directional.max_spread_bps as i64).over(
                Decimal::new(10000, 0),
            ),
            min_favorable_depth: engines_config.directional.min_favorable_depth,
        };
        let aggregator = DecisionAggregator::new(&engines_config);
        StrategyState {
            config,
            engines_config,
            arb_detector: ArbDetector::new(config.arb_thresholds),
            directional_detector: DirectionalDetector::with_config(directional_config),
            maker_detector: MakerDetector::new(),
            aggregator,
            toxic_detector: ToxicFlowDetector::new(config.toxic_config),
            sizer: PositionSizer::new(config.sizing_config),
            markets: Table::new(),
            token_to_event: Table::new(),
            spot_prices: ByAsset { btc: None, eth: None, sol: None, xrp: None },
            chainlink_prices: ByAsset { btc: None, eth: None, sol: None, xrp: None },
            chainlink_last_update: ByAsset { btc: None, eth: None, sol: None, xrp: None },
            chainlink_buffer: PriceBuffer::new(),
            binance_buffer: PriceBuffer::new(),
            decision_counter: 0,
            atr_tracker: AtrTracker::default(),
            regime_detector: RegimeDetector::new(now_ms),
            pivot_tracker: PivotTracker::default(),
            simulated_time_ms: now_ms,
            pending: Table::new(),
            order_books: Table::new(),
            first_event_ms: None,
            last_event_ms: None,
        }
    }

    /// Whether an engine runs.
    pub fn is_engine_enabled(&self, engine: EngineType) -> (r: bool)
        ensures
            r == self.engines_config.enables(engine),
    {
        self.engines_config.is_engine_enabled(engine)
    }

    /// The settings of the engines.
    pub fn engines_config(&self) -> (r: &EnginesConfig)
        ensures
            *r == self.engines_config,
    {
        &self.engines_config
    }

    /// Number of markets.
    pub fn market_count(&self) -> (r: usize)
        ensures
            r == self.markets@.dom().len(),
    {
        self.markets.len()
    }

    /// Number of resting orders in a market; zero for a market that is not tracked.
    pub fn active_maker_order_count(&self, event_id: &str) -> (r: usize)
        ensures
            r == if self.markets@.dom().contains(event_id@) {
                self.markets@[event_id@].active_maker_orders@.dom().len() as int
            } else {
                0
            },
    {
        match self.markets.get(event_id) {
            Some(market) => market.active_maker_orders.len(),
            None => 0,
        }
    }

    /// Times of the first and the last event.
    pub fn event_time_range(&self) -> (r: (Option<i64>, Option<i64>))
        ensures
            r == (self.first_event_ms, self.last_event_ms),
    {
        (self.first_event_ms, self.last_event_ms)
    }

    /// Fills the average true range of an asset from past prices, the oldest first.
    pub fn warmup_atr(&mut self, asset: CryptoAsset, prices: &[Decimal], now_ms: i64)
        requires
            prices@.len() > 0 ==> old(self).atr_tracker.warmup_fits(asset, prices@),
        ensures
            *final(self) == (StrategyState { atr_tracker: final(self).atr_tracker, ..*old(self) }),
            prices@.len() == 0 ==> final(self).atr_tracker == old(self).atr_tracker,
            prices@.len() > 0 ==> old(self).atr_tracker.warmed_to(
                asset,
                prices@,
                now_ms,
                final(self).atr_tracker,
            ),
    {
        self.atr_tracker.warmup(asset, prices, now_ms);
    }

    /// Whether every asset has a completed window of prices.
    pub fn is_atr_warmed_up(&self) -> (r: bool)
        ensures
            r == (forall|asset: CryptoAsset|
                (#[trigger] self.atr_tracker.trackers.at(asset)).ranges@.len() > 0),
    {
        self.atr_tracker.is_warmed_up_all()
    }

    /// Takes note of the time of an event.
    pub fn observe_time(&mut self, at_ms: i64)
        ensures
            *final(self) == (StrategyState {
                simulated_time_ms: at_ms,
                first_event_ms: match old(self).first_event_ms {
                    Some(first) => Some(first),
                    None => Some(at_ms),
                },
                last_event_ms: Some(at_ms),
                ..*old(self)
            }),
    {
        self.simulated_time_ms = at_ms;
        if self.first_event_ms.is_none() {
            self.first_event_ms = Some(at_ms);
        }
        self.last_event_ms = Some(at_ms);
    }

    // ------------------------------------------------------------------------
    // Prices
    // ------------------------------------------------------------------------

    /// Takes in a spot price: it is cached, joins the recent prices and the current window, and
    /// becomes the spot price of the asset's markets.
    pub fn record_spot_price(&mut self, asset: CryptoAsset, price: Decimal, at_ms: i64)
        requires
            ({
                let tracker = old(self).atr_tracker.trackers.at(asset);
                tracker.completes(at_ms) && tracker.has_range(price) ==> tracker.range_with(
                    price,
                ) is Some
            }),
        ensures
            *final(self) == (StrategyState {
                spot_prices: old(self).spot_prices.with(asset, Some(price)),
                binance_buffer: final(self).binance_buffer,
                atr_tracker: final(self).atr_tracker,
                markets: final(self).markets,
                ..*old(self)
            }),
            old(self).binance_buffer.recorded(asset, at_ms, price, final(self).binance_buffer),
            final(self).atr_tracker.trackers == old(self).atr_tracker.trackers.with(
                asset,
                final(self).atr_tracker.trackers.at(asset),
            ),
            old(self).atr_tracker.trackers.at(asset).recorded(
                price,
                at_ms,
                final(self).atr_tracker.trackers.at(asset),
            ),
            all_changed(
                old(self).markets@,
                final(self).markets@,
                MarketChange::Spot(asset, price),
            ),
    {
        self.spot_prices.set(asset, Some(price));
        self.binance_buffer.record(asset, at_ms, price);
        self.atr_tracker.record_price(asset, price, at_ms);
        change_all(&mut self.markets, MarketChange::Spot(asset, price));
    }

    /// The levels with an average true range set.
    pub open spec fn pivots_with(self, asset: CryptoAsset, atr: Decimal) -> PivotTracker {
        PivotTracker { atr: self.pivot_tracker.atr.with(asset, Some(atr)), ..self.pivot_tracker }
    }

    /// Whether an average true range can be taken over within range.
    pub open spec fn volatility_fits(
        self,
        asset: CryptoAsset,
        price: Decimal,
        at_secs: i64,
        now_ms: i64,
        atr: Decimal,
    ) -> bool {
        let pivots = self.pivots_with(asset, atr);
        &&& pivots.renews(asset, price, at_secs) ==> PivotTracker::levels_fit(
            pivots.bars_after(asset, price, at_secs),
            pivots.atr_of(asset),
        )
        &&& self.regime_detector.update_fits(asset, atr, now_ms)
    }

    /// Whether levels and regime of `after` have taken over an average true range, and the price.
    pub open spec fn takes_over(
        self,
        asset: CryptoAsset,
        price: Decimal,
        at_secs: i64,
        now_ms: i64,
        atr: Decimal,
        after: StrategyState,
    ) -> bool {
        &&& self.pivots_with(asset, atr).recorded(asset, price, at_secs, after.pivot_tracker)
        &&& self.regime_detector.updated(asset, atr, now_ms, after.regime_detector)
    }

    /// Takes the average true range of an asset over to levels and regime, and the price to the
    /// bars; `at_secs` is the time of the price in seconds, `now_ms` the current time.
    pub fn refresh_volatility(
        &mut self,
        asset: CryptoAsset,
        price: Decimal,
        at_secs: i64,
        now_ms: i64,
        atr: Decimal,
    )
        requires
            old(self).volatility_fits(asset, price, at_secs, now_ms, atr),
        ensures
            *final(self) == (StrategyState {
                pivot_tracker: final(self).pivot_tracker,
                regime_detector: final(self).regime_detector,
                ..*old(self)
            }),
            old(self).takes_over(asset, price, at_secs, now_ms, atr, *final(self)),
    {
        self.pivot_tracker.set_atr(asset, atr);
        self.pivot_tracker.record_price(asset, price, at_secs);
        self.regime_detector.update_atr(asset, atr, now_ms);
    }

    /// Whether a price can be taken over to levels and regime within range, with the average true
    /// range that it leads to.
    pub open spec fn spot_fits(self, asset: CryptoAsset, price: Decimal, at_ms: i64, now_ms: i64)
        -> bool {
        let tracker = self.atr_tracker.trackers.at(asset);
        &&& tracker.completes(at_ms) && tracker.has_range(price) ==> tracker.range_with(
            price,
        ) is Some
        &&& forall|after: AssetTracker| #[trigger]
            tracker.recorded(price, at_ms, after) ==> {
                &&& after.ranges@.len() <= u32::MAX
                &&& after.spec_atr() is Some
                &&& forall|atr: Decimal|
                    num(atr) == after.spec_atr() ==> #[trigger] self.volatility_fits(
                        asset,
                        price,
                        seconds_at(at_ms),
                        now_ms,
                        atr,
                    )
            }
    }

    /// Takes in a spot price at a time, `now_ms` being the current time: it is cached, joins the
    /// recent prices and the current window, and becomes the spot price of the asset's markets. The
    /// average true range that follows from it is taken over to levels and regime, and the price
    /// to the bars.
    pub fn handle_spot_price(&mut self, asset: CryptoAsset, price: Decimal, at_ms: i64, now_ms: i64)
        requires
            old(self).spot_fits(asset, price, at_ms, now_ms),
        ensures
            *final(self) == (StrategyState {
                spot_prices: old(self).spot_prices.with(asset, Some(price)),
                binance_buffer: final(self).binance_buffer,
                atr_tracker: final(self).atr_tracker,
                markets: final(self).markets,
                pivot_tracker: final(self).pivot_tracker,
                regime_detector: final(self).regime_detector,
                ..*old(self)
            }),
            old(self).binance_buffer.recorded(asset, at_ms, price, final(self).binance_buffer),
            final(self).atr_tracker.trackers == old(self).atr_tracker.trackers.with(
                asset,
                final(self).atr_tracker.trackers.at(asset),
            ),
            old(self).atr_tracker.trackers.at(asset).recorded(
                price,
                at_ms,
                final(self).atr_tracker.trackers.at(asset),
            ),
            all_changed(
                old(self).markets@,
                final(self).markets@,
                MarketChange::Spot(asset, price),
            ),
            exists|atr: Decimal|
                {
                    &&& num(atr) == final(self).atr_tracker.trackers.at(asset).spec_atr()
                    &&& #[trigger] old(self).takes_over(
                        asset,
                        price,
                        seconds_at(at_ms),
                        now_ms,
                        atr,
                        *final(self),
                    )
                },
    {
        self.record_spot_price(asset, price, at_ms);
        let ghost tracker = self.atr_tracker.trackers.at(asset);
        assert(old(self).atr_tracker.trackers.at(asset).recorded(price, at_ms, tracker));
        let atr = self.atr_tracker.get_atr(asset);
        assert(old(self).volatility_fits(asset, price, seconds_at(at_ms), now_ms, atr));
        self.refresh_volatility(asset, price, whole_seconds(at_ms), now_ms, atr);
        assert(old(self).takes_over(asset, price, seconds_at(at_ms), now_ms, atr, *self));
    }

    /// Takes in a Chainlink price: it is cached, joins the recent prices, and becomes the Chainlink
    /// price of the asset's markets.
    pub fn record_chainlink_price(&mut self, asset: CryptoAsset, price: Decimal, at_ms: i64)
        ensures
            *final(self) == (StrategyState {
                chainlink_prices: old(self).chainlink_prices.with(asset, Some(price)),
                chainlink_last_update: old(self).chainlink_last_update.with(asset, Some(at_ms)),
                chainlink_buffer: final(self).chainlink_buffer,
                markets: final(self).markets,
                ..*old(self)
            }),
            old(self).chainlink_buffer.recorded(asset, at_ms, price, final(self).chainlink_buffer),
            all_changed(
                old(self).markets@,
                final(self).markets@,
                MarketChange::Chainlink(asset, price),
            ),
    {
        self.chainlink_prices.set(asset, Some(price));
        self.chainlink_last_update.set(asset, Some(at_ms));
        self.chainlink_buffer.record(asset, at_ms, price);
        change_all(&mut self.markets, MarketChange::Chainlink(asset, price));
    }

    /// Sets the seconds remaining in all markets.
    pub fn update_all_market_times(&mut self, now_ms: i64)
        ensures
            *final(self) == (StrategyState { markets: final(self).markets, ..*old(self) }),
            all_changed(old(self).markets@, final(self).markets@, MarketChange::Time(now_ms)),
    {
        change_all(&mut self.markets, MarketChange::Time(now_ms));
    }

    /// Events of the markets of an asset.
    pub fn markets_of(&self, asset: CryptoAsset) -> (r: Vec<String>)
        ensures
            lists(r@, self.markets@, |m: TrackedMarket| m.asset == asset),
    {
        self.markets.keys_where(&AssetTest { asset })
    }

    // ------------------------------------------------------------------------
    // Books
    // ------------------------------------------------------------------------

    /// The event whose market has the token; nothing if there is none.
    pub open spec fn event_of(self, token_id: Seq<char>) -> Option<Seq<char>> {
        if self.token_to_event@.dom().contains(token_id) {
            let id = self.token_to_event@[token_id]@;
            if self.markets@.dom().contains(id) && (token_id == self.markets@[id].yes_token_id@
                || token_id == self.markets@[id].no_token_id@) {
                Some(id)
            } else {
                None
            }
        } else {
            None
        }
    }

    /// The event whose market has the token.
    pub fn find_event(&self, token_id: &str) -> (r: Option<String>)
        ensures
            match r {
                Some(id) => self.event_of(token_id@) == Some(id@),
                None => self.event_of(token_id@) is None,
            },
    {
        let wanted = token_id.to_owned();
        match self.token_to_event.get(token_id) {
            Some(id) => match self.markets.get(id.as_str()) {
                Some(market) => if wanted == market.yes_token_id || wanted == market.no_token_id {
                    Some(id.clone())
                } else {
                    None
                },
                None => None,
            },
            None => None,
        }
    }

    /// The book of a token in a market.
    pub open spec fn book_in(m: TrackedMarket, token_id: Seq<char>) -> OrderBook {
        if token_id == m.yes_token_id@ {
            m.state.yes_book
        } else {
            m.state.no_book
        }
    }

    /// A market with another book and another warning for a token.
    pub open spec fn with_book(
        m: TrackedMarket,
        token_id: Seq<char>,
        book: OrderBook,
        warning: Option<ToxicFlowWarning>,
    ) -> TrackedMarket {
        if token_id == m.yes_token_id@ {
            TrackedMarket {
                state: MarketState { yes_book: book, ..m.state },
                yes_toxic_warning: warning,
                ..m
            }
        } else {
            TrackedMarket {
                state: MarketState { no_book: book, ..m.state },
                no_toxic_warning: warning,
                ..m
            }
        }
    }

    /// The warning about a token of a market.
    pub open spec fn warning_in(m: TrackedMarket, token_id: Seq<char>) -> Option<ToxicFlowWarning> {
        if token_id == m.yes_token_id@ {
            m.yes_toxic_warning
        } else {
            m.no_toxic_warning
        }
    }

    /// The order that a snapshot is taken for: the best ask.
    pub open spec fn snapshot_order(bids: Seq<PriceLevel>, asks: Seq<PriceLevel>, at_ms: i64)
        -> ObservedOrder {
        ObservedOrder {
            side: Side::Sell,
            size: asks[0].size,
            at_ms,
            best_bid: crate::types::first_price(bids),
            best_ask: crate::types::first_price(asks),
        }
    }

    /// Takes in the whole book of a token. Its best ask counts as an order for toxic flow. Says
    /// which event is concerned, if any.
    pub fn record_book_snapshot(
        &mut self,
        token_id: &str,
        bids: Vec<PriceLevel>,
        asks: Vec<PriceLevel>,
        at_ms: i64,
    ) -> (r: Option<String>)
        requires
            old(self).event_of(token_id@) is Some && asks@.len() > 0
                ==> old(self).toxic_detector.check_fits(
                token_id@,
                Self::snapshot_order(bids@, asks@, at_ms),
            ),
        ensures
            match old(self).event_of(token_id@) {
                None => r is None && *final(self) == *old(self),
                Some(id) => {
                    let before = old(self).markets@[id];
                    let book = Self::book_in(final(self).markets@[id], token_id@);
                    let warning = Self::warning_in(final(self).markets@[id], token_id@);
                    &&& r is Some && r->0@ == id
                    &&& *final(self) == (StrategyState {
                        markets: final(self).markets,
                        order_books: final(self).order_books,
                        toxic_detector: final(self).toxic_detector,
                        ..*old(self)
                    })
                    &&& final(self).markets@ == old(self).markets@.insert(
                        id,
                        Self::with_book(before, token_id@, book, warning),
                    )
                    &&& book.token_id == Self::book_in(before, token_id@).token_id
                    &&& book.bids == bids
                    &&& book.asks == asks
                    &&& book.last_update_ms == at_ms
                    &&& final(self).order_books@.dom() == old(self).order_books@.dom().insert(
                        token_id@,
                    )
                    &&& final(self).order_books@.remove(token_id@) == old(
                        self,
                    ).order_books@.remove(token_id@)
                    &&& final(self).order_books@[token_id@].shows(token_id@, book)
                    &&& if asks@.len() > 0 {
                        old(self).toxic_detector.checked(
                            token_id@,
                            Self::snapshot_order(bids@, asks@, at_ms),
                            final(self).toxic_detector,
                            warning,
                        )
                    } else {
                        &&& final(self).toxic_detector == old(self).toxic_detector
                        &&& warning == Self::warning_in(before, token_id@)
                    }
                },
            },
    {
        let id = match self.find_event(token_id) {
            Some(id) => id,
            None => {
                return None;
            },
        };
        let mut market = match self.markets.remove(id.as_str()) {
            Some(market) => market,
            None => {
                return None;
            },
        };
        let ghost before = market;
        let is_yes = token_id.to_owned() == market.yes_token_id;
        let (best_bid, best_ask, ask_size, live) = if is_yes {
            market.state.yes_book.apply_snapshot(bids, asks, at_ms);
            let book = &market.state.yes_book;
            (
                book.best_bid(),
                book.best_ask(),
                book.best_ask_size(),
                LiveOrderBook::of(token_id, book),
            )
        } else {
            market.state.no_book.apply_snapshot(bids, asks, at_ms);
            let book = &market.state.no_book;
            (
                book.best_bid(),
                book.best_ask(),
                book.best_ask_size(),
                LiveOrderBook::of(token_id, book),
            )
        };
        self.order_books.insert(token_id.to_owned(), live);
        if let Some(size) = ask_size {
            let warning = self.toxic_detector.check_order(
                token_id,
                Side::Sell,
                size,
                at_ms,
                best_bid,
                best_ask,
            );
            if is_yes {
                market.yes_toxic_warning = warning;
            } else {
                market.no_toxic_warning = warning;
            }
        }
        self.markets.insert(id.clone(), market);
        proof {
            let was = old(self).order_books@;
            let now = self.order_books@;
            assert(now.dom() =~= was.dom().insert(token_id@));
            assert(now.remove(token_id@) =~= was.remove(token_id@));
            let m = self.markets@[id@];
            let book = Self::book_in(m, token_id@);
            let warning = Self::warning_in(m, token_id@);
            assert(m == Self::with_book(before, token_id@, book, warning));
            assert(self.markets@ =~= old(self).markets@.insert(
                id@,
                Self::with_book(before, token_id@, book, warning),
            ));
        }
        Some(id)
    }

    /// The order that a change of a book is taken for.
    pub open spec fn delta_order(book: OrderBook, side: Side, size: Decimal, at_ms: i64) -> ObservedOrder {
        ObservedOrder { side, size, at_ms, best_bid: book.bid(), best_ask: book.ask() }
    }

    /// Takes in a change of the book of a token. A size above zero counts as an order for toxic
    /// flow; a warning replaces the last one of the token. Says which event is concerned, if any.
    pub fn record_book_delta(
        &mut self,
        token_id: &str,
        side: Side,
        price: Decimal,
        size: Decimal,
        at_ms: i64,
    ) -> (r: Option<String>)
        requires
            old(self).event_of(token_id@) is Some && size@ > 0 ==> old(
                self,
            ).toxic_detector.check_fits(
                token_id@,
                Self::delta_order(
                    Self::book_in(
                        old(self).markets@[old(self).event_of(token_id@)->0],
                        token_id@,
                    ),
                    side,
                    size,
                    at_ms,
                ),
            ),
        ensures
            match old(self).event_of(token_id@) {
                None => r is None && *final(self) == *old(self),
                Some(id) => {
                    let before = old(self).markets@[id];
                    let was = Self::book_in(before, token_id@);
                    let book = Self::book_in(final(self).markets@[id], token_id@);
                    let warning = Self::warning_in(final(self).markets@[id], token_id@);
                    &&& r is Some && r->0@ == id
                    &&& *final(self) == (StrategyState {
                        markets: final(self).markets,
                        order_books: final(self).order_books,
                        toxic_detector: final(self).toxic_detector,
                        ..*old(self)
                    })
                    &&& final(self).markets@ == old(self).markets@.insert(
                        id,
                        Self::with_book(before, token_id@, book, warning),
                    )
                    &&& book.token_id == was.token_id
                    &&& book.bids@ == if side == Side::Buy {
                        crate::types::with_level(side, was.bids@, price, size)
                    } else {
                        was.bids@
                    }
                    &&& book.asks@ == if side == Side::Sell {
                        crate::types::with_level(side, was.asks@, price, size)
                    } else {
                        was.asks@
                    }
                    &&& book.last_update_ms == at_ms
                    &&& final(self).order_books@.dom() == old(self).order_books@.dom().insert(
                        token_id@,
                    )
                    &&& final(self).order_books@.remove(token_id@) == old(
                        self,
                    ).order_books@.remove(token_id@)
                    &&& final(self).order_books@[token_id@].shows(token_id@, book)
                    &&& if size@ > 0 {
                        exists|found: Option<ToxicFlowWarning>|
                            #[trigger] old(self).toxic_detector.checked(
                                token_id@,
                                Self::delta_order(was, side, size, at_ms),
                                final(self).toxic_detector,
                                found,
                            ) && warning == if found is Some {
                                found
                            } else {
                                Self::warning_in(before, token_id@)
                            }
                    } else {
                        &&& final(self).toxic_detector == old(self).toxic_detector
                        &&& warning == Self::warning_in(before, token_id@)
                    }
                },
            },
    {
        let id = match self.find_event(token_id) {
            Some(id) => id,
            None => {
                return None;
            },
        };
        let mut market = match self.markets.remove(id.as_str()) {
            Some(market) => market,
            None => {
                return None;
            },
        };
        let ghost before = market;
        let is_yes = token_id.to_owned() == market.yes_token_id;
        let (best_bid, best_ask) = if is_yes {
            (market.state.yes_book.best_bid(), market.state.yes_book.best_ask())
        } else {
            (market.state.no_book.best_bid(), market.state.no_book.best_ask())
        };
        let warning = if size > Decimal::zero() {
            self.toxic_detector.check_order(token_id, side, size, at_ms, best_bid, best_ask)
        } else {
            None
        };
        let ghost found = warning;
        let live = if is_yes {
            market.state.yes_book.apply_delta(side, price, size, at_ms);
            LiveOrderBook::of(token_id, &market.state.yes_book)
        } else {
            market.state.no_book.apply_delta(side, price, size, at_ms);
            LiveOrderBook::of(token_id, &market.state.no_book)
        };
        self.order_books.insert(token_id.to_owned(), live);
        if warning.is_some() {
            if is_yes {
                market.yes_toxic_warning = warning;
            } else {
                market.no_toxic_warning = warning;
            }
        }
        self.markets.insert(id.clone(), market);
        proof {
            let was = old(self).order_books@;
            let now = self.order_books@;
            assert(now.dom() =~= was.dom().insert(token_id@));
            assert(now.remove(token_id@) =~= was.remove(token_id@));
            let m = self.markets@[id@];
            let book = Self::book_in(m, token_id@);
            let shown = Self::warning_in(m, token_id@);
            assert(m == Self::with_book(before, token_id@, book, shown));
            assert(self.markets@ =~= old(self).markets@.insert(
                id@,
                Self::with_book(before, token_id@, book, shown),
            ));
        }
        Some(id)
    }

    // ------------------------------------------------------------------------
    // Orders in flight
    // ------------------------------------------------------------------------

    /// Whether an order of the kind is in flight for an event.
    pub open spec fn in_flight(self, event_id: Seq<char>, kind: PendingOrderType) -> bool {
        self.pending@.dom().contains(event_id) && self.pending@[event_id].at(kind)
    }

    /// Whether an order of the kind is in flight for an event.
    pub fn is_pending(&self, event_id: &str, kind: PendingOrderType) -> (r: bool)
        ensures
            r == self.in_flight(event_id@, kind),
    {
        match self.pending.get(event_id) {
            Some(flags) => flags.get(kind),
            None => false,
        }
    }

    /// Whether only the flag of one kind of one event has changed.
    pub open spec fn flagged(
        self,
        event_id: Seq<char>,
        kind: PendingOrderType,
        value: bool,
        after: StrategyState,
    ) -> bool {
        &&& after == (StrategyState { pending: after.pending, ..self })
        &&& forall|id: Seq<char>, k: PendingOrderType| #[trigger]
            after.in_flight(id, k) == if id == event_id && k == kind {
                value
            } else {
                self.in_flight(id, k)
            }
    }

    /// Sets whether an order of the kind is in flight for an event.
    pub fn set_pending(&mut self, event_id: &str, kind: PendingOrderType, value: bool)
        ensures
            old(self).flagged(event_id@, kind, value, *final(self)),
    {
        let flags = match self.pending.remove(event_id) {
            Some(flags) => flags,
            None => PendingFlags { arbitrage: false, directional: false },
        };
        self.pending.insert(event_id.to_owned(), flags.set(kind, value));
    }

    /// Whether only the flags of one event were cleared.
    pub open spec fn cleared(self, event_id: Seq<char>, after: StrategyState) -> bool {
        &&& after == (StrategyState { pending: after.pending, ..self })
        &&& forall|id: Seq<char>, k: PendingOrderType| #[trigger]
            after.in_flight(id, k) == (id != event_id && self.in_flight(id, k))
    }

    /// Clears the flags of an event.
    pub fn clear_pending(&mut self, event_id: &str)
        ensures
            old(self).cleared(event_id@, *final(self)),
    {
        let dropped = self.pending.remove(event_id);
    }

    // ------------------------------------------------------------------------
    // Fills
    // ------------------------------------------------------------------------

    /// Amounts on the UP and DOWN side of a fill.
    pub open spec fn sides(outcome: Outcome, cost: int) -> (int, int) {
        match outcome {
            Outcome::Yes => (cost, 0),
            Outcome::No => (0, cost),
        }
    }

    /// Whether a fill can be booked within range.
    pub open spec fn fill_fits(
        self,
        event_id: Seq<char>,
        outcome: Outcome,
        size: Decimal,
        price: Decimal,
        fee: Decimal,
    ) -> bool {
        self.markets@.dom().contains(event_id) ==> {
            let m = self.markets@[event_id];
            let cost = TrackedMarket::fill_cost(size, price, fee);
            let (up, down) = Self::sides(outcome, cost->0);
            &&& cost is Some
            &&& forall|c: Decimal| #[trigger]
                num(c) == cost ==> m.inventory.fill_fits(outcome, size, c)
            &&& m.position_manager.trade_fits(cost->0, up, down, m.state.seconds_remaining)
            &&& m.margin_now() is Some
        }
    }

    /// Books a fill that was reported: inventory and budget of the market change, and nothing of
    /// it is in flight any more. Gives back what it came to; nothing for a market that is not
    /// tracked.
    pub fn record_fill(
        &mut self,
        event_id: &str,
        outcome: Outcome,
        size: Decimal,
        price: Decimal,
        fee: Decimal,
    ) -> (r: Option<FillReport>)
        requires
            old(self).fill_fits(event_id@, outcome, size, price, fee),
        ensures
            if old(self).markets@.dom().contains(event_id@) {
                let before = old(self).markets@[event_id@];
                let after = final(self).markets@[event_id@];
                &&& r is Some
                &&& Some(r->0.cost@) == TrackedMarket::fill_cost(size, price, fee)
                &&& costs(size, price, fee, r->0.cost)
                &&& r->0.asset == before.asset
                &&& r->0.strike_price == before.strike_price
                &&& r->0.spot_price@ == or_zero(old(self).spot_prices.at(before.asset))
                &&& Some(r->0.arb_margin@) == before.margin_now()
                &&& *final(self) == (StrategyState {
                    markets: final(self).markets,
                    pending: final(self).pending,
                    ..*old(self)
                })
                &&& forall|id: Seq<char>, k: PendingOrderType| #[trigger]
                    final(self).in_flight(id, k) == (id != event_id@ && old(self).in_flight(id, k))
                &&& final(self).markets@ == old(self).markets@.insert(event_id@, after)
                &&& after == (TrackedMarket {
                    inventory: after.inventory,
                    position_manager: after.position_manager,
                    ..before
                })
                &&& before.inventory.filled(outcome, size, r->0.cost, after.inventory)
                &&& before.position_manager.traded(
                    r->0.cost@,
                    Self::sides(outcome, r->0.cost@).0,
                    Self::sides(outcome, r->0.cost@).1,
                    before.state.seconds_remaining,
                    after.position_manager,
                )
            } else {
                r is None && *final(self) == *old(self)
            },
    {
        if !self.markets.contains_key(event_id) {
            return None;
        }
        let mut market = match self.markets.remove(event_id) {
            Some(market) => market,
            None => {
                return None;
            },
        };
        let ghost before = market;
        let worth = size.times(price);
        let cost = worth.plus(fee);
        assert(multiplied(size, price, worth));
        assert(num(cost) == TrackedMarket::fill_cost(size, price, fee));
        market.inventory.record_fill(outcome, size, cost);
        let (up_cost, down_cost) = match outcome {
            Outcome::Yes => (cost, Decimal::zero()),
            Outcome::No => (Decimal::zero(), cost),
        };
        let seconds: i64 = market.state.seconds_remaining;
        market.position_manager.record_trade(cost, up_cost, down_cost, seconds);
        let spot_price = match self.spot_prices.get(market.asset) {
            Some(price) => *price,
            None => Decimal::zero(),
        };
        let report = FillReport {
            asset: market.asset,
            cost,
            strike_price: market.strike_price,
            spot_price,
            arb_margin: market.arb_margin_now(),
        };
        self.markets.insert(event_id.to_owned(), market);
        assert(self.markets@ =~= old(self).markets@.insert(event_id@, market));
        let dropped = self.pending.remove(event_id);
        Some(report)
    }

    // ------------------------------------------------------------------------
    // Windows
    // ------------------------------------------------------------------------

    /// Chainlink price at the opening of a window.
    pub open spec fn chainlink_at(self, event: WindowOpenEvent) -> Option<Decimal> {
        price_near(self.chainlink_buffer.entries.at(event.asset)@, event.window_start_ms)
    }

    /// Where the strike of a new window comes from.
    pub open spec fn strike_choice(self, event: WindowOpenEvent) -> StrikeChoice {
        if self.config.live_oracle {
            match self.chainlink_at(event) {
                Some(price) => StrikeChoice::Use(price),
                None => StrikeChoice::AskPage,
            }
        } else if event.strike_price@ == 0 {
            StrikeChoice::Reject
        } else {
            StrikeChoice::Use(event.strike_price)
        }
    }

    /// Where the strike of a new window comes from: live, the Chainlink price at its opening or
    /// else its page; in a replay, the event itself unless its strike is zero.
    pub fn choose_strike(&self, event: &WindowOpenEvent) -> (r: StrikeChoice)
        ensures
            r == self.strike_choice(*event),
    {
        if self.config.live_oracle {
            match self.chainlink_buffer.lookup(event.asset, event.window_start_ms) {
                Some(price) => StrikeChoice::Use(price),
                None => StrikeChoice::AskPage,
            }
        } else if event.strike_price.is_zero() {
            StrikeChoice::Reject
        } else {
            StrikeChoice::Use(event.strike_price)
        }
    }

    /// The strike that a choice leads to.
    pub open spec fn settled_strike(
        choice: StrikeChoice,
        page: Option<Decimal>,
        found: Decimal,
    ) -> Option<Decimal> {
        match choice {
            StrikeChoice::Use(strike) => Some(strike),
            StrikeChoice::AskPage => match page {
                Some(price) => Some(price),
                None => if found@ != 0 {
                    Some(found)
                } else {
                    None
                },
            },
            StrikeChoice::Reject => None,
        }
    }

    /// The strike of a new window, given the price on its page where that was asked for: the chosen
    /// one, else that of the page, else the strike that the window was found with; nothing where
    /// that is zero too, or the window is rejected.
    pub fn settle_strike(choice: StrikeChoice, page: Option<Decimal>, found: Decimal) -> (r: Option<
        Decimal,
    >)
        ensures
            r == Self::settled_strike(choice, page, found),
    {
        match choice {
            StrikeChoice::Use(strike) => Some(strike),
            StrikeChoice::AskPage => match page {
                Some(price) => Some(price),
                None => if found.is_zero() {
                    None
                } else {
                    Some(found)
                },
            },
            StrikeChoice::Reject => None,
        }
    }

    /// Begins to track the market of a window whose strike is settled. The prices at its opening
    /// are taken from the recent prices, and its tokens lead to it from now on.
    pub fn open_market(&mut self, event: &WindowOpenEvent, min_order_size: Decimal, now_ms: i64)
        ensures
            *final(self) == (StrategyState {
                markets: final(self).markets,
                token_to_event: final(self).token_to_event,
                ..*old(self)
            }),
            ({
                let market = final(self).markets@[event.event_id@];
                let chainlink = old(self).chainlink_at(*event);
                let binance = price_near(
                    old(self).binance_buffer.entries.at(event.asset)@,
                    event.window_start_ms,
                );
                &&& final(self).markets@ == old(self).markets@.insert(event.event_id@, market)
                &&& final(self).token_to_event@.dom() == old(self).token_to_event@.dom().insert(
                    event.yes_token_id@,
                ).insert(event.no_token_id@)
                &&& final(self).token_to_event@[event.yes_token_id@]@ == event.event_id@
                &&& final(self).token_to_event@[event.no_token_id@]@ == event.event_id@
                &&& forall|t: Seq<char>|
                    t != event.yes_token_id@ && t != event.no_token_id@ && #[trigger] old(
                        self,
                    ).token_to_event@.dom().contains(t) ==> final(self).token_to_event@[t] == old(
                        self,
                    ).token_to_event@[t]
                &&& market.chainlink_strike == chainlink
                &&& market.state.chainlink_strike == chainlink
                &&& market.binance_at_open == binance
                &&& market.state.binance_at_open == binance
                &&& (TrackedMarket {
                    chainlink_strike: None,
                    binance_at_open: None,
                    state: MarketState {
                        chainlink_strike: None,
                        binance_at_open: None,
                        ..market.state
                    },
                    ..market
                }).is_new(
                    *event,
                    old(self).config.sizing_config.max_position_per_market,
                    old(self).config,
                    min_order_size@,
                    now_ms,
                )
            }),
            old(self).keyed() ==> final(self).keyed(),
    {
        let chainlink = self.chainlink_buffer.lookup(event.asset, event.window_start_ms);
        let binance = self.binance_buffer.lookup(event.asset, event.window_start_ms);
        let mut market = TrackedMarket::new(
            event,
            self.config.sizing_config.max_position_per_market,
            &self.config,
            min_order_size,
            now_ms,
        );
        market.chainlink_strike = chainlink;
        market.state.chainlink_strike = chainlink;
        market.binance_at_open = binance;
        market.state.binance_at_open = binance;
        self.token_to_event.insert(event.yes_token_id.clone(), event.event_id.clone());
        self.token_to_event.insert(event.no_token_id.clone(), event.event_id.clone());
        self.markets.insert(event.event_id.clone(), market);
        assert(self.token_to_event@.dom() =~= old(self).token_to_event@.dom().insert(
            event.yes_token_id@,
        ).insert(event.no_token_id@));
    }

    /// Price at which a market of the asset is settled: Chainlink's, else the spot price, else
    /// zero.
    pub open spec fn settlement_price(self, asset: CryptoAsset) -> int {
        match self.chainlink_prices.at(asset) {
            Some(price) => price@,
            None => or_zero(self.spot_prices.at(asset)),
        }
    }

    /// Price at which a market of the asset is settled.
    pub fn final_price(&self, asset: CryptoAsset) -> (r: Decimal)
        ensures
            r@ == self.settlement_price(asset),
    {
        match self.chainlink_prices.get(asset) {
            Some(price) => *price,
            None => match self.spot_prices.get(asset) {
                Some(price) => *price,
                None => Decimal::zero(),
            },
        }
    }

    /// Whether the settlement of a market stays within range.
    pub open spec fn close_fits(self, event_id: Seq<char>) -> bool {
        self.markets@.dom().contains(event_id) ==> forall|price: Decimal|
            price@ == self.settlement_price(self.markets@[event_id].asset)
                ==> #[trigger] self.markets@[event_id].settlement_fits(price)
    }

    /// Whether the market of an event is gone, with its tokens, and nothing else.
    pub open spec fn without_market(self, event_id: Seq<char>, after: StrategyState) -> bool {
        let market = self.markets@[event_id];
        &&& after == (StrategyState {
            markets: after.markets,
            token_to_event: after.token_to_event,
            ..self
        })
        &&& after.markets@ == self.markets@.remove(event_id)
        &&& after.token_to_event@ == self.token_to_event@.remove(market.yes_token_id@).remove(
            market.no_token_id@,
        )
    }

    /// Settles the market of an event and stops tracking it; nothing if it is not tracked.
    pub fn close_market(&mut self, event_id: &str) -> (r: Option<Settlement>)
        requires
            old(self).close_fits(event_id@),
        ensures
            if old(self).markets@.dom().contains(event_id@) {
                let market = old(self).markets@[event_id@];
                &&& r is Some
                &&& r->0.final_spot@ == old(self).settlement_price(market.asset)
                &&& market.settled_as(r->0.final_spot, r->0)
                &&& old(self).without_market(event_id@, *final(self))
            } else {
                r is None && *final(self) == *old(self)
            },
            old(self).keyed() ==> final(self).keyed(),
    {
        if !self.markets.contains_key(event_id) {
            return None;
        }
        match self.markets.remove(event_id) {
            Some(market) => {
                let price = self.final_price(market.asset);
                let settlement = market.settle(price);
                let yes = self.token_to_event.remove(market.yes_token_id.as_str());
                let no = self.token_to_event.remove(market.no_token_id.as_str());
                Some(settlement)
            },
            None => None,
        }
    }

    /// Events of the markets whose window has ended.
    pub fn expired_markets(&self, now_ms: i64) -> (r: Vec<String>)
        ensures
            lists(r@, self.markets@, |m: TrackedMarket| now_ms >= m.window_end_ms),
    {
        self.markets.keys_where(&ExpiredTest { now_ms })
    }

    /// Whether these are the events of the markets whose window has ended, each once.
    pub open spec fn expired_ids(self, ids: Seq<String>, now_ms: i64) -> bool {
        lists(ids, self.markets@, |m: TrackedMarket| now_ms >= m.window_end_ms)
    }

    /// Whether a market whose window has ended has the token.
    pub open spec fn expired_token(self, token_id: Seq<char>, now_ms: i64) -> bool {
        exists|k: Seq<char>|
            {
                &&& #[trigger] self.markets@.dom().contains(k)
                &&& now_ms >= self.markets@[k].window_end_ms
                &&& (token_id == self.markets@[k].yes_token_id@ || token_id
                    == self.markets@[k].no_token_id@)
            }
    }

    /// Whether `s` is the settlement of the market of an event.
    pub open spec fn settles(self, event_id: Seq<char>, s: Settlement) -> bool {
        let market = self.markets@[event_id];
        &&& market.settled_as(s.final_spot, s)
        &&& s.final_spot@ == self.settlement_price(market.asset)
    }

    /// Settles all markets whose window has ended, each once, and stops tracking them and their
    /// tokens.
    pub fn settle_expired(&mut self, now_ms: i64) -> (r: Vec<Settlement>)
        requires
            forall|k: Seq<char>| #[trigger]
                old(self).markets@.dom().contains(k) && now_ms >= old(self).markets@[k].window_end_ms
                    ==> old(self).close_fits(k),
        ensures
            *final(self) == (StrategyState {
                markets: final(self).markets,
                token_to_event: final(self).token_to_event,
                ..*old(self)
            }),
            forall|k: Seq<char>| #[trigger]
                final(self).markets@.dom().contains(k) <==> old(self).markets@.dom().contains(k)
                    && now_ms < old(self).markets@[k].window_end_ms,
            forall|k: Seq<char>| #[trigger]
                final(self).markets@.dom().contains(k) ==> final(self).markets@[k] == old(
                    self,
                ).markets@[k],
            forall|t: Seq<char>| #[trigger]
                final(self).token_to_event@.dom().contains(t) <==> old(
                    self,
                ).token_to_event@.dom().contains(t) && !old(self).expired_token(t, now_ms),
            forall|t: Seq<char>| #[trigger]
                final(self).token_to_event@.dom().contains(t) ==> final(self).token_to_event@[t]
                    == old(self).token_to_event@[t],
            exists|ids: Seq<String>|
                {
                    &&& #[trigger] old(self).expired_ids(ids, now_ms)
                    &&& r@.len() == ids.len()
                    &&& forall|i: int|
                        0 <= i < ids.len() ==> old(self).settles((#[trigger] ids[i])@, r@[i])
                },
            old(self).keyed() ==> final(self).keyed(),
    {
        let ids = self.expired_markets(now_ms);
        let ghost start = *self;
        let mut out: Vec<Settlement> = Vec::new();
        let mut i: usize = 0;
        while i < ids.len()
            invariant
                i <= ids@.len(),
                start == *old(self),
                *self == (StrategyState {
                    markets: self.markets,
                    token_to_event: self.token_to_event,
                    ..start
                }),
                lists(ids@, start.markets@, |m: TrackedMarket| now_ms >= m.window_end_ms),
                forall|t: Seq<char>| #[trigger]
                    self.token_to_event@.dom().contains(t) ==> start.token_to_event@.dom().contains(t)
                        && self.token_to_event@[t] == start.token_to_event@[t],
                forall|t: Seq<char>| #[trigger]
                    start.token_to_event@.dom().contains(t) ==> (self.token_to_event@.dom().contains(t)
                        <==> forall|j: int|
                        0 <= j < i ==> t != start.markets@[(#[trigger] ids@[j])@].yes_token_id@ && t
                            != start.markets@[ids@[j]@].no_token_id@),
                forall|k: Seq<char>| #[trigger]
                    start.markets@.dom().contains(k) && now_ms >= start.markets@[k].window_end_ms
                        ==> start.close_fits(k),
                forall|k: Seq<char>| #[trigger]
                    self.markets@.dom().contains(k) ==> start.markets@.dom().contains(k)
                        && self.markets@[k] == start.markets@[k],
                forall|k: Seq<char>| #[trigger]
                    start.markets@.dom().contains(k) && !self.markets@.dom().contains(k)
                        ==> exists|j: int| 0 <= j < i && (#[trigger] ids@[j])@ == k,
                forall|j: int| 0 <= j < i ==> !self.markets@.dom().contains((#[trigger] ids@[j])@),
                forall|j: int|
                    i <= j < ids@.len() ==> self.markets@.dom().contains((#[trigger] ids@[j])@),
                out@.len() == i,
                forall|j: int|
                    0 <= j < i ==> start.settles((#[trigger] ids@[j])@, out@[j]),
            decreases ids@.len() - i,
        {
            let ghost id = ids@[i as int]@;
            let ghost before = self.markets@;
            let ghost tokens = self.token_to_event@;
            assert(self.markets@.dom().contains(id));
            assert(start.markets@.dom().contains(id));
            assert(now_ms >= start.markets@[id].window_end_ms);
            assert(start.close_fits(id));
            assert(self.settlement_price(self.markets@[id].asset) == start.settlement_price(
                start.markets@[id].asset,
            ));
            assert(self.close_fits(id));
            if let Some(settlement) = self.close_market(ids[i].as_str()) {
                out.push(settlement);
            }
            proof {
                let yes = start.markets@[id].yes_token_id@;
                let no = start.markets@[id].no_token_id@;
                assert(self.token_to_event@ == tokens.remove(yes).remove(no));
                assert forall|t: Seq<char>| #[trigger]
                    start.token_to_event@.dom().contains(t) implies (
                self.token_to_event@.dom().contains(t) <==> forall|j: int|
                    0 <= j < i + 1 ==> t != start.markets@[(#[trigger] ids@[j])@].yes_token_id@ && t
                        != start.markets@[ids@[j]@].no_token_id@) by {
                    if self.token_to_event@.dom().contains(t) {
                        assert(tokens.dom().contains(t));
                    } else if tokens.dom().contains(t) {
                        assert(ids@[i as int]@ == id);
                        assert(t == yes || t == no);
                    }
                }
                assert forall|j: int| i + 1 <= j < ids@.len() implies self.markets@.dom().contains(
                    (#[trigger] ids@[j])@,
                ) by {
                    assert(ids@[i as int]@ != ids@[j]@);
                    assert(before.dom().contains(ids@[j]@));
                }
                assert forall|k: Seq<char>| #[trigger]
                    start.markets@.dom().contains(k) && !self.markets@.dom().contains(
                        k,
                    ) implies exists|j: int| 0 <= j < i + 1 && (#[trigger] ids@[j])@ == k by {
                    if before.dom().contains(k) {
                        assert(ids@[i as int]@ == k);
                    } else {
                        let j = choose|j: int| 0 <= j < i && (#[trigger] ids@[j])@ == k;
                        assert(ids@[j]@ == k);
                    }
                }
            }
            i = i + 1;
        }
        proof {
            assert forall|k: Seq<char>| #[trigger]
                self.markets@.dom().contains(k) <==> start.markets@.dom().contains(k) && now_ms
                    < start.markets@[k].window_end_ms by {
                if self.markets@.dom().contains(k) && now_ms >= start.markets@[k].window_end_ms {
                    let j = choose|j: int| 0 <= j < ids@.len() && (#[trigger] ids@[j])@ == k;
                    assert(!self.markets@.dom().contains(ids@[j]@));
                }
                if start.markets@.dom().contains(k) && !self.markets@.dom().contains(k) {
                    let j = choose|j: int| 0 <= j < ids@.len() && (#[trigger] ids@[j])@ == k;
                    assert(now_ms >= start.markets@[ids@[j]@].window_end_ms);
                }
            }
            assert(start.expired_ids(ids@, now_ms));
            assert forall|t: Seq<char>| #[trigger]
                self.token_to_event@.dom().contains(t) <==> start.token_to_event@.dom().contains(t)
                    && !start.expired_token(t, now_ms) by {
                if start.token_to_event@.dom().contains(t) {
                    if start.expired_token(t, now_ms) {
                        let k = choose|k: Seq<char>|
                            {
                                &&& #[trigger] start.markets@.dom().contains(k)
                                &&& now_ms >= start.markets@[k].window_end_ms
                                &&& (t == start.markets@[k].yes_token_id@ || t
                                    == start.markets@[k].no_token_id@)
                            };
                        let j = choose|j: int| 0 <= j < ids@.len() && (#[trigger] ids@[j])@ == k;
                        assert(ids@[j]@ == k);
                    } else {
                        assert forall|j: int| 0 <= j < i implies t
                            != start.markets@[(#[trigger] ids@[j])@].yes_token_id@ && t
                            != start.markets@[ids@[j]@].no_token_id@ by {
                            assert(start.markets@.dom().contains(ids@[j]@));
                        }
                    }
                }
            }
        }
        out
    }
}

/// What is noted about an order in flight is what is read, and no other order is touched.
pub proof fn law_flag_is_seen(
    before: StrategyState,
    event_id: Seq<char>,
    kind: PendingOrderType,
    value: bool,
    after: StrategyState,
)
    requires
        before.flagged(event_id, kind, value, after),
    ensures
        after.in_flight(event_id, kind) == value,
        forall|id: Seq<char>, k: PendingOrderType|
            (id != event_id || k != kind) ==> #[trigger] after.in_flight(id, k)
                == before.in_flight(id, k),
{
}

/// State of trading once the system has failed so many times in a row.
pub open spec fn after_failures(gate: TradingGate, n: nat, max_failures: u32) -> TradingGate
    decreases n,
{
    if n == 0 {
        gate
    } else {
        after_failures(gate, (n - 1) as nat, max_failures).after_failure(true, max_failures)
    }
}

/// As many failures of the system in a row as are allowed stop trading, and fewer do not; failures
/// of an order alone never do.
pub proof fn law_failures_in_a_row_stop_trading(gate: TradingGate, n: nat, max_failures: u32)
    requires
        gate.is_open(),
        gate.failures == 0,
        n < u32::MAX,
    ensures
        after_failures(gate, n, max_failures).is_open() <==> n < max_failures || n == 0,
        after_failures(gate, n, max_failures).failures == n,
        after_failures(gate, n, max_failures).enabled,
        gate.after_failure(false, max_failures) == gate,
    decreases n,
{
    if n > 0 {
        law_failures_in_a_row_stop_trading(gate, (n - 1) as nat, max_failures);
    }
}

/// Trading takes both: it is enabled, and it was not stopped.
pub proof fn law_trading_is_off_unless_enabled(gate: TradingGate)
    ensures
        !gate.enabled ==> !gate.is_open(),
        gate.tripped ==> !gate.is_open(),
        gate.enabled && !gate.tripped ==> gate.is_open(),
{
}

/// A flag says what it was set to, and setting one leaves the other alone.
pub proof fn law_flags_are_separate(flags: PendingFlags, value: bool)
    ensures
        flags.at(PendingOrderType::Arbitrage) == flags.arbitrage,
        flags.at(PendingOrderType::Directional) == flags.directional,
        flags.with(PendingOrderType::Arbitrage, value) == (PendingFlags {
            arbitrage: value,
            directional: flags.directional,
        }),
        flags.with(PendingOrderType::Directional, value) == (PendingFlags {
            arbitrage: flags.arbitrage,
            directional: value,
        }),
{
}

/// The best prices of a token are those at the front of its book, with their sizes; zero where there
/// is none.
pub proof fn law_live_prices_are_the_best(live: LiveOrderBook, token_id: Seq<char>, book: OrderBook)
    requires
        live.shows(token_id, book),
    ensures
        live.token_id@ == token_id,
        book.bids@.len() > 0 ==> live.best_bid@ == book.bids@[0].price@ && live.best_bid_size@
            == book.bids@[0].size@,
        book.asks@.len() > 0 ==> live.best_ask@ == book.asks@[0].price@ && live.best_ask_size@
            == book.asks@[0].size@,
        book.bids@.len() == 0 ==> live.best_bid@ == 0 && live.best_bid_size@ == 0,
        book.asks@.len() == 0 ==> live.best_ask@ == 0 && live.best_ask_size@ == 0,
        live.last_update_ms == book.last_update_ms,
{
}

/// A price reaches the markets of its own asset and no other, and a spot price never passes for one
/// of Chainlink's, or the other way round.
pub proof fn law_prices_reach_their_markets(
    before: Map<Seq<char>, TrackedMarket>,
    spot: Map<Seq<char>, TrackedMarket>,
    chainlink: Map<Seq<char>, TrackedMarket>,
    asset: CryptoAsset,
    price: Decimal,
    id: Seq<char>,
)
    requires
        all_changed(before, spot, MarketChange::Spot(asset, price)),
        all_changed(before, chainlink, MarketChange::Chainlink(asset, price)),
        before.dom().contains(id),
    ensures
        spot.dom().contains(id) && chainlink.dom().contains(id),
        before[id].asset != asset ==> spot[id] == before[id] && chainlink[id] == before[id],
        before[id].asset == asset ==> {
            &&& spot[id].state.spot_price == Some(price)
            &&& spot[id].state.chainlink_price == before[id].state.chainlink_price
            &&& chainlink[id].state.chainlink_price == Some(price)
            &&& chainlink[id].state.spot_price == before[id].state.spot_price
        },
        spot[id] == (TrackedMarket {
            state: MarketState { spot_price: spot[id].state.spot_price, ..before[id].state },
            ..before[id]
        }),
        chainlink[id] == (TrackedMarket {
            state: MarketState {
                chainlink_price: chainlink[id].state.chainlink_price,
                ..before[id].state
            },
            ..before[id]
        }),
{
}

/// Time goes by in every market alike, and touches nothing but the seconds that remain.
pub proof fn law_time_reaches_every_market(
    before: Map<Seq<char>, TrackedMarket>,
    after: Map<Seq<char>, TrackedMarket>,
    now_ms: i64,
    id: Seq<char>,
)
    requires
        all_changed(before, after, MarketChange::Time(now_ms)),
        before.dom().contains(id),
    ensures
        after[id] == (TrackedMarket {
            state: MarketState {
                seconds_remaining: after[id].state.seconds_remaining,
                ..before[id].state
            },
            ..before[id]
        }),
        now_ms <= before[id].window_end_ms ==> after[id].state.seconds_remaining * 1000
            <= before[id].window_end_ms - now_ms < after[id].state.seconds_remaining * 1000 + 1000,
        now_ms > before[id].window_end_ms ==> after[id].state.seconds_remaining == 0,
{
}

/// The second of a time begins at it or before, and less than a second before.
pub proof fn law_seconds_of_a_time(at_ms: i64)
    ensures
        seconds_at(at_ms) * 1000 <= at_ms < seconds_at(at_ms) * 1000 + 1000,
{
}

/// A book that comes in for a token takes the place of that token's book and of the warning about it,
/// and leaves those of the other token alone.
pub proof fn law_books_are_filed_under_their_token(
    m: TrackedMarket,
    book: OrderBook,
    warning: Option<ToxicFlowWarning>,
)
    requires
        m.yes_token_id@ != m.no_token_id@,
    ensures
        StrategyState::with_book(m, m.yes_token_id@, book, warning) == (TrackedMarket {
            state: MarketState { yes_book: book, no_book: m.state.no_book, ..m.state },
            yes_toxic_warning: warning,
            no_toxic_warning: m.no_toxic_warning,
            ..m
        }),
        StrategyState::with_book(m, m.no_token_id@, book, warning) == (TrackedMarket {
            state: MarketState { yes_book: m.state.yes_book, no_book: book, ..m.state },
            yes_toxic_warning: m.yes_toxic_warning,
            no_toxic_warning: warning,
            ..m
        }),
        StrategyState::book_in(m, m.yes_token_id@) == m.state.yes_book,
        StrategyState::book_in(m, m.no_token_id@) == m.state.no_book,
        StrategyState::warning_in(m, m.yes_token_id@) == m.yes_toxic_warning,
        StrategyState::warning_in(m, m.no_token_id@) == m.no_toxic_warning,
{
}

/// A token leads to an event only if the market of that event has it.
pub proof fn law_tokens_lead_to_their_market(state: StrategyState, token_id: Seq<char>)
    ensures
        state.event_of(token_id) is Some ==> {
            let id = state.event_of(token_id)->0;
            &&& state.markets@.dom().contains(id)
            &&& token_id == state.markets@[id].yes_token_id@ || token_id
                == state.markets@[id].no_token_id@
            &&& state.token_to_event@.dom().contains(token_id)
            &&& state.token_to_event@[token_id]@ == id
        },
        state.event_of(token_id) is None && state.token_to_event@.dom().contains(token_id)
            && state.markets@.dom().contains(state.token_to_event@[token_id]@) ==> token_id
            != state.markets@[state.token_to_event@[token_id]@].yes_token_id@ && token_id
            != state.markets@[state.token_to_event@[token_id]@].no_token_id@,
{
}

/// What is watched for toxic flow: of a whole book the best ask, as an order to sell; of a change the
/// order itself, beside the quotes of the book.
pub proof fn law_orders_that_are_watched(
    bids: Seq<PriceLevel>,
    asks: Seq<PriceLevel>,
    book: OrderBook,
    side: Side,
    size: Decimal,
    at_ms: i64,
)
    requires
        asks.len() > 0,
    ensures
        ({
            let whole = StrategyState::snapshot_order(bids, asks, at_ms);
            &&& whole.side is Sell
            &&& whole.size == asks[0].size
            &&& whole.best_ask == Some(asks[0].price)
            &&& bids.len() > 0 ==> whole.best_bid == Some(bids[0].price)
            &&& whole.at_ms == at_ms
        }),
        ({
            let change = StrategyState::delta_order(book, side, size, at_ms);
            &&& change.side == side
            &&& change.size == size
            &&& change.at_ms == at_ms
            &&& book.bids@.len() > 0 ==> change.best_bid == Some(book.bids@[0].price)
            &&& book.asks@.len() > 0 ==> change.best_ask == Some(book.asks@[0].price)
        }),
{
}

/// A fill counts in full on the side of its outcome, and not at all on the other.
pub proof fn law_fills_have_a_side(cost: int)
    ensures
        StrategyState::sides(Outcome::Yes, cost) == (cost, 0int),
        StrategyState::sides(Outcome::No, cost) == (0int, cost),
{
}

/// A market is settled at Chainlink's price, whatever the spot price is; at the spot price only where
/// Chainlink has given none; and never at the price of another asset.
pub proof fn law_chainlink_settles(a: StrategyState, b: StrategyState, asset: CryptoAsset)
    ensures
        a.chainlink_prices.at(asset) is Some ==> a.settlement_price(asset)
            == a.chainlink_prices.at(asset)->0@,
        a.chainlink_prices.at(asset) is None && a.spot_prices.at(asset) is Some
            ==> a.settlement_price(asset) == a.spot_prices.at(asset)->0@,
        a.chainlink_prices.at(asset) is None && a.spot_prices.at(asset) is None
            ==> a.settlement_price(asset) == 0,
        a.chainlink_prices.at(asset) is Some && a.chainlink_prices.at(asset)
            == b.chainlink_prices.at(asset) ==> a.settlement_price(asset) == b.settlement_price(
            asset,
        ),
{
}

/// A market that is closed is gone with both of its tokens, and the other markets and tokens stay.
pub proof fn law_closed_markets_are_gone(
    state: StrategyState,
    event_id: Seq<char>,
    after: StrategyState,
    other: Seq<char>,
    token_id: Seq<char>,
)
    requires
        state.without_market(event_id, after),
    ensures
        !after.markets@.dom().contains(event_id),
        other != event_id && state.markets@.dom().contains(other) ==> after.markets@.dom().contains(
            other,
        ) && after.markets@[other] == state.markets@[other],
        !after.token_to_event@.dom().contains(state.markets@[event_id].yes_token_id@),
        !after.token_to_event@.dom().contains(state.markets@[event_id].no_token_id@),
        token_id != state.markets@[event_id].yes_token_id@ && token_id
            != state.markets@[event_id].no_token_id@ && state.token_to_event@.dom().contains(
            token_id,
        ) ==> after.token_to_event@.dom().contains(token_id) && after.token_to_event@[token_id]
            == state.token_to_event@[token_id],
        after.event_of(state.markets@[event_id].yes_token_id@) is None,
        after.event_of(state.markets@[event_id].no_token_id@) is None,
{
}

/// The settlement of a market goes by its own inventory, strike and asset: the shares of the side
/// that won are paid a dollar each.
pub proof fn law_settlement_of_an_event(state: StrategyState, event_id: Seq<char>, s: Settlement)
    requires
        state.settles(event_id, s),
    ensures
        ({
            let m = state.markets@[event_id];
            let chainlink = state.chainlink_prices.at(m.asset);
            &&& s.event_id == m.event_id
            &&& s.asset == m.asset
            &&& chainlink is Some ==> s.final_spot@ == chainlink->0@
            &&& chainlink is Some && chainlink->0@ >= m.strike_price@ ==> s.yes_wins && s.payout
                == m.inventory.yes_shares
            &&& chainlink is Some && chainlink->0@ < m.strike_price@ ==> !s.yes_wins && s.payout
                == m.inventory.no_shares
        }),
{
    crate::market::law_settlement_pays_the_winner(state.markets@[event_id], s.final_spot, s);
}

/// Once the flags of an event are cleared nothing of it is in flight, and other events keep theirs.
pub proof fn law_clearing_is_complete(
    state: StrategyState,
    event_id: Seq<char>,
    after: StrategyState,
    other: Seq<char>,
    kind: PendingOrderType,
)
    requires
        state.cleared(event_id, after),
        other != event_id,
    ensures
        !after.in_flight(event_id, kind),
        after.in_flight(other, kind) == state.in_flight(other, kind),
{
}

/// Live, the strike is Chainlink's price at the opening of the window wherever there is one, within
/// two seconds of it, whatever the page and the event say; else that of the page; else that of the
/// event. In a replay it is that of the event. A strike of zero is none.
pub proof fn law_strikes_come_from_chainlink_first(
    state: StrategyState,
    event: WindowOpenEvent,
    page: Option<Decimal>,
)
    ensures
        ({
            let strike = StrategyState::settled_strike(
                state.strike_choice(event),
                page,
                event.strike_price,
            );
            let chainlink = price_near(
                state.chainlink_buffer.entries.at(event.asset)@,
                event.window_start_ms,
            );
            &&& state.config.live_oracle && chainlink is Some ==> strike == chainlink
            &&& state.config.live_oracle && chainlink is None && page is Some ==> strike == page
            &&& state.config.live_oracle && chainlink is None && page is None
                && event.strike_price@ != 0 ==> strike == Some(event.strike_price)
            &&& state.config.live_oracle && chainlink is None && page is None
                && event.strike_price@ == 0 ==> strike is None
            &&& !state.config.live_oracle && event.strike_price@ != 0 ==> strike == Some(
                event.strike_price,
            )
            &&& !state.config.live_oracle && event.strike_price@ == 0 ==> strike is None
        }),
{
}

/// The average true range that follows from a price is taken over to the levels and to the regime of
/// that asset, and the price to its bars; nothing of the other assets changes.
pub proof fn law_volatility_is_taken_over(
    state: StrategyState,
    asset: CryptoAsset,
    price: Decimal,
    at_secs: i64,
    now_ms: i64,
    atr: Decimal,
    after: StrategyState,
    other: CryptoAsset,
)
    requires
        state.takes_over(asset, price, at_secs, now_ms, atr, after),
        state.pivot_tracker.config.lookback_bars > 0,
        other != asset,
    ensures
        after.pivot_tracker.atr.at(asset) == Some(atr),
        after.pivot_tracker.atr.at(other) == state.pivot_tracker.atr.at(other),
        after.pivot_tracker.history.at(asset)@.last().close == price,
        after.pivot_tracker.history.at(other) == state.pivot_tracker.history.at(other),
        crate::regime::samples_in(after.regime_detector.atr_history.at(asset)).last().atr == atr,
        after.regime_detector.atr_history.at(other) == state.regime_detector.atr_history.at(other),
{
    let pivots = state.pivots_with(asset, atr);
    assert(after.pivot_tracker.history.at(asset)@ == pivots.bars_after(asset, price, at_secs));
}

} // verus!
