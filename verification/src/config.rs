//! Settings of engines, trading, execution and oracles.

use vstd::prelude::*;
use crate::decimal::{Decimal, greater, num, product, quotient, representable, units};
use crate::types::EngineType;

verus! {

/// Settings of the arbitrage engine.
#[derive(Clone, Copy, Debug)]
pub struct ArbitrageEngineConfig {
    pub enabled: bool,
}

/// Settings of the directional engine.
#[derive(Clone, Copy, Debug)]
pub struct DirectionalEngineConfig {
    pub enabled: bool,
    pub min_seconds_remaining: u32,
    pub max_combined_cost: Decimal,
    pub max_spread_bps: u32,
    pub min_favorable_depth: Decimal,
}

/// Settings of the maker engine.
#[derive(Clone, Copy, Debug)]
pub struct MakerEngineConfig {
    pub enabled: bool,
}

/// Which engines run, and their priorities.
#[derive(Clone, Debug)]
pub struct EnginesConfig {
    pub arbitrage: ArbitrageEngineConfig,
    pub directional: DirectionalEngineConfig,
    pub maker: MakerEngineConfig,
    /// Engines by priority, the highest first.
    pub priority: Vec<EngineType>,
}

impl EnginesConfig {
    /// Whether an engine runs.
    pub open spec fn enables(self, engine: EngineType) -> bool {
        match engine {
            EngineType::Arbitrage => self.arbitrage.enabled,
            EngineType::Directional => self.directional.enabled,
            EngineType::MakerRebates => self.maker.enabled,
        }
    }

    /// Whether an engine runs.
    pub fn is_engine_enabled(&self, engine: EngineType) -> (r: bool)
        ensures
            r == self.enables(engine),
    {
        match engine {
            EngineType::Arbitrage => self.arbitrage.enabled,
            EngineType::Directional => self.directional.enabled,
            EngineType::MakerRebates => self.maker.enabled,
        }
    }
}

impl Default for EnginesConfig {
    fn default() -> (r: EnginesConfig)
        ensures
            !r.arbitrage.enabled,
            r.directional.enabled,
            r.directional.min_seconds_remaining == 60,
            r.directional.max_combined_cost@ == units(995, 3),
            r.directional.max_spread_bps == 1000,
            r.directional.min_favorable_depth@ == units(100, 0),
            !r.maker.enabled,
            r.priority@ == seq![
                EngineType::Arbitrage,
                EngineType::Directional,
                EngineType::MakerRebates,
            ],
    {
        EnginesConfig {
            arbitrage: ArbitrageEngineConfig { enabled: false },
            directional: DirectionalEngineConfig {
                enabled: true,
                min_seconds_remaining: 60,
                max_combined_cost: Decimal::new(995, 3),
                max_spread_bps: 1000,
                min_favorable_depth: Decimal::new(100, 0),
            },
            maker: MakerEngineConfig { enabled: false },
            priority: vec![
                EngineType::Arbitrage,
                EngineType::Directional,
                EngineType::MakerRebates,
            ],
        }
    }
}

/// Settings of confidence sizing.
#[derive(Clone, Copy, Debug)]
pub struct SizingConfig {
    /// Balance to trade with.
    pub available_balance: Decimal,
    /// Share of the balance for one market.
    pub max_market_allocation: Decimal,
    /// Number of trades that the budget of a market is meant for.
    pub expected_trades_per_market: u32,
    /// Smallest order in dollars.
    pub min_order_size: Decimal,
    /// Largest confidence multiplier.
    pub max_confidence_multiplier: Decimal,
}

impl SizingConfig {
    /// Budget of one market.
    pub open spec fn budget(self) -> Option<int> {
        product(num(self.available_balance), num(self.max_market_allocation))
    }

    /// Order size before confidence is applied.
    pub open spec fn base_size(self) -> Option<int> {
        greater(
            quotient(self.budget(), Some(units(self.expected_trades_per_market as int, 0))),
            num(self.min_order_size),
        )
    }

    /// Settings for a balance: a fifth of it for one market, in 200 trades of at least one dollar.
    pub fn new(available_balance: Decimal) -> (r: SizingConfig)
        ensures
            r.available_balance == available_balance,
            r.max_market_allocation@ == units(20, 2),
            r.expected_trades_per_market == 200,
            r.min_order_size@ == units(1, 0),
            r.max_confidence_multiplier@ == units(3, 0),
    {
        SizingConfig {
            available_balance,
            max_market_allocation: Decimal::new(20, 2),
            expected_trades_per_market: 200,
            min_order_size: Decimal::one(),
            max_confidence_multiplier: Decimal::new(3, 0),
        }
    }

    /// Budget of one market.
    pub fn market_budget(&self) -> (r: Decimal)
        requires
            self.budget() is Some,
        ensures
            Some(r@) == self.budget(),
    {
        self.available_balance.times(self.max_market_allocation)
    }

    /// Order size before confidence is applied: the budget over the expected trades, at least the
    /// smallest order.
    pub fn base_order_size(&self) -> (r: Decimal)
        requires
            self.base_size() is Some,
        ensures
            Some(r@) == self.base_size(),
    {
        self.market_budget().over(Decimal::from_i64(self.expected_trades_per_market as i64)).max(
            self.min_order_size,
        )
    }
}

/// Settings of trading.
#[derive(Clone, Copy, Debug)]
pub struct TradingConfig {
    pub min_margin_early: Decimal,
    pub min_margin_mid: Decimal,
    pub min_margin_late: Decimal,
    pub early_threshold_secs: u64,
    pub mid_threshold_secs: u64,
    pub min_time_remaining_secs: u64,
    pub base_order_size: Decimal,
    pub max_position_per_market: Decimal,
    pub max_total_exposure: Decimal,
    pub sizing: SizingConfig,
}

impl Default for TradingConfig {
    fn default() -> (r: TradingConfig)
        ensures
            r.min_margin_early@ == units(25, 3),
            r.min_margin_mid@ == units(15, 3),
            r.min_margin_late@ == units(5, 3),
            r.early_threshold_secs == 300,
            r.mid_threshold_secs == 120,
            r.min_time_remaining_secs == 30,
            r.base_order_size@ == units(50, 0),
            r.max_position_per_market@ == units(1000, 0),
            r.max_total_exposure@ == units(5000, 0),
            r.sizing.available_balance@ == units(5000, 0),
            r.sizing.max_market_allocation@ == units(20, 2),
            r.sizing.expected_trades_per_market == 200,
            r.sizing.min_order_size@ == units(1, 0),
            r.sizing.max_confidence_multiplier@ == units(3, 0),
    {
        TradingConfig {
            min_margin_early: Decimal::new(25, 3),
            min_margin_mid: Decimal::new(15, 3),
            min_margin_late: Decimal::new(5, 3),
            early_threshold_secs: 300,
            mid_threshold_secs: 120,
            min_time_remaining_secs: 30,
            base_order_size: Decimal::new(50, 0),
            max_position_per_market: Decimal::new(1000, 0),
            max_total_exposure: Decimal::new(5000, 0),
            sizing: SizingConfig::new(Decimal::new(5000, 0)),
        }
    }
}

/// How directional orders are placed.
#[derive(Clone, Copy, Debug, PartialEq, Eq, Structural)]
pub enum ExecutionMode {
    /// Resting orders.
    Limit,
    /// Orders that fill at once.
    Market,
}

/// Settings of execution.
#[derive(Clone, Copy, Debug)]
pub struct ExecutionConfig {
    pub execution_mode: ExecutionMode,
    /// Whether resting orders follow the price.
    pub chase_enabled: bool,
    pub chase_step_size: Decimal,
    pub chase_check_interval_ms: u64,
    pub max_chase_time_ms: u64,
}

impl Default for ExecutionConfig {
    fn default() -> (r: ExecutionConfig)
        ensures
            r.execution_mode == ExecutionMode::Limit,
            r.chase_enabled,
            r.chase_step_size@ == units(1, 2),
            r.chase_check_interval_ms == 200,
            r.max_chase_time_ms == 5000,
    {
        ExecutionConfig {
            execution_mode: ExecutionMode::Limit,
            chase_enabled: true,
            chase_step_size: Decimal::new(1, 2),
            chase_check_interval_ms: 200,
            max_chase_time_ms: 5000,
        }
    }
}

/// Settings of the price oracles.
#[derive(Clone, Copy, Debug)]
pub struct OracleConfig {
    pub chainlink_stale_threshold_secs: u64,
    pub binance_lead_enabled: bool,
    pub lead_confirm_boost: Decimal,
    pub lead_oppose_cut: Decimal,
}

/// Every engine has a switch of its own.
pub proof fn law_engines_are_switched_on_their_own(config: EnginesConfig)
    ensures
        config.enables(EngineType::Arbitrage) == config.arbitrage.enabled,
        config.enables(EngineType::Directional) == config.directional.enabled,
        config.enables(EngineType::MakerRebates) == config.maker.enabled,
{
}

/// As many base orders as trades are expected use up the budget of a market, unless the smallest
/// order is larger than that.
pub proof fn law_base_orders_share_the_budget(config: SizingConfig, share: int)
    requires
        config.expected_trades_per_market > 0,
        config.budget() is Some,
        config.expected_trades_per_market * share == config.budget()->0,
        representable(share),
    ensures
        share >= config.min_order_size@ ==> config.base_size() == Some(share),
        share < config.min_order_size@ ==> config.base_size() == Some(config.min_order_size@),
{
    let n = config.expected_trades_per_market as int;
    let b = config.budget()->0;
    let p = crate::decimal::pow10(28);
    assert(b * p == (n * p) * share && n * p > 0) by (nonlinear_arith)
        requires
            n * share == b,
            n > 0,
            p > 0,
    ;
    crate::decimal::lemma_exact_value(b * p, n * p, share);
}

/// The budget of a market is a share of the balance: all of it for a whole share, and never more than
/// the balance for less.
pub proof fn law_budget_is_a_share_of_the_balance(config: SizingConfig)
    requires
        config.available_balance@ >= 0,
        representable(config.available_balance@),
    ensures
        config.max_market_allocation@ == units(1, 0) ==> config.budget() == Some(
            config.available_balance@,
        ),
        0 <= config.max_market_allocation@ <= units(1, 0) ==> config.budget() is Some && 0
            <= config.budget()->0 <= config.available_balance@,
{
    crate::decimal::law_arithmetic_is_exact(config.available_balance@, 0);
    if 0 <= config.max_market_allocation@ <= units(1, 0) {
        crate::decimal::lemma_product_shrinks(
            config.available_balance@,
            config.max_market_allocation@,
        );
    }
}

} // verus!
