//! Settings of the strategy.

use vstd::prelude::*;
use crate::arb::ArbThresholds;
use crate::config::{ExecutionConfig, OracleConfig, TradingConfig};
use crate::decimal::{Decimal, units};
use crate::sizing::SizingConfig;
use crate::toxic::ToxicFlowConfig;

verus! {

/// Settings of the strategy.
#[derive(Clone, Copy, Debug)]
pub struct StrategyConfig {
    pub arb_thresholds: ArbThresholds,
    pub toxic_config: ToxicFlowConfig,
    pub sizing_config: SizingConfig,
    /// Failures in a row after which trading stops.
    pub max_consecutive_failures: u32,
    /// Whether severe toxic flow stops a trade.
    pub block_on_toxic_high: bool,
    /// Length of a window in seconds.
    pub window_duration_secs: i64,
    /// Time confidence at the start of a window (default 0.30).
    pub time_conf_floor: Decimal,
    /// Distance confidence at the strike (default 0.20).
    pub dist_conf_floor: Decimal,
    /// Distance confidence gained per average true range (default 0.50).
    pub dist_conf_per_atr: Decimal,
    /// Edge required at the start of a window; it falls to zero towards its end.
    pub max_edge_factor: Decimal,
    pub execution: ExecutionConfig,
    /// Whether past data is replayed.
    pub is_backtest: bool,
    /// Whether prices can be fetched from the page of an event.
    pub live_oracle: bool,
    /// Seconds after which a Chainlink price is stale. It is only carried along: no price is left out
    /// for its age.
    pub oracle_stale_threshold_secs: u64,
    /// Whether a lead of Binance over Chainlink adjusts confidence.
    pub binance_lead_enabled: bool,
    /// Gain of confidence where the lead confirms the signal.
    pub lead_confirm_boost: Decimal,
    /// Loss of confidence where the lead opposes the signal.
    pub lead_oppose_cut: Decimal,
}

impl StrategyConfig {
    /// Whether all settings that do not come from elsewhere have their default values.
    pub open spec fn has_defaults(self) -> bool {
        &&& self.toxic_config.size_multiplier_threshold@ == units(50, 0)
        &&& self.toxic_config.sudden_appearance_ms == 500
        &&& self.toxic_config.rolling_window_size == 100
        &&& self.toxic_config.min_samples == 10
        &&& self.toxic_config.bbo_shift_threshold_bps == 100
        &&& self.max_consecutive_failures == 3
        &&& self.block_on_toxic_high
        &&& self.time_conf_floor@ == units(30, 2)
        &&& self.dist_conf_floor@ == units(20, 2)
        &&& self.dist_conf_per_atr@ == units(50, 2)
        &&& self.max_edge_factor@ == units(20, 2)
        &&& !self.is_backtest
        &&& self.live_oracle
        &&& self.oracle_stale_threshold_secs == 30
        &&& self.binance_lead_enabled
        &&& self.lead_confirm_boost@ == units(15, 2)
        &&& self.lead_oppose_cut@ == units(25, 2)
    }

    /// Settings with thresholds and limits from the settings of trading.
    pub fn from_trading_config(config: &TradingConfig, window_duration_secs: i64) -> (r:
        StrategyConfig)
        ensures
            r.arb_thresholds == (ArbThresholds {
                early: config.min_margin_early,
                mid: config.min_margin_mid,
                late: config.min_margin_late,
                early_threshold_secs: config.early_threshold_secs,
                mid_threshold_secs: config.mid_threshold_secs,
                min_time_remaining_secs: config.min_time_remaining_secs,
            }),
            r.sizing_config.base_order_size == config.base_order_size,
            r.sizing_config.max_position_per_market == config.max_position_per_market,
            r.sizing_config.max_total_exposure == config.max_total_exposure,
            r.sizing_config.min_order_size@ == units(1, 0),
            r.sizing_config.max_liquidity_take@ == units(5, 1),
            r.window_duration_secs == window_duration_secs,
            r.has_defaults(),
    {
        StrategyConfig {
            arb_thresholds: ArbThresholds {
                early: config.min_margin_early,
                mid: config.min_margin_mid,
                late: config.min_margin_late,
                early_threshold_secs: config.early_threshold_secs,
                mid_threshold_secs: config.mid_threshold_secs,
                min_time_remaining_secs: config.min_time_remaining_secs,
            },
            sizing_config: SizingConfig::from_trading_config(config),
            window_duration_secs,
            ..StrategyConfig::default()
        }
    }

    /// The settings for replaying past data or not; replaying needs no pages.
    pub fn with_backtest(self, is_backtest: bool) -> (r: StrategyConfig)
        ensures
            r == (StrategyConfig {
                is_backtest,
                live_oracle: self.live_oracle && !is_backtest,
                ..self
            }),
    {
        StrategyConfig { is_backtest, live_oracle: self.live_oracle && !is_backtest, ..self }
    }

    /// The settings with or without prices from pages.
    pub fn with_live_oracle(self, live_oracle: bool) -> (r: StrategyConfig)
        ensures
            r == (StrategyConfig { live_oracle, ..self }),
    {
        StrategyConfig { live_oracle, ..self }
    }

    /// The settings with another length of a window.
    pub fn with_window_duration(self, window_duration_secs: i64) -> (r: StrategyConfig)
        ensures
            r == (StrategyConfig { window_duration_secs, ..self }),
    {
        StrategyConfig { window_duration_secs, ..self }
    }

    /// Name of the length of a window in addresses.
    pub fn duration_slug(&self) -> (r: &'static str)
        ensures
            r@ == if self.window_duration_secs == 300 {
                "5m"@
            } else if self.window_duration_secs == 3600 {
                "1h"@
            } else {
                "15m"@
            },
    {
        match self.window_duration_secs {
            300 => "5m",
            900 => "15m",
            3600 => "1h",
            _ => "15m",
        }
    }

    /// The settings with other settings of execution.
    pub fn with_execution(self, execution: ExecutionConfig) -> (r: StrategyConfig)
        ensures
            r == (StrategyConfig { execution, ..self }),
    {
        StrategyConfig { execution, ..self }
    }

    /// The settings with other settings of the oracles.
    pub fn with_oracle(self, oracle: &OracleConfig) -> (r: StrategyConfig)
        ensures
            r == (StrategyConfig {
                oracle_stale_threshold_secs: oracle.chainlink_stale_threshold_secs,
                binance_lead_enabled: oracle.binance_lead_enabled,
                lead_confirm_boost: oracle.lead_confirm_boost,
                lead_oppose_cut: oracle.lead_oppose_cut,
                ..self
            }),
    {
        StrategyConfig {
            oracle_stale_threshold_secs: oracle.chainlink_stale_threshold_secs,
            binance_lead_enabled: oracle.binance_lead_enabled,
            lead_confirm_boost: oracle.lead_confirm_boost,
            lead_oppose_cut: oracle.lead_oppose_cut,
            ..self
        }
    }
}

impl Default for StrategyConfig {
    fn default() -> (r: StrategyConfig)
        ensures
            r.arb_thresholds.early@ == units(25, 3),
            r.arb_thresholds.mid@ == units(15, 3),
            r.arb_thresholds.late@ == units(5, 3),
            r.arb_thresholds.early_threshold_secs == 300,
            r.arb_thresholds.mid_threshold_secs == 120,
            r.arb_thresholds.min_time_remaining_secs == 30,
            r.sizing_config.base_order_size@ == units(50, 0),
            r.sizing_config.max_position_per_market@ == units(1000, 0),
            r.sizing_config.max_total_exposure@ == units(5000, 0),
            r.sizing_config.min_order_size@ == units(1, 0),
            r.sizing_config.max_liquidity_take@ == units(5, 1),
            r.window_duration_secs == 900,
            r.has_defaults(),
    {
        StrategyConfig {
            arb_thresholds: ArbThresholds::default(),
            toxic_config: ToxicFlowConfig::default(),
            sizing_config: SizingConfig::default(),
            max_consecutive_failures: 3,
            block_on_toxic_high: true,
            window_duration_secs: 900,
            time_conf_floor: Decimal::new(30, 2),
            dist_conf_floor: Decimal::new(20, 2),
            dist_conf_per_atr: Decimal::new(50, 2),
            max_edge_factor: Decimal::new(20, 2),
            execution: ExecutionConfig::default(),
            is_backtest: false,
            live_oracle: true,
            oracle_stale_threshold_secs: 30,
            binance_lead_enabled: true,
            lead_confirm_boost: Decimal::new(15, 2),
            lead_oppose_cut: Decimal::new(25, 2),
        }
    }
}

} // verus!
