//! Trading strategy for short-window prediction markets on crypto prices.

pub mod aggregator;
pub mod arb;
pub mod atr;
pub mod confidence;
pub mod confidence_sizing;
pub mod config;
pub mod decimal;
pub mod decision_log;
pub mod directional;
pub mod maker;
pub mod maker_orders;
pub mod market;
pub mod pivots;
pub mod position;
pub mod price_buffer;
pub mod pricing;
pub mod regime;
pub mod signal;
pub mod sizing;
pub mod steps;
pub mod strategy;
pub mod strategy_config;
pub mod strike;
pub mod table;
pub mod text;
pub mod toxic;
pub mod trades_log;
pub mod types;
