//! The simulation engine: candles, the leveraged contract and the strategies.

pub mod candle_chart;
pub mod capital_pool;
pub mod contract;
pub mod strategy;
