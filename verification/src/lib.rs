//! Backtesting engine for leveraged derivative strategies.
//!
//! The engine replays a series of price candles against a strategy, which
//! opens, holds and closes leveraged contracts as the candles come in, and
//! reports what the strategy is worth in the end.
//!
//! # Numbers
//!
//! Every amount in this crate (prices, capital, leverage, ratios, position
//! sizes) is an unsigned 64-bit fixed-point number with eight decimals: the
//! integer `n` stands for `n / SCALE`. Arithmetic is exact up to one rounding
//! per formula, and the contracts say which way each formula rounds. A result
//! that does not fit 64 bits is reported as [`error::Error::OutOfRange`];
//! nothing wraps and nothing saturates.
//!
//! Times are signed 64-bit numbers of milliseconds since the Unix epoch, and
//! so are the distances between them.
//!
//! # Modules
//!
//! - [`fixed`]: the scale, and the arithmetic the rest leans on.
//! - [`decimal`]: reading amounts and times from decimal text.
//! - [`backtest::candle_chart`]: candles, and the ordered series of them.
//! - [`backtest::contract`]: one leveraged position.
//! - [`backtest::strategy`]: what a strategy offers, and the driver.
//! - [`backtest::strategy::roll_strategy`]: the ladder strategy.
//! - [`backtest::strategy::geo_strategy`]: the periodic strategy.
//! - [`backtest::capital_pool`]: the capital that strategies share.
//! - [`market`]: orders for an exchange, and how they are sized.
//! - [`utils`]: rounding to a step.

pub mod backtest;
pub mod decimal;
pub mod error;
pub mod fixed;
pub mod market;
pub mod utils;
