//! Requests to a market, and what a market answers.

pub mod binance_market;

use vstd::prelude::*;
use crate::error::Error;
use crate::fixed::SCALE;

verus! {

/// The outcome of a request that has none to report.
pub struct MarketResult {}

/// A request to buy or sell for a given value, with a bracket of exit prices
/// around the price at which the order is filled.
pub struct MarketOrderRequest {
    /// The instrument to trade.
    pub symbol: String,
    /// `true` to buy, `false` to sell.
    pub is_buy: bool,
    /// Value of the order.
    pub value: u64,
    /// Lower exit price, as a ratio of the fill price; below one.
    pub low_limit: u64,
    /// Upper exit price, as a ratio of the fill price; above one.
    pub high_limit: u64,
}

/// What can be asked of a market.
pub enum MarketRequest {
    /// Cancel all open orders on an instrument.
    ClearOrders(String),
    /// Close the position on an instrument.
    ClosePosition(String),
    /// Place an order.
    Order(MarketOrderRequest),
}

/// What a market reports of an order it has placed.
pub struct MarketOrderReturn {
    /// The market's number for the order.
    pub order_id: u64,
    /// Quantity traded.
    pub qty: u64,
    /// Value traded.
    pub value: u64,
}

/// Why an order with these figures is refused, if it is: the first of the
/// three conditions that fails.
pub open spec fn order_fault(value: u64, low_limit: u64, high_limit: u64) -> Option<Error> {
    if value == 0 {
        Some(Error::NonPositiveValue)
    } else if low_limit == 0 || low_limit >= SCALE {
        Some(Error::LowLimitOutOfRange)
    } else if high_limit <= SCALE {
        Some(Error::HighLimitTooLow)
    } else {
        None
    }
}

impl MarketOrderRequest {
    /// A request for an order of `value`, to be left at `low_limit` or
    /// `high_limit` times the fill price. The value must be positive, the
    /// lower limit strictly between zero and one, the upper limit above one.
    pub fn new(symbol: String, is_buy: bool, value: u64, low_limit: u64, high_limit: u64) -> (r:
        Result<Self, Error>)
        ensures
            match order_fault(value, low_limit, high_limit) {
                Some(error) => r matches Err(e) && e == error,
                None => r matches Ok(request) && request == (MarketOrderRequest {
                    symbol,
                    is_buy,
                    value,
                    low_limit,
                    high_limit,
                }),
            },
    {
        if value == 0 {
            return Err(Error::NonPositiveValue);
        }
        if low_limit == 0 || low_limit >= SCALE {
            return Err(Error::LowLimitOutOfRange);
        }
        if high_limit <= SCALE {
            return Err(Error::HighLimitTooLow);
        }
        Ok(MarketOrderRequest { symbol, is_buy, value, low_limit, high_limit })
    }
}

} // verus!
