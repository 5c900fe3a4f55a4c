//! Sizing an order for an exchange that trades in steps of quantity and price
//! and limits leverage by the value of the position.

use vstd::prelude::*;
use crate::error::Error;
use crate::fixed::{lemma_floor_of_negative, mul_div, SCALE};
use crate::market::MarketOrderRequest;

verus! {

/// What is added to a margin that must be raised, to be on the safe side: 0.01.
pub const MARGIN_SLACK: u64 = 1_000_000;

/// One bracket of position values, with the leverage allowed in it.
#[derive(Debug, Clone, Copy)]
pub struct Bracket {
    /// Smallest value of the bracket.
    pub notional_floor: u64,
    /// Largest value of the bracket.
    pub notional_cap: u64,
    /// Highest leverage allowed in the bracket.
    pub initial_leverage: u8,
    /// Maintenance margin as a ratio of the value.
    pub maint_margin_ratio: u64,
    /// Amount by which the maintenance margin is reduced.
    pub cum: u64,
}

/// What the exchange asks of orders on one instrument.
#[derive(Debug)]
pub struct BinanceSymbolStatus {
    /// Smallest quantity of an order.
    pub min_qty: u64,
    /// Quantities are multiples of this.
    pub min_qty_step: u64,
    /// Prices are multiples of this.
    pub tick_size: u64,
    /// Smallest value of an order.
    pub min_notional: u64,
    /// The brackets of the instrument.
    pub brackets: Vec<Bracket>,
}

/// An order that the exchange will take: the quantity to trade at the
/// market, the two prices at which to leave the position again, and the
/// margin to add once the position is open.
#[derive(Debug, Clone, Copy)]
pub struct OrderPlan {
    /// `true` to buy, `false` to sell.
    pub is_buy: bool,
    /// Quantity to trade.
    pub qty: u64,
    /// Value of that quantity at the price.
    pub executed_value: u64,
    /// Lower exit price.
    pub low_price: u64,
    /// Upper exit price.
    pub high_price: u64,
    /// Price at which the position is left with a gain: the upper exit price
    /// of a bought position, the lower one of a sold position.
    pub take_profit_price: u64,
    /// Price at which the position is left with a loss: the other one.
    pub stop_price: u64,
    /// Margin to add to the position, if the exchange's own is not enough
    /// to carry the position to its stop price.
    pub additional_margin: Option<u64>,
}

/// `x` rounded down to a multiple of `step`.
pub open spec fn stepped(x: int, step: int) -> int {
    x / step * step
}

/// The first bracket that `value` falls in, if any.
pub open spec fn bracket_for(brackets: Seq<Bracket>, value: u64) -> Option<Bracket>
    decreases brackets.len(),
{
    if brackets.len() == 0 {
        None
    } else if brackets[0].notional_floor <= value <= brackets[0].notional_cap {
        Some(brackets[0])
    } else {
        bracket_for(brackets.skip(1), value)
    }
}

/// The margin that a position must have beyond what the exchange sets aside
/// for it, so that it lasts to its stop price: the loss at that price plus the
/// maintenance margin, less the value divided by the leverage. A leverage of
/// zero stands for a margin without limit.
pub open spec fn margin_gap(
    bracket: Bracket,
    leverage: u8,
    is_buy: bool,
    qty: int,
    value: int,
    price: int,
    low_price: int,
    high_price: int,
) -> int
    recommends
        leverage > 0,
{
    let maintenance = value * bracket.maint_margin_ratio / (SCALE as int) - bracket.cum;
    let loss = if is_buy {
        qty * (price - low_price) / (SCALE as int)
    } else {
        qty * (high_price - price) / (SCALE as int)
    };
    loss + maintenance - value / (leverage as int)
}

impl BinanceSymbolStatus {
    /// What [`Self::plan_order`] returns.
    pub open spec fn planned(self, leverage: u8, request: MarketOrderRequest, price: u64) -> Result<
        OrderPlan,
        Error,
    > {
        if price == 0 {
            Err(Error::NonPositivePrice)
        } else if self.min_qty_step == 0 || self.tick_size == 0 {
            Err(Error::ZeroStep)
        } else {
            let qty = stepped(request.value * SCALE / (price as int), self.min_qty_step as int);
            let value = qty * price / (SCALE as int);
            let low_price = stepped(
                price * request.low_limit / (SCALE as int),
                self.tick_size as int,
            );
            let high_price = stepped(
                price * request.high_limit / (SCALE as int),
                self.tick_size as int,
            );
            if qty > u64::MAX || low_price > u64::MAX || high_price > u64::MAX {
                Err(Error::OutOfRange)
            } else if qty < self.min_qty {
                Err(Error::QtyTooSmall)
            } else if value < self.min_notional {
                Err(Error::MinNotionalNotMet)
            } else {
                match bracket_for(self.brackets@, value as u64) {
                    None => Err(Error::BracketNotFound),
                    Some(bracket) => if leverage > bracket.initial_leverage {
                        Err(Error::LeverageTooHigh)
                    } else {
                        let gap = if leverage == 0 {
                            0
                        } else {
                            margin_gap(
                                bracket,
                                leverage,
                                request.is_buy,
                                qty,
                                value,
                                price as int,
                                low_price,
                                high_price,
                            )
                        };
                        if gap + MARGIN_SLACK > u64::MAX {
                            Err(Error::OutOfRange)
                        } else {
                            Ok(
                                OrderPlan {
                                    is_buy: request.is_buy,
                                    qty: qty as u64,
                                    executed_value: value as u64,
                                    low_price: low_price as u64,
                                    high_price: high_price as u64,
                                    take_profit_price: if request.is_buy {
                                        high_price as u64
                                    } else {
                                        low_price as u64
                                    },
                                    stop_price: if request.is_buy {
                                        low_price as u64
                                    } else {
                                        high_price as u64
                                    },
                                    additional_margin: if gap > 0 {
                                        Some((gap + MARGIN_SLACK) as u64)
                                    } else {
                                        None
                                    },
                                },
                            )
                        }
                    },
                }
            }
        }
    }

    /// Finds the first bracket that `value` falls in.
    fn find_bracket(&self, value: u64) -> (r: Option<Bracket>)
        ensures
            r == bracket_for(self.brackets@, value),
    {
        let mut at: usize = 0;
        assert(self.brackets@.skip(0) == self.brackets@);
        while at < self.brackets.len()
            invariant
                at <= self.brackets@.len(),
                bracket_for(self.brackets@, value) == bracket_for(
                    self.brackets@.skip(at as int),
                    value,
                ),
            decreases self.brackets.len() - at,
        {
            let bracket: Bracket = self.brackets[at];
            proof {
                let rest = self.brackets@.skip(at as int);
                assert(rest.skip(1) == self.brackets@.skip(at + 1));
            }
            if bracket.notional_floor <= value && value <= bracket.notional_cap {
                return Some(bracket);
            }
            at = at + 1;
        }
        None
    }

    /// Sizes the order that `request` asks for, at a market price of `price`
    /// and a leverage of `leverage`: the quantity is what the requested value
    /// buys, rounded down to a step; the exit prices are the request's limits
    /// times the price, rounded down to a tick.
    ///
    /// Refuses an order below the smallest quantity or value, one whose value
    /// falls in no bracket, and one whose bracket does not allow the leverage.
    pub fn plan_order(&self, leverage: u8, request: &MarketOrderRequest, price: u64) -> (r: Result<
        OrderPlan,
        Error,
    >)
        ensures
            r == self.planned(leverage, *request, price),
    {
        if price == 0 {
            return Err(Error::NonPositivePrice);
        }
        if self.min_qty_step == 0 || self.tick_size == 0 {
            return Err(Error::ZeroStep);
        }
        let step: u128 = self.min_qty_step as u128;
        let tick: u128 = self.tick_size as u128;
        let raw_qty: u128 = mul_div(request.value, SCALE, price);
        let raw_low: u128 = mul_div(price, request.low_limit, SCALE);
        let raw_high: u128 = mul_div(price, request.high_limit, SCALE);
        proof {
            lemma_stepped_below(raw_qty as int, step as int);
            lemma_stepped_below(raw_low as int, tick as int);
            lemma_stepped_below(raw_high as int, tick as int);
        }
        let qty: u128 = raw_qty / step * step;
        let low_price: u128 = raw_low / tick * tick;
        let high_price: u128 = raw_high / tick * tick;
        if qty > u64::MAX as u128 || low_price > u64::MAX as u128 || high_price > u64::MAX as u128 {
            return Err(Error::OutOfRange);
        }
        let qty: u64 = qty as u64;
        let low_price: u64 = low_price as u64;
        let high_price: u64 = high_price as u64;
        let value: u128 = mul_div(qty, price, SCALE);
        proof {
            lemma_value_bought(request.value as int, price as int, qty as int);
        }
        let value: u64 = value as u64;
        if qty < self.min_qty {
            return Err(Error::QtyTooSmall);
        }
        if value < self.min_notional {
            return Err(Error::MinNotionalNotMet);
        }
        let bracket: Bracket = match self.find_bracket(value) {
            Some(bracket) => bracket,
            None => {
                return Err(Error::BracketNotFound);
            },
        };
        if leverage > bracket.initial_leverage {
            return Err(Error::LeverageTooHigh);
        }
        let mut additional_margin: Option<u64> = None;
        if leverage > 0 {
            let kept: u128 = mul_div(value, bracket.maint_margin_ratio, SCALE);
            let own: u64 = value / (leverage as u64);
            // What weighs on the margin, and what relieves it.
            let mut burden: u128 = kept;
            let mut relief: u128 = bracket.cum as u128 + own as u128;
            let (from, to): (u64, u64) = if request.is_buy {
                (low_price, price)
            } else {
                (price, high_price)
            };
            if to >= from {
                let loss_wide: u128 = mul_div(qty, to - from, SCALE);
                burden = burden + loss_wide;
            } else {
                proof {
                    assert(qty * (from - to) == -(qty * (to - from))) by (nonlinear_arith);
                    lemma_floor_of_negative(qty * (from - to), SCALE as int);
                    assert(qty * (from - to) <= u64::MAX * u64::MAX) by (nonlinear_arith)
                        requires
                            0 <= qty <= u64::MAX,
                            0 <= from - to <= u64::MAX,
                    ;
                }
                let gain_wide: u128 = ((qty as u128) * ((from - to) as u128) + (SCALE as u128 - 1))
                    / (SCALE as u128);
                relief = relief + gain_wide;
            }
            if burden > relief {
                let gap: u128 = burden - relief + MARGIN_SLACK as u128;
                if gap > u64::MAX as u128 {
                    return Err(Error::OutOfRange);
                }
                additional_margin = Some(gap as u64);
            }
        }
        Ok(
            OrderPlan {
                is_buy: request.is_buy,
                qty,
                executed_value: value,
                low_price,
                high_price,
                take_profit_price: if request.is_buy {
                    high_price
                } else {
                    low_price
                },
                stop_price: if request.is_buy {
                    low_price
                } else {
                    high_price
                },
                additional_margin,
            },
        )
    }
}

impl Default for BinanceSymbolStatus {
    /// Quantities in whole units, prices in tenths, a smallest value of one,
    /// and no brackets.
    fn default() -> (r: Self)
        ensures
            r.min_qty == SCALE,
            r.min_qty_step == SCALE,
            r.tick_size == SCALE / 10,
            r.min_notional == SCALE,
            r.brackets@ == Seq::<Bracket>::empty(),
    {
        BinanceSymbolStatus {
            min_qty: SCALE,
            min_qty_step: SCALE,
            tick_size: SCALE / 10,
            min_notional: SCALE,
            brackets: Vec::new(),
        }
    }
}

/// Rounding down to a step gives no more than what was rounded, and nothing negative.
proof fn lemma_stepped_below(x: int, step: int)
    requires
        x >= 0,
        step > 0,
    ensures
        0 <= stepped(x, step) <= x,
{
    vstd::arithmetic::div_mod::lemma_fundamental_div_mod(x, step);
    vstd::arithmetic::div_mod::lemma_mod_bound(x, step);
    vstd::arithmetic::div_mod::lemma_div_pos_is_pos(x, step);
    assert(step * (x / step) == x / step * step) by (nonlinear_arith);
}

/// A quantity of no more than what `value` buys at `price` is worth no more than `value`.
proof fn lemma_value_bought(value: int, price: int, qty: int)
    requires
        value >= 0,
        price > 0,
        0 <= qty <= value * SCALE / price,
    ensures
        0 <= qty * price / (SCALE as int) <= value,
{
    let bought = value * SCALE / price;
    vstd::arithmetic::div_mod::lemma_fundamental_div_mod(value * SCALE, price);
    vstd::arithmetic::div_mod::lemma_mod_bound(value * SCALE, price);
    assert(qty * price <= bought * price && qty * price >= 0 && bought * price == price * bought)
        by (nonlinear_arith)
        requires
            0 <= qty <= bought,
            price > 0,
    ;
    vstd::arithmetic::div_mod::lemma_div_is_ordered(qty * price, value * SCALE, SCALE as int);
    vstd::arithmetic::div_mod::lemma_div_is_ordered(0, qty * price, SCALE as int);
    vstd::arithmetic::div_mod::lemma_div_multiples_vanish(value, SCALE as int);
}

} // verus!
