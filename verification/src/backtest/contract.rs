//! A single leveraged position: margin, liquidation price and fees.
//!
//! A contract is pure arithmetic. It is created by [`Contract::open`], never
//! changed afterwards, and turned into a realized value by
//! [`Contract::close`] or [`Contract::liquidate`].
//!
//! Rounding: every division rounds down, except the maintenance buffer, which
//! rounds up. A position is therefore liquidated no later than at the exact
//! threshold, and no realized value is ever negative.

use vstd::prelude::*;
use vstd::arithmetic::div_mod::{lemma_div_is_ordered, lemma_div_multiples_vanish};
use crate::error::Error;
use crate::fixed::{fit, lemma_floor_of_negative, lemma_scaled_down, mul_div, SCALE, SCALE_SQUARED};

verus! {

/// Fee rate charged on the notional value of a maker order: 0.02 %.
pub const HANDLING_FEE_RATE_MAKER: u64 = 20_000;

/// Fee rate charged on the notional value of a taker order: 0.05 %.
pub const HANDLING_FEE_RATE_TAKER: u64 = 50_000;

/// Maintenance margin as a share of the entry price: 0.4 %.
pub const MAINTENANCE_MARGIN_RATE: u64 = 400_000;

/// Share of the close value that is left after a forced liquidation: 85 %.
pub const LIQUIDATION_KEEP_RATE: u64 = 85_000_000;

/// One open leveraged position.
#[derive(Debug, Clone, Copy)]
pub struct Contract {
    /// `true` for a long position, `false` for a short one.
    pub is_long: bool,
    /// Capital that backs the position; forfeited on liquidation.
    pub margin: u64,
    /// Price at which the position was opened.
    pub entry_price: u64,
    /// When the position was opened.
    pub open_time: i64,
    /// Price at which the position is closed by force.
    pub liquidation_price: u64,
    /// Number of contract units; `position_size * price` is the notional value.
    pub position_size: u64,
    /// Ratio of notional value to margin.
    pub leverage: u64,
    /// Price of the protective exit, if there is one.
    pub stop_loss: Option<u64>,
}

/// The margin bought with `offered`: what is left once the opening fee on the
/// notional value is paid, `offered / (1 + leverage * fee)`, so that
/// `margin + margin * leverage * fee` gives `offered` back.
pub open spec fn margin_of(offered: int, leverage: int) -> int {
    offered * SCALE_SQUARED / (SCALE_SQUARED + leverage * HANDLING_FEE_RATE_MAKER)
}

/// How far the price may move against the position before the margin is
/// used up: `entry / leverage`.
pub open spec fn margin_distance(entry: int, leverage: int) -> int {
    entry * SCALE / leverage
}

/// The part of that distance that the exchange keeps in reserve:
/// `entry * MAINTENANCE_MARGIN_RATE`, rounded up.
pub open spec fn maintenance_buffer(entry: int) -> int {
    (entry * MAINTENANCE_MARGIN_RATE + SCALE - 1) / (SCALE as int)
}

/// Computes [`maintenance_buffer`]; it never exceeds `entry`.
pub fn maintenance_buffer_for(entry: u64) -> (r: u64)
    ensures
        r == maintenance_buffer(entry as int),
        r <= entry,
{
    let wide: u128 = ((entry as u128) * (MAINTENANCE_MARGIN_RATE as u128) + (SCALE as u128 - 1))
        / (SCALE as u128);
    wide as u64
}

/// `entry * (1 - 1 / leverage) + entry * MAINTENANCE_MARGIN_RATE` for a long
/// position; mirrored around `entry` for a short one.
pub open spec fn liquidation_price_of(is_long: bool, entry: int, leverage: int) -> int {
    if is_long {
        entry - margin_distance(entry, leverage) + maintenance_buffer(entry)
    } else {
        entry + margin_distance(entry, leverage) - maintenance_buffer(entry)
    }
}

/// `margin * leverage / entry`.
pub open spec fn position_size_of(margin: int, leverage: int, entry: int) -> int {
    margin * leverage / entry
}

/// Whether `price` lies beyond `level` in the direction that hurts the position:
/// below it for a long position, above it for a short one.
pub open spec fn crossed(is_long: bool, price: int, level: int) -> bool {
    if is_long {
        price < level
    } else {
        price > level
    }
}

/// The stop-loss that a contract keeps: one that liquidation would pre-empt is dropped.
pub open spec fn kept_stop_loss(is_long: bool, stop_loss: Option<u64>, liquidation_price: int) -> Option<u64> {
    match stop_loss {
        Some(stop) if crossed(is_long, stop as int, liquidation_price) => None,
        _ => stop_loss,
    }
}

/// What [`Contract::open`] returns.
pub open spec fn opened(
    is_long: bool,
    entry_price: u64,
    offered_capital: u64,
    leverage: u64,
    open_time: i64,
    stop_loss: Option<u64>,
) -> Result<Contract, Error> {
    let margin = margin_of(offered_capital as int, leverage as int);
    let liquidation_price = liquidation_price_of(is_long, entry_price as int, leverage as int);
    let position_size = position_size_of(margin, leverage as int, entry_price as int);
    let contract = Contract {
        is_long,
        margin: margin as u64,
        entry_price,
        open_time,
        liquidation_price: liquidation_price as u64,
        position_size: position_size as u64,
        leverage,
        stop_loss: kept_stop_loss(is_long, stop_loss, liquidation_price),
    };
    if leverage < SCALE {
        Err(Error::InvalidLeverage)
    } else if entry_price == 0 {
        Err(Error::NonPositivePrice)
    } else if offered_capital == 0 {
        Err(Error::NonPositiveCapital)
    } else if liquidation_price > u64::MAX || position_size > u64::MAX || !contract.exits_fit() {
        Err(Error::OutOfRange)
    } else {
        Ok(contract)
    }
}

impl Contract {
    /// The derived fields are what the formulas give for the others, and a
    /// stop-loss, if kept, is not pre-empted by liquidation.
    pub open spec fn well_shaped(self) -> bool {
        &&& self.leverage >= SCALE
        &&& self.entry_price > 0
        &&& self.liquidation_price == liquidation_price_of(
            self.is_long,
            self.entry_price as int,
            self.leverage as int,
        )
        &&& self.position_size == position_size_of(
            self.margin as int,
            self.leverage as int,
            self.entry_price as int,
        )
        &&& (self.stop_loss matches Some(stop) ==> !crossed(
            self.is_long,
            stop as int,
            self.liquidation_price as int,
        ))
    }

    /// The values realized at the two forced exits fit 64 bits.
    pub open spec fn exits_fit(self) -> bool {
        &&& self.cover_value(self.liquidation_price) <= u64::MAX
        &&& (self.stop_loss matches Some(stop) ==> self.cover_value(stop) <= u64::MAX)
    }

    /// Well-formedness: established by [`Contract::open`], assumed by every method.
    pub open spec fn wf(self) -> bool {
        self.well_shaped() && self.exits_fit()
    }

    /// Mark-to-market value at `price`, net of the closing fee:
    /// `position_size * (price - entry_price) + margin - position_size * price * fee`
    /// for a long position, with the price difference negated for a short one.
    /// Computed exactly and rounded down once.
    pub open spec fn cover_value(self, price: u64) -> int {
        let gain = if self.is_long {
            price * (SCALE - HANDLING_FEE_RATE_MAKER) - self.entry_price * SCALE
        } else {
            self.entry_price * SCALE - price * (SCALE + HANDLING_FEE_RATE_MAKER)
        };
        self.margin + self.position_size * gain / (SCALE_SQUARED as int)
    }

    /// The value realized by a forced exit at `price`, if one triggers: at the
    /// stop-loss first, else at the liquidation price, where only
    /// `LIQUIDATION_KEEP_RATE` of the value is left.
    pub open spec fn liquidation_value(self, price: u64) -> Option<int> {
        match self.stop_loss {
            Some(stop) if crossed(self.is_long, price as int, stop as int) => Some(
                self.cover_value(stop),
            ),
            _ => if crossed(self.is_long, price as int, self.liquidation_price as int) {
                Some(
                    self.cover_value(self.liquidation_price) * LIQUIDATION_KEEP_RATE / (SCALE
                        as int),
                )
            } else {
                None
            },
        }
    }

    /// The value realized by closing at `price`: that of the forced exit if
    /// one triggers, else the mark-to-market value.
    pub open spec fn close_value(self, price: u64) -> int {
        match self.liquidation_value(price) {
            Some(value) => value,
            None => self.cover_value(price),
        }
    }

    /// Opens a position at `entry_price` with `offered_capital`, which
    /// includes the opening fee.
    ///
    /// Refuses a leverage below one, a zero price or capital, and a position
    /// whose figures do not fit 64 bits. A stop-loss beyond the liquidation
    /// price could never fire first; it is dropped, not refused.
    pub fn open(
        is_long: bool,
        entry_price: u64,
        offered_capital: u64,
        leverage: u64,
        open_time: i64,
        stop_loss: Option<u64>,
    ) -> (r: Result<Contract, Error>)
        ensures
            r == opened(is_long, entry_price, offered_capital, leverage, open_time, stop_loss),
            r matches Ok(contract) ==> contract.wf(),
    {
        if leverage < SCALE {
            return Err(Error::InvalidLeverage);
        }
        if entry_price == 0 {
            return Err(Error::NonPositivePrice);
        }
        if offered_capital == 0 {
            return Err(Error::NonPositiveCapital);
        }
        let fee_share: u128 = (leverage as u128) * (HANDLING_FEE_RATE_MAKER as u128);
        let margin_wide: u128 = (offered_capital as u128) * SCALE_SQUARED / (SCALE_SQUARED
            + fee_share);
        proof {
            lemma_scaled_down(
                offered_capital as int,
                SCALE_SQUARED as int,
                SCALE_SQUARED + leverage * HANDLING_FEE_RATE_MAKER,
            );
        }
        let margin: u64 = margin_wide as u64;
        let distance: u128 = mul_div(entry_price, SCALE, leverage);
        proof {
            lemma_scaled_down(entry_price as int, SCALE as int, leverage as int);
        }
        let buffer: u128 = maintenance_buffer_for(entry_price) as u128;
        let liquidation_wide: u128 = if is_long {
            entry_price as u128 - distance + buffer
        } else {
            entry_price as u128 + distance - buffer
        };
        let size_wide: u128 = mul_div(margin, leverage, entry_price);
        if liquidation_wide > u64::MAX as u128 || size_wide > u64::MAX as u128 {
            return Err(Error::OutOfRange);
        }
        let liquidation_price: u64 = liquidation_wide as u64;
        let kept: Option<u64> = match stop_loss {
            Some(stop) => {
                if (is_long && stop < liquidation_price) || (!is_long && stop > liquidation_price) {
                    None
                } else {
                    stop_loss
                }
            },
            None => None,
        };
        let contract = Contract {
            is_long,
            margin,
            entry_price,
            open_time,
            liquidation_price,
            position_size: size_wide as u64,
            leverage,
            stop_loss: kept,
        };
        if contract.cover(liquidation_price).is_none() {
            return Err(Error::OutOfRange);
        }
        match kept {
            Some(stop) => {
                if contract.cover(stop).is_none() {
                    return Err(Error::OutOfRange);
                }
            },
            None => {},
        }
        Ok(contract)
    }

    /// Closes by force if `price` has crossed the stop-loss or the liquidation
    /// price, and returns the realized value; `None` if neither is crossed.
    pub fn liquidate(&self, price: u64) -> (r: Option<u64>)
        requires
            self.wf(),
        ensures
            r matches Some(value) ==> self.liquidation_value(price) == Some(value as int),
            r is None ==> self.liquidation_value(price) is None,
    {
        match self.stop_loss {
            Some(stop) => {
                if (self.is_long && price < stop) || (!self.is_long && price > stop) {
                    let value = self.cover(stop);
                    return Some(value.unwrap());
                }
            },
            None => {},
        }
        if (self.is_long && price < self.liquidation_price) || (!self.is_long && price
            > self.liquidation_price) {
            let full: u64 = self.cover(self.liquidation_price).unwrap();
            let left: u128 = mul_div(full, LIQUIDATION_KEEP_RATE, SCALE);
            proof {
                lemma_scaled_down(full as int, LIQUIDATION_KEEP_RATE as int, SCALE as int);
            }
            return Some(left as u64);
        }
        None
    }

    /// Closes at `price` and returns the realized value: that of the forced
    /// exit if one triggers, else the mark-to-market value.
    pub fn close(&self, price: u64) -> (r: Result<u64, Error>)
        requires
            self.wf(),
        ensures
            r == match fit(self.close_value(price)) {
                Some(value) => Ok::<u64, Error>(value),
                None => Err::<u64, Error>(Error::OutOfRange),
            },
            self.close_value(price) >= 0,
    {
        proof {
            self.lemma_close_value_nonnegative(price);
        }
        match self.liquidate(price) {
            Some(value) => Ok(value),
            None => match self.cover(price) {
                Some(value) => Ok(value),
                None => Err(Error::OutOfRange),
            },
        }
    }

    /// The mark-to-market value at a price that liquidation has not pre-empted.
    fn cover(&self, price: u64) -> (r: Option<u64>)
        requires
            self.well_shaped(),
            !crossed(self.is_long, price as int, self.liquidation_price as int),
        ensures
            r == fit(self.cover_value(price)),
            self.cover_value(price) >= 0,
    {
        proof {
            self.lemma_cover_value_nonnegative(price);
        }
        let towards: u128;
        let against: u128;
        if self.is_long {
            towards = (price as u128) * ((SCALE - HANDLING_FEE_RATE_MAKER) as u128);
            against = (self.entry_price as u128) * (SCALE as u128);
        } else {
            towards = (self.entry_price as u128) * (SCALE as u128);
            against = (price as u128) * ((SCALE + HANDLING_FEE_RATE_MAKER) as u128);
        }
        let ghost gain: int = towards - against;
        if towards >= against {
            let profit: u128 = towards - against;
            match (self.position_size as u128).checked_mul(profit) {
                Some(total) => {
                    let value: u128 = self.margin as u128 + total / SCALE_SQUARED;
                    if value > u64::MAX as u128 {
                        None
                    } else {
                        Some(value as u64)
                    }
                },
                None => {
                    proof {
                        lemma_div_is_ordered(
                            u128::MAX as int,
                            self.position_size * gain,
                            SCALE_SQUARED as int,
                        );
                    }
                    None
                },
            }
        } else {
            let loss: u128 = against - towards;
            proof {
                lemma_loss_within_margin(
                    self.margin as int,
                    self.position_size as int,
                    gain,
                );
                assert(self.position_size * loss == -(self.position_size * gain))
                    by (nonlinear_arith)
                    requires
                        loss == -gain,
                ;
                lemma_floor_of_negative(self.position_size * loss, SCALE_SQUARED as int);
            }
            let total: u128 = (self.position_size as u128) * loss;
            let taken: u128 = (total + (SCALE_SQUARED - 1)) / SCALE_SQUARED;
            Some((self.margin as u128 - taken) as u64)
        }
    }

    /// The liquidation price lies on the losing side of the entry price:
    /// strictly between zero and the entry price for a long position, strictly
    /// above the entry price for a short one. This holds of every contract
    /// whose maintenance buffer is smaller than its margin distance, that is,
    /// up to rounding, of every leverage below `1 / MAINTENANCE_MARGIN_RATE`.
    pub proof fn lemma_liquidation_price_side(self)
        requires
            self.wf(),
            maintenance_buffer(self.entry_price as int) < margin_distance(
                self.entry_price as int,
                self.leverage as int,
            ),
        ensures
            self.is_long ==> 0 < self.liquidation_price < self.entry_price,
            !self.is_long ==> self.liquidation_price > self.entry_price,
    {
        lemma_scaled_down(self.entry_price as int, SCALE as int, self.leverage as int);
    }

    /// The condition of [`Self::lemma_liquidation_price_side`] leaves out no
    /// contract of which its conclusion holds.
    pub proof fn lemma_liquidation_price_side_converse(self)
        requires
            self.wf(),
            if self.is_long {
                0 < self.liquidation_price < self.entry_price
            } else {
                self.liquidation_price > self.entry_price
            },
        ensures
            maintenance_buffer(self.entry_price as int) < margin_distance(
                self.entry_price as int,
                self.leverage as int,
            ),
    {
    }

    /// A forced exit realizes exactly what closing at the same price does,
    /// never a negative value, and never more than the mark-to-market value at
    /// the price of the exit: that value itself at the stop-loss, and
    /// `LIQUIDATION_KEEP_RATE` of it at the liquidation price.
    pub proof fn lemma_forced_exit_value(self, price: u64)
        requires
            self.wf(),
            self.liquidation_value(price) is Some,
        ensures
            self.close_value(price) == self.liquidation_value(price).unwrap(),
            0 <= self.liquidation_value(price).unwrap() <= u64::MAX,
            match self.stop_loss {
                Some(stop) if crossed(self.is_long, price as int, stop as int) =>
                    self.liquidation_value(price).unwrap() == self.cover_value(stop),
                _ => self.liquidation_value(price).unwrap() <= self.cover_value(
                    self.liquidation_price,
                ),
            },
    {
        self.lemma_cover_value_nonnegative(self.liquidation_price);
        lemma_scaled_down(
            self.cover_value(self.liquidation_price),
            LIQUIDATION_KEEP_RATE as int,
            SCALE as int,
        );
        match self.stop_loss {
            Some(stop) => {
                self.lemma_cover_value_nonnegative(stop);
            },
            None => {},
        }
    }

    /// Closing never realizes a negative value.
    pub proof fn lemma_close_value_nonnegative(self, price: u64)
        requires
            self.wf(),
        ensures
            self.close_value(price) >= 0,
    {
        if self.liquidation_value(price) is Some {
            self.lemma_forced_exit_value(price);
        } else {
            self.lemma_cover_value_nonnegative(price);
        }
    }

    /// Within the liquidation price, the mark-to-market value is never negative.
    pub proof fn lemma_cover_value_nonnegative(self, price: u64)
        requires
            self.well_shaped(),
            !crossed(self.is_long, price as int, self.liquidation_price as int),
        ensures
            self.cover_value(price) >= 0,
    {
        let m = self.margin as int;
        let a = self.position_size as int;
        let l = self.leverage as int;
        let e = self.entry_price as int;
        let d = margin_distance(e, l);
        let b = maintenance_buffer(e);
        let p = price as int;
        // What the roundings leave of the position size and the margin distance.
        lemma_floor_bounds(m * l, e);
        lemma_floor_bounds(e * SCALE, l);
        assert(a * e <= m * l) by (nonlinear_arith)
            requires
                a == (m * l) / e,
                e * ((m * l) / e) <= m * l,
        ;
        assert(d * l <= e * SCALE) by (nonlinear_arith)
            requires
                d == (e * SCALE) / l,
                l * ((e * SCALE) / l) <= e * SCALE,
        ;
        lemma_exit_gain_bound(self.is_long, m, a, l, e, d, b, p);
        // The gain is at least `-m * SCALE_SQUARED`, so its quotient is at least `-m`.
        let gain = if self.is_long {
            p * (SCALE - HANDLING_FEE_RATE_MAKER) - e * SCALE
        } else {
            e * SCALE - p * (SCALE + HANDLING_FEE_RATE_MAKER)
        };
        lemma_div_is_ordered(-(m * SCALE_SQUARED), a * gain, SCALE_SQUARED as int);
        lemma_div_multiples_vanish(-m, SCALE_SQUARED as int);
    }
}

/// The margin is the largest amount that the offered capital pays for
/// together with its opening fee: `margin + margin * leverage * fee` does not
/// exceed the offered capital, and one unit more of margin would.
pub proof fn lemma_margin_nets_the_fee(offered: u64, leverage: u64)
    ensures
        ({
            let margin = margin_of(offered as int, leverage as int);
            let priced = SCALE_SQUARED + leverage * HANDLING_FEE_RATE_MAKER;
            margin * priced <= offered * SCALE_SQUARED < (margin + 1) * priced
        }),
{
    let priced = SCALE_SQUARED + leverage * HANDLING_FEE_RATE_MAKER;
    let margin = margin_of(offered as int, leverage as int);
    lemma_floor_bounds(offered * SCALE_SQUARED, priced);
    assert(margin * priced == priced * margin && (margin + 1) * priced == priced * margin + priced)
        by (nonlinear_arith);
}

/// The liquidation price is the exact one, `entry * (1 - 1 / leverage)
/// + entry * MAINTENANCE_MARGIN_RATE` for a long position and its mirror image
/// for a short one, moved towards the entry price by less than two units.
/// The inequalities are the exact ones, multiplied by `SCALE * leverage`.
pub proof fn lemma_liquidation_price_is_close(is_long: bool, entry: u64, leverage: u64)
    requires
        leverage >= SCALE,
    ensures
        ({
            let price = liquidation_price_of(is_long, entry as int, leverage as int);
            let exact_long = entry * (SCALE * leverage) - entry * SCALE_SQUARED + entry * (
            MAINTENANCE_MARGIN_RATE * leverage);
            let exact_short = entry * (SCALE * leverage) + entry * SCALE_SQUARED - entry * (
            MAINTENANCE_MARGIN_RATE * leverage);
            if is_long {
                (price - 2) * (SCALE * leverage) < exact_long <= price * (SCALE * leverage)
            } else {
                price * (SCALE * leverage) <= exact_short < (price + 2) * (SCALE * leverage)
            }
        }),
{
    let e = entry as int;
    let l = leverage as int;
    let d = margin_distance(e, l);
    let b = maintenance_buffer(e);
    let price = liquidation_price_of(is_long, e, l);
    // What the two roundings add: less than a unit each.
    let from_distance = e * SCALE - d * l;
    let from_buffer = b * SCALE - e * MAINTENANCE_MARGIN_RATE;
    lemma_floor_bounds(e * SCALE, l);
    assert(0 <= from_distance < l) by (nonlinear_arith)
        requires
            from_distance == e * SCALE - d * l,
            l * d <= e * SCALE < l * d + l,
    ;
    assert(0 <= from_buffer < SCALE);
    assert(0 <= SCALE * from_distance + l * from_buffer < 2 * (SCALE * l)) by (nonlinear_arith)
        requires
            0 <= from_distance < l,
            0 <= from_buffer < SCALE,
    ;
    assert(SCALE_SQUARED == SCALE * SCALE);
    if is_long {
        assert(price * (SCALE * l) - (e * (SCALE * l) - e * SCALE_SQUARED + e * (
        MAINTENANCE_MARGIN_RATE * l)) == SCALE * from_distance + l * from_buffer && (price - 2) * (
        SCALE * l) == price * (SCALE * l) - 2 * (SCALE * l)) by (nonlinear_arith)
            requires
                price == e - d + b,
                from_distance == e * SCALE - d * l,
                from_buffer == b * SCALE - e * MAINTENANCE_MARGIN_RATE,
                SCALE_SQUARED == SCALE * SCALE,
        ;
    } else {
        assert((e * (SCALE * l) + e * SCALE_SQUARED - e * (MAINTENANCE_MARGIN_RATE * l)) - price * (
        SCALE * l) == SCALE * from_distance + l * from_buffer && (price + 2) * (SCALE * l) == price
            * (SCALE * l) + 2 * (SCALE * l)) by (nonlinear_arith)
            requires
                price == e + d - b,
                from_distance == e * SCALE - d * l,
                from_buffer == b * SCALE - e * MAINTENANCE_MARGIN_RATE,
                SCALE_SQUARED == SCALE * SCALE,
        ;
    }
}

/// Whatever [`opened`] gives is well-formed.
pub proof fn lemma_opened_is_well_formed(
    is_long: bool,
    entry_price: u64,
    offered_capital: u64,
    leverage: u64,
    open_time: i64,
    stop_loss: Option<u64>,
)
    ensures
        opened(is_long, entry_price, offered_capital, leverage, open_time, stop_loss) matches Ok(
            contract,
        ) ==> {
            &&& contract.wf()
            &&& contract.is_long == is_long
            &&& contract.entry_price == entry_price
            &&& contract.leverage == leverage
            &&& contract.open_time == open_time
            &&& contract.margin == margin_of(offered_capital as int, leverage as int)
            &&& contract.margin <= offered_capital
        },
{
    if opened(is_long, entry_price, offered_capital, leverage, open_time, stop_loss) is Ok {
        lemma_scaled_down(
            offered_capital as int,
            SCALE_SQUARED as int,
            SCALE_SQUARED + leverage * HANDLING_FEE_RATE_MAKER,
        );
        lemma_scaled_down(entry_price as int, SCALE as int, leverage as int);
        let margin = margin_of(offered_capital as int, leverage as int);
        lemma_div_is_ordered(0, margin * leverage, entry_price as int);
    }
}

/// The maintenance buffer is smaller than the margin distance wherever the
/// exact figures differ by two units or more, that is, where
/// `entry * (1 / leverage - MAINTENANCE_MARGIN_RATE) >= 2`: for every leverage
/// below `1 / MAINTENANCE_MARGIN_RATE`, from some entry price on.
pub proof fn lemma_buffer_below_distance(entry: u64, leverage: u64)
    requires
        leverage >= SCALE,
        entry * (SCALE_SQUARED - MAINTENANCE_MARGIN_RATE * leverage) >= 2 * (SCALE * leverage),
    ensures
        maintenance_buffer(entry as int) < margin_distance(entry as int, leverage as int),
{
    let e = entry as int;
    let l = leverage as int;
    let d = margin_distance(e, l);
    let b = maintenance_buffer(e);
    lemma_floor_bounds(e * SCALE, l);
    assert(b * SCALE < e * MAINTENANCE_MARGIN_RATE + SCALE);
    // b * SCALE * l < e * rate * l + SCALE * l <= e * SCALE_SQUARED - SCALE * l < d * l * SCALE
    assert(b * (SCALE * l) < d * (SCALE * l)) by (nonlinear_arith)
        requires
            l > 0,
            b * SCALE < e * MAINTENANCE_MARGIN_RATE + SCALE,
            e * SCALE < l * d + l,
            e * (SCALE_SQUARED - MAINTENANCE_MARGIN_RATE * l) >= 2 * (SCALE * l),
            SCALE_SQUARED == SCALE * SCALE,
            SCALE > 0,
    ;
    assert(b < d) by (nonlinear_arith)
        requires
            b * (SCALE * l) < d * (SCALE * l),
            SCALE * l > 0,
    ;
}

impl Contract {
    /// With a leverage of at most 125 and an entry price of at least 500
    /// units, the liquidation price lies on the losing side of the entry
    /// price: strictly between zero and the entry price for a long position,
    /// strictly above the entry price for a short one.
    pub proof fn lemma_liquidation_price_side_up_to_125(self)
        requires
            self.wf(),
            self.leverage <= 125 * SCALE,
            self.entry_price >= 500,
        ensures
            self.is_long ==> 0 < self.liquidation_price < self.entry_price,
            !self.is_long ==> self.liquidation_price > self.entry_price,
    {
        assert(self.entry_price * (SCALE_SQUARED - MAINTENANCE_MARGIN_RATE * self.leverage) >= 2 * (
        SCALE * self.leverage)) by (nonlinear_arith)
            requires
                self.entry_price >= 500,
                SCALE_SQUARED - MAINTENANCE_MARGIN_RATE * self.leverage >= SCALE_SQUARED / 2,
                500 * (SCALE_SQUARED / 2) >= 2 * (SCALE * self.leverage),
        ;
        lemma_buffer_below_distance(self.entry_price, self.leverage);
        self.lemma_liquidation_price_side();
    }
}

/// `d * (x / d) <= x < d * (x / d) + d` for a positive divisor.
proof fn lemma_floor_bounds(x: int, d: int)
    requires
        d > 0,
    ensures
        d * (x / d) <= x < d * (x / d) + d,
{
    vstd::arithmetic::div_mod::lemma_fundamental_div_mod(x, d);
    vstd::arithmetic::div_mod::lemma_mod_bound(x, d);
}

/// If the total gain `a * gain` is no less than `-m * SCALE_SQUARED`, the
/// loss `a * -gain` is at most `m * SCALE_SQUARED`.
proof fn lemma_loss_within_margin(m: int, a: int, gain: int)
    requires
        m + a * gain / (SCALE_SQUARED as int) >= 0,
        gain < 0,
        a >= 0,
    ensures
        0 <= a * (-gain) <= m * SCALE_SQUARED,
{
    let t = a * (-gain);
    assert(t >= 0 && a * gain == -t) by (nonlinear_arith)
        requires
            t == a * (-gain),
            a >= 0,
            gain < 0,
    ;
    lemma_floor_of_negative(t, SCALE_SQUARED as int);
    lemma_floor_bounds(t + SCALE_SQUARED - 1, SCALE_SQUARED as int);
}

/// The heart of the model: at any price within the liquidation price, the
/// loss on the position plus the closing fee does not exceed the margin.
///
/// `a`, `d` and `b` are the position size, the margin distance and the
/// maintenance buffer, known here only through the roundings that made them.
proof fn lemma_exit_gain_bound(is_long: bool, m: int, a: int, l: int, e: int, d: int, b: int, p: int)
    requires
        m >= 0,
        a >= 0,
        l >= SCALE,
        e > 0,
        a * e <= m * l,
        d * l <= e * SCALE,
        b * SCALE >= e * MAINTENANCE_MARGIN_RATE,
        is_long ==> p >= e - d + b,
        !is_long ==> p <= e + d - b,
    ensures
        is_long ==> a * (p * (SCALE - HANDLING_FEE_RATE_MAKER) - e * SCALE) >= -(m * SCALE_SQUARED),
        !is_long ==> a * (e * SCALE - p * (SCALE + HANDLING_FEE_RATE_MAKER)) >= -(m
            * SCALE_SQUARED),
{
    // Per unit of position, the loss at `p` is at most the loss at the
    // liquidation price, `worst`.
    let rate: int = if is_long {
        SCALE - HANDLING_FEE_RATE_MAKER
    } else {
        SCALE + HANDLING_FEE_RATE_MAKER
    };
    let loss: int = if is_long {
        e * SCALE - p * rate
    } else {
        p * rate - e * SCALE
    };
    let worst: int = e * HANDLING_FEE_RATE_MAKER + (d - b) * rate;
    assert(loss <= worst);
    assert(a * loss <= a * worst) by (nonlinear_arith)
        requires
            a >= 0,
            loss <= worst,
    ;
    if worst > 0 {
        // Times the leverage, that loss is at most the entry price: the
        // maintenance buffer outweighs the closing fee.
        let u = l * e;
        let v = l * d;
        let w = l * b;
        assert(u >= SCALE * e && v == d * l && l * worst == HANDLING_FEE_RATE_MAKER * u + rate * v
            - rate * w) by (nonlinear_arith)
            requires
                u == l * e,
                v == l * d,
                w == l * b,
                worst == e * HANDLING_FEE_RATE_MAKER + (d - b) * rate,
                l >= SCALE,
                e > 0,
        ;
        assert(SCALE * w >= MAINTENANCE_MARGIN_RATE * u) by (nonlinear_arith)
            requires
                w == l * b,
                u == l * e,
                l >= 0,
                b * SCALE >= e * MAINTENANCE_MARGIN_RATE,
        ;
        assert(l * worst <= SCALE_SQUARED * e);
        // The position is at most `m * l / e` units, so its loss is at most the margin.
        assert(a * (l * worst) <= a * (SCALE_SQUARED * e)) by (nonlinear_arith)
            requires
                a >= 0,
                l * worst <= SCALE_SQUARED * e,
        ;
        assert((a * worst) * l <= (m * SCALE_SQUARED) * l) by (nonlinear_arith)
            requires
                a * (l * worst) <= a * (SCALE_SQUARED * e),
                a * e <= m * l,
        ;
        assert(a * worst <= m * SCALE_SQUARED) by (nonlinear_arith)
            requires
                (a * worst) * l <= (m * SCALE_SQUARED) * l,
                l > 0,
        ;
    }
    assert(a * (-loss) == -(a * loss)) by (nonlinear_arith);
}

} // verus!
