//! What every strategy offers, and the driver that feeds one a series of candles.

pub mod geo_strategy;
pub mod roll_strategy;

use vstd::prelude::*;
use crate::backtest::candle_chart::CandleData;
use crate::error::Error;
use crate::fixed::SCALE;

verus! {

/// Whether `price` has moved away from `entry` in the position's favour by
/// more than `ratio` of `entry`: above `entry * (1 + ratio)` for a long
/// position, below `entry * (1 - ratio)` for a short one.
pub open spec fn moved_past(is_long: bool, entry: u64, price: u64, ratio: u64) -> bool {
    if is_long {
        price * SCALE > entry * (SCALE + ratio)
    } else {
        price * SCALE < entry * (SCALE - ratio)
    }
}

/// Decides [`moved_past`].
pub fn has_moved_past(is_long: bool, entry: u64, price: u64, ratio: u64) -> (r: bool)
    ensures
        r == moved_past(is_long, entry, price, ratio),
{
    let reached: u128 = (price as u128) * (SCALE as u128);
    if is_long {
        match (entry as u128).checked_mul(SCALE as u128 + ratio as u128) {
            Some(target) => reached > target,
            None => false,
        }
    } else if ratio > SCALE {
        assert(entry * (SCALE - ratio) <= 0) by (nonlinear_arith)
            requires
                entry >= 0,
                SCALE - ratio < 0,
        ;
        false
    } else {
        assert(entry * (SCALE - ratio) <= u64::MAX * SCALE) by (nonlinear_arith)
            requires
                0 <= entry <= u64::MAX,
                0 <= SCALE - ratio <= SCALE,
        ;
        reached < (entry as u128) * ((SCALE - ratio) as u128)
    }
}

/// Whether `value` has fallen below `peak` by more than `limit` of `peak`:
/// `value < peak * (1 - limit)`.
pub open spec fn fallen_below(value: u64, peak: u64, limit: u64) -> bool {
    value * SCALE < peak * (SCALE - limit)
}

/// Decides [`fallen_below`].
pub fn has_fallen_below(value: u64, peak: u64, limit: u64) -> (r: bool)
    ensures
        r == fallen_below(value, peak, limit),
{
    if limit > SCALE {
        assert(peak * (SCALE - limit) <= 0) by (nonlinear_arith)
            requires
                peak >= 0,
                SCALE - limit < 0,
        ;
        false
    } else {
        assert(peak * (SCALE - limit) <= u64::MAX * SCALE) by (nonlinear_arith)
            requires
                0 <= peak <= u64::MAX,
                0 <= SCALE - limit <= SCALE,
        ;
        (value as u128) * (SCALE as u128) < (peak as u128) * ((SCALE - limit) as u128)
    }
}

/// A strategy consumes one candle at a time and holds at most one position.
///
/// A call that fails leaves the strategy as it was.
pub trait Strategy: Sized {
    /// Well-formedness: established by the constructor, kept by every method.
    spec fn wf(&self) -> bool;

    /// What the strategy is worth: the model of [`Strategy::value`].
    spec fn worth(&self) -> int;

    /// The strategy has reached a state that no candle changes any more.
    spec fn is_finished(&self) -> bool;

    /// `next` is a state in which a successful update on `candle` may leave the strategy.
    spec fn steps_to(&self, candle: CandleData, next: &Self) -> bool;

    /// An update on `candle` may fail with `error`.
    spec fn refuses(&self, candle: CandleData, error: Error) -> bool;

    /// `next` is the state in which a successful close at `price` leaves the strategy.
    spec fn closes_to(&self, price: u64, next: &Self) -> bool;

    /// A close at `price` may fail with `error`.
    spec fn refuses_close(&self, price: u64, error: Error) -> bool;

    /// Takes in the next candle.
    fn update(&mut self, candle: &CandleData) -> (r: Result<(), Error>)
        requires
            old(self).wf(),
        ensures
            final(self).wf(),
            r is Ok ==> old(self).steps_to(*candle, final(self)),
            r matches Err(error) ==> old(self).refuses(*candle, error) && *final(self) == *old(self),
    ;

    /// Closes any open position at `price` and returns what the strategy is then worth.
    fn close(&mut self, price: u64) -> (r: Result<u64, Error>)
        requires
            old(self).wf(),
        ensures
            final(self).wf(),
            r matches Ok(value) ==> old(self).closes_to(price, final(self)) && value == final(self).worth(),
            r matches Err(error) ==> old(self).refuses_close(price, error) && *final(self)
                == *old(self),
    ;

    /// What the strategy is worth: its free capital plus the margin of an open position.
    fn value(&self) -> (r: u64)
        requires
            self.wf(),
        ensures
            r == self.worth(),
    ;

    /// Whether the strategy has reached a state that no candle changes any more.
    fn finished(&self) -> (r: bool)
        ensures
            r == self.is_finished(),
    ;
}

/// `to` is a state in which `candle` may leave a strategy that is in state
/// `from`. A finished strategy takes in no more candles.
pub open spec fn moves_on<S: Strategy>(from: S, candle: CandleData, to: S) -> bool {
    if from.is_finished() {
        to == from
    } else {
        from.steps_to(candle, &to)
    }
}

/// `end` is a state in which `candles`, taken in one after the other, may
/// leave a strategy that starts as `start`.
pub open spec fn feeds_to<S: Strategy>(start: S, candles: Seq<CandleData>, end: S) -> bool
    decreases candles.len(),
{
    if candles.len() == 0 {
        end == start
    } else {
        exists|mid: S|
            #![trigger moves_on(mid, candles.last(), end)]
            feeds_to(start, candles.drop_last(), mid) && moves_on(mid, candles.last(), end)
    }
}

/// Runs `strategy` over `candles`: feeds it one candle after the other, and,
/// unless it has finished by itself or there was no candle, closes it at the
/// close of the last one. Returns what the strategy is worth in the end.
///
/// Stops at the first failure, with the strategy as it was before the step
/// that failed.
pub fn run<S: Strategy>(strategy: &mut S, candles: &Vec<CandleData>) -> (r: Result<u64, Error>)
    requires
        old(strategy).wf(),
    ensures
        final(strategy).wf(),
        match r {
            Ok(value) => {
                &&& value == final(strategy).worth()
                &&& exists|last: S| #[trigger]
                    feeds_to(*old(strategy), candles@, last) && if last.is_finished()
                        || candles@.len() == 0 {
                        *final(strategy) == last
                    } else {
                        last.closes_to(candles@.last().close, final(strategy))
                    }
            },
            Err(error) => exists|n: int|
                {
                    &&& 0 <= n <= candles@.len()
                    &&& #[trigger] feeds_to(*old(strategy), candles@.take(n), *final(strategy))
                    &&& !final(strategy).is_finished()
                    &&& if n < candles@.len() {
                        final(strategy).refuses(candles@[n], error)
                    } else {
                        n > 0 && final(strategy).refuses_close(candles@.last().close, error)
                    }
                },
        },
{
    let ghost start = *strategy;
    let mut n: usize = 0;
    while n < candles.len()
        invariant
            n <= candles.len(),
            strategy.wf(),
            start == *old(strategy),
            feeds_to(start, candles@.take(n as int), *strategy),
        decreases candles.len() - n,
    {
        let ghost before = *strategy;
        if !strategy.finished() {
            match strategy.update(&candles[n]) {
                Ok(()) => {},
                Err(error) => {
                    return Err(error);
                },
            }
        }
        proof {
            let fed = candles@.take(n + 1);
            assert(fed.drop_last() == candles@.take(n as int));
            assert(moves_on(before, fed.last(), *strategy));
        }
        n = n + 1;
    }
    assert(candles@.take(n as int) == candles@);
    if strategy.finished() || candles.len() == 0 {
        Ok(strategy.value())
    } else {
        strategy.close(candles[candles.len() - 1].close)
    }
}

} // verus!
