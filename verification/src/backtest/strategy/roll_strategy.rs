//! The ladder strategy: one position at a time, rolled over into the next
//! level of the ladder each time a level's profit target is reached.

use std::collections::VecDeque;
use vstd::prelude::*;
use crate::backtest::candle_chart::CandleData;
use crate::backtest::contract::{
    crossed, lemma_opened_is_well_formed, liquidation_price_of, maintenance_buffer,
    maintenance_buffer_for, opened, Contract,
};
use crate::backtest::strategy::{
    fallen_below, feeds_to, has_fallen_below, has_moved_past, moved_past, moves_on, Strategy,
};
use crate::error::Error;
use crate::fixed::{fit, lemma_scaled_down, mul_div, SCALE};

verus! {

/// Leverage of a ladder level.
pub type Leverage = u64;

/// Profit target of a ladder level, as a ratio of the entry price.
pub type TakeProfit = u64;

/// Largest fall from the best value seen that a ladder level tolerates, as a
/// ratio of that value; `None` if the level tolerates any.
pub type MaxDraw = Option<u64>;

/// Share of the margin distance at which the ladder sets its stop-loss: 99 %,
/// which leaves the last hundredth before liquidation as a margin of safety.
pub const STOP_LOSS_SHARE: u64 = 99_000_000;

/// The ladder: the levels a strategy climbs, first level first.
#[derive(Debug, Clone)]
pub struct RollConfig(pub Vec<(Leverage, TakeProfit, MaxDraw)>);

/// The levels of the default ladder.
pub open spec fn default_ladder() -> Seq<(Leverage, TakeProfit, MaxDraw)> {
    seq![
        (2_500_000_000u64, 4_000_000u64, None::<u64>),
        (2_000_000_000u64, 5_000_000u64, None::<u64>),
        (2_000_000_000u64, 5_000_000u64, None::<u64>),
        (1_500_000_000u64, 67_000_000u64, None::<u64>),
        (1_000_000_000u64, 10_000_000u64, None::<u64>),
        (500_000_000u64, 20_000_000u64, None::<u64>),
        (300_000_000u64, 33_000_000u64, None::<u64>),
        (200_000_000u64, 50_000_000u64, Some(60_000_000u64)),
        (100_000_000u64, 100_000_000u64, Some(20_000_000u64)),
    ]
}

/// The leverage that follows `x` in a linear ladder: `x * k + b`.
pub open spec fn linear_next(k: u64, b: u64, x: int) -> int {
    x * k / (SCALE as int) + b
}

/// The levels of the linear ladder from leverage `x` on, each with a profit
/// target of one and no drawdown limit; `None` if the leverages stop growing
/// before they reach `max`, so that the ladder would have no end.
pub open spec fn linear_ladder(k: u64, b: u64, max: u64, x: int) -> Option<
    Seq<(Leverage, TakeProfit, MaxDraw)>,
>
    decreases max - x,
{
    if x >= max || x < 0 {
        Some(Seq::empty())
    } else if linear_next(k, b, x) <= x {
        None
    } else if linear_next(k, b, x) >= max {
        Some(seq![(x as u64, SCALE, None::<u64>)])
    } else {
        match linear_ladder(k, b, max, linear_next(k, b, x)) {
            Some(rest) => Some(seq![(x as u64, SCALE, None::<u64>)] + rest),
            None => None,
        }
    }
}

impl RollConfig {
    /// The ladder with the given levels.
    pub fn new(config: Vec<(Leverage, TakeProfit, MaxDraw)>) -> (r: Self)
        ensures
            r.0 == config,
    {
        RollConfig(config)
    }

    /// The ladder whose leverages start at one and grow by `x -> x * k + b`
    /// as long as they stay below `max`; `None` if they stop growing before
    /// they reach `max`.
    pub fn linear(k: u64, b: u64, max: u64, _step: u64) -> (r: Option<Self>)
        ensures
            match linear_ladder(k, b, max, SCALE as int) {
                Some(levels) => r matches Some(config) && config.0@ == levels,
                None => r is None,
            },
    {
        let mut config: Vec<(Leverage, TakeProfit, MaxDraw)> = Vec::new();
        let mut x: u64 = SCALE;
        while x < max
            invariant
                match linear_ladder(k, b, max, x as int) {
                    Some(rest) => linear_ladder(k, b, max, SCALE as int) == Some(config@ + rest),
                    None => linear_ladder(k, b, max, SCALE as int) is None,
                },
            decreases max - x,
        {
            let next: u128 = mul_div(x, k, SCALE) + b as u128;
            if next <= x as u128 {
                return None;
            }
            config.push((x, SCALE, None));
            if next >= max as u128 {
                return Some(RollConfig(config));
            }
            x = next as u64;
        }
        Some(RollConfig(config))
    }
}

impl Default for RollConfig {
    /// Nine levels, from a leverage of 25 down to 1, the last two with a
    /// drawdown limit.
    fn default() -> (r: Self)
        ensures
            r.0@ == default_ladder(),
    {
        let mut config: Vec<(Leverage, TakeProfit, MaxDraw)> = Vec::new();
        config.push((2_500_000_000, 4_000_000, None));
        config.push((2_000_000_000, 5_000_000, None));
        config.push((2_000_000_000, 5_000_000, None));
        config.push((1_500_000_000, 67_000_000, None));
        config.push((1_000_000_000, 10_000_000, None));
        config.push((500_000_000, 20_000_000, None));
        config.push((300_000_000, 33_000_000, None));
        config.push((200_000_000, 50_000_000, Some(60_000_000)));
        config.push((100_000_000, 100_000_000, Some(20_000_000)));
        RollConfig(config)
    }
}

/// Where a ladder strategy stands.
#[derive(Debug, Clone, Copy, PartialEq, Eq, Structural)]
pub enum RollOnceStatus {
    /// Still trading.
    Processing,
    /// Left a position with its gains, on a fall from the best value seen.
    Succeeded,
    /// Lost a position to its stop-loss or to liquidation.
    Failed,
    /// Closed from outside.
    Aborted,
}

/// What an update has done to a ladder strategy that is worth telling.
#[derive(Debug, Clone, Copy, PartialEq, Eq, Structural)]
pub enum RollEvent {
    /// Nothing to tell.
    Quiet,
    /// A level of the ladder was entered.
    Entered,
    /// The position was lost to its stop-loss or to liquidation.
    Failed,
    /// The position was left with its gains.
    Succeeded,
}

/// The ladder's stop-loss for a position opened at `close`:
/// `close * (1 - STOP_LOSS_SHARE / leverage) + close * MAINTENANCE_MARGIN_RATE`
/// for a long position, mirrored around `close` for a short one.
pub open spec fn ladder_stop_loss(is_long: bool, close: int, leverage: int) -> int {
    if is_long {
        close - close * STOP_LOSS_SHARE / leverage + maintenance_buffer(close)
    } else {
        close + close * STOP_LOSS_SHARE / leverage - maintenance_buffer(close)
    }
}

/// A ladder strategy: its capital, its ladder, and the position it holds, if any.
///
/// Reaching the profit target of a level does not end the strategy: the
/// position is realized, the strategy stays in [`RollOnceStatus::Processing`],
/// and what was realized goes into the next level at once. Only a forced exit,
/// a fall from the best value seen, or a close from outside ends it.
#[derive(Debug, Clone)]
pub struct RollOnceStrategy {
    /// `true` if the strategy goes long, `false` if it goes short.
    pub is_long: bool,
    /// Capital not bound in a position.
    pub capital: u64,
    /// The ladder to climb.
    pub ladder: RollConfig,
    /// The open position, if any.
    pub contract: Option<Contract>,
    /// Number of levels entered so far; the open position belongs to level `level - 1`.
    pub level: usize,
    /// Best value that a position could have been closed at.
    pub max_value_seen: u64,
    /// The price at which that value was seen.
    pub best_price: u64,
    /// Where the strategy stands.
    pub status: RollOnceStatus,
}

impl RollOnceStrategy {
    /// The state that entering the next level of the ladder at the close of
    /// `candle` leads to: all capital goes into a position at that level's
    /// leverage. With no level left, the strategy stays as it is.
    pub open spec fn entered(self, candle: CandleData) -> Result<Self, Error> {
        if self.level >= self.ladder.0@.len() {
            Ok(self)
        } else {
            let leverage = self.ladder.0@[self.level as int].0;
            if leverage < SCALE {
                Err(Error::InvalidLeverage)
            } else {
                match fit(ladder_stop_loss(self.is_long, candle.close as int, leverage as int)) {
                    None => Err(Error::OutOfRange),
                    Some(stop) => match opened(
                        self.is_long,
                        candle.close,
                        self.capital,
                        leverage,
                        candle.close_time,
                        Some(stop),
                    ) {
                        Err(error) => Err(error),
                        Ok(contract) => Ok(
                            RollOnceStrategy {
                                capital: 0,
                                contract: Some(contract),
                                level: (self.level + 1) as usize,
                                ..self
                            },
                        ),
                    },
                }
            }
        }
    }

    /// The state that holding `contract` through `candle` leads to: the best
    /// value seen is brought up to date from the candle's high and low, and
    /// the position is closed with success if its value at the close has
    /// fallen below the best value by more than `max_draw`.
    pub open spec fn held(self, contract: Contract, candle: CandleData, max_draw: MaxDraw) -> Result<
        Self,
        Error,
    > {
        match (fit(contract.close_value(candle.high)), fit(contract.close_value(candle.low))) {
            (Some(at_high), Some(at_low)) => {
                let (best, price) = if self.max_value_seen < at_high {
                    (at_high, candle.high)
                } else {
                    (self.max_value_seen, self.best_price)
                };
                let (best, price) = if best < at_low {
                    (at_low, candle.low)
                } else {
                    (best, price)
                };
                let watched = RollOnceStrategy { max_value_seen: best, best_price: price, ..self };
                match max_draw {
                    None => Ok(watched),
                    Some(limit) => match fit(contract.close_value(candle.close)) {
                        None => Err(Error::OutOfRange),
                        Some(value) => if fallen_below(value, best, limit) {
                            Ok(
                                RollOnceStrategy {
                                    capital: (self.capital + value) as u64,
                                    contract: None,
                                    status: RollOnceStatus::Succeeded,
                                    ..watched
                                },
                            )
                        } else {
                            Ok(watched)
                        },
                    },
                }
            },
            _ => Err(Error::OutOfRange),
        }
    }

    /// The state that `candle` leads to.
    ///
    /// A strategy that is no longer processing stays as it is. One that holds
    /// a position loses it, and fails, if the candle's worst price forces an
    /// exit; else realizes it at the close if the close has reached the
    /// level's profit target, and goes on to enter the next level; else holds
    /// it. One that holds none enters the next level.
    pub open spec fn updated(self, candle: CandleData) -> Result<Self, Error> {
        if self.status != RollOnceStatus::Processing {
            Ok(self)
        } else {
            match self.contract {
                None => self.entered(candle),
                Some(contract) => {
                    let (_, take_profit, max_draw) = self.ladder.0@[self.level - 1];
                    let worst = if self.is_long {
                        candle.low
                    } else {
                        candle.high
                    };
                    match contract.liquidation_value(worst) {
                        Some(value) => Ok(
                            RollOnceStrategy {
                                capital: (self.capital + value) as u64,
                                contract: None,
                                status: RollOnceStatus::Failed,
                                ..self
                            },
                        ),
                        None => if moved_past(
                            self.is_long,
                            contract.entry_price,
                            candle.close,
                            take_profit,
                        ) {
                            match fit(contract.close_value(candle.close)) {
                                None => Err(Error::OutOfRange),
                                Some(value) => (RollOnceStrategy {
                                    capital: (self.capital + value) as u64,
                                    contract: None,
                                    ..self
                                }).entered(candle),
                            }
                        } else {
                            self.held(contract, candle, max_draw)
                        },
                    }
                },
            }
        }
    }

    /// The state that a close from outside at `price` leads to.
    pub open spec fn closed(self, price: u64) -> Result<Self, Error> {
        match self.contract {
            None => Ok(RollOnceStrategy { status: RollOnceStatus::Aborted, ..self }),
            Some(contract) => match fit(contract.close_value(price)) {
                None => Err(Error::OutOfRange),
                Some(value) => Ok(
                    RollOnceStrategy {
                        capital: (self.capital + value) as u64,
                        contract: None,
                        status: RollOnceStatus::Aborted,
                        ..self
                    },
                ),
            },
        }
    }

    /// The state that the candles, taken in one after the other, lead to.
    pub open spec fn fed(self, candles: Seq<CandleData>) -> Result<Self, Error>
        decreases candles.len(),
    {
        if candles.len() == 0 {
            Ok(self)
        } else {
            match self.fed(candles.drop_last()) {
                Ok(so_far) => so_far.updated(candles.last()),
                Err(error) => Err(error),
            }
        }
    }

    /// What the last update has done, seen from the level the strategy stood
    /// at before it: the end of the strategy if it has failed or succeeded,
    /// else the entry into a level if the level has risen.
    pub open spec fn event_after(self, level_before: usize) -> RollEvent {
        match self.status {
            RollOnceStatus::Failed => RollEvent::Failed,
            RollOnceStatus::Succeeded => RollEvent::Succeeded,
            _ => if self.level > level_before {
                RollEvent::Entered
            } else {
                RollEvent::Quiet
            },
        }
    }

    /// Computes [`Self::event_after`]; for the log of a run.
    pub fn event_since(&self, level_before: usize) -> (r: RollEvent)
        ensures
            r == self.event_after(level_before),
    {
        match self.status {
            RollOnceStatus::Failed => RollEvent::Failed,
            RollOnceStatus::Succeeded => RollEvent::Succeeded,
            _ => if self.level > level_before {
                RollEvent::Entered
            } else {
                RollEvent::Quiet
            },
        }
    }

    /// A strategy with `capital` to invest, at the foot of the ladder.
    pub fn new(is_long: bool, capital: u64, config: RollConfig) -> (r: Self)
        ensures
            r == (RollOnceStrategy {
                is_long,
                capital,
                ladder: config,
                contract: None,
                level: 0,
                max_value_seen: 0,
                best_price: 0,
                status: RollOnceStatus::Processing,
            }),
            r.wf(),
    {
        RollOnceStrategy {
            is_long,
            capital,
            ladder: config,
            contract: None,
            level: 0,
            max_value_seen: 0,
            best_price: 0,
            status: RollOnceStatus::Processing,
        }
    }

    /// Computes the ladder's stop-loss for a position opened at `close`.
    fn stop_loss_for(is_long: bool, close: u64, leverage: u64) -> (r: Option<u64>)
        requires
            leverage >= SCALE,
        ensures
            r == fit(ladder_stop_loss(is_long, close as int, leverage as int)),
    {
        let distance: u128 = mul_div(close, STOP_LOSS_SHARE, leverage);
        proof {
            lemma_scaled_down(close as int, STOP_LOSS_SHARE as int, leverage as int);
        }
        let buffer: u128 = maintenance_buffer_for(close) as u128;
        let stop: u128 = if is_long {
            close as u128 - distance + buffer
        } else {
            close as u128 + distance - buffer
        };
        if stop > u64::MAX as u128 {
            None
        } else {
            Some(stop as u64)
        }
    }

    /// Enters the next level of the ladder, if one is left.
    fn enter(&mut self, candle: &CandleData) -> (r: Result<(), Error>)
        requires
            old(self).wf(),
            old(self).contract is None,
            old(self).status == RollOnceStatus::Processing,
        ensures
            match old(self).entered(*candle) {
                Ok(next) => r is Ok && *final(self) == next && final(self).wf(),
                Err(error) => r == Err::<(), Error>(error) && *final(self) == *old(self),
            },
    {
        if self.level >= self.ladder.0.len() {
            return Ok(());
        }
        let leverage: u64 = self.ladder.0[self.level].0;
        if leverage < SCALE {
            return Err(Error::InvalidLeverage);
        }
        let stop: u64 = match Self::stop_loss_for(self.is_long, candle.close, leverage) {
            Some(stop) => stop,
            None => {
                return Err(Error::OutOfRange);
            },
        };
        match Contract::open(
            self.is_long,
            candle.close,
            self.capital,
            leverage,
            candle.close_time,
            Some(stop),
        ) {
            Err(error) => Err(error),
            Ok(contract) => {
                self.capital = 0;
                self.contract = Some(contract);
                self.level = self.level + 1;
                Ok(())
            },
        }
    }

    /// Holds `contract` through `candle`.
    fn hold(&mut self, contract: Contract, candle: &CandleData, max_draw: MaxDraw) -> (r: Result<
        (),
        Error,
    >)
        requires
            old(self).wf(),
            old(self).contract == Some(contract),
        ensures
            match old(self).held(contract, *candle, max_draw) {
                Ok(next) => r is Ok && *final(self) == next && final(self).wf(),
                Err(error) => r == Err::<(), Error>(error) && *final(self) == *old(self),
            },
    {
        let at_high: u64 = match contract.close(candle.high) {
            Ok(value) => value,
            Err(_) => {
                return Err(Error::OutOfRange);
            },
        };
        let at_low: u64 = match contract.close(candle.low) {
            Ok(value) => value,
            Err(_) => {
                return Err(Error::OutOfRange);
            },
        };
        let mut best: u64 = self.max_value_seen;
        let mut price: u64 = self.best_price;
        if best < at_high {
            best = at_high;
            price = candle.high;
        }
        if best < at_low {
            best = at_low;
            price = candle.low;
        }
        match max_draw {
            None => {},
            Some(limit) => {
                let value: u64 = match contract.close(candle.close) {
                    Ok(value) => value,
                    Err(_) => {
                        return Err(Error::OutOfRange);
                    },
                };
                if has_fallen_below(value, best, limit) {
                    self.capital = self.capital + value;
                    self.contract = None;
                    self.status = RollOnceStatus::Succeeded;
                }
            },
        }
        self.max_value_seen = best;
        self.best_price = price;
        Ok(())
    }
}

impl Strategy for RollOnceStrategy {
    /// The position, if any, is a well-formed contract of the strategy's
    /// direction that holds all its capital, and belongs to a level of the
    /// ladder; only a strategy that is still processing holds one.
    open spec fn wf(&self) -> bool {
        &&& self.level <= self.ladder.0@.len()
        &&& match self.contract {
            Some(contract) => {
                &&& contract.wf()
                &&& contract.is_long == self.is_long
                &&& self.capital == 0
                &&& self.level >= 1
                &&& self.status == RollOnceStatus::Processing
            },
            None => true,
        }
    }

    /// The free capital plus the margin of the open position, taken at its
    /// entry value rather than marked to market.
    open spec fn worth(&self) -> int {
        self.capital + match self.contract {
            Some(contract) => contract.margin as int,
            None => 0,
        }
    }

    open spec fn is_finished(&self) -> bool {
        self.status != RollOnceStatus::Processing
    }

    open spec fn steps_to(&self, candle: CandleData, next: &Self) -> bool {
        self.updated(candle) == Ok::<Self, Error>(*next)
    }

    open spec fn refuses(&self, candle: CandleData, error: Error) -> bool {
        self.updated(candle) == Err::<Self, Error>(error)
    }

    open spec fn closes_to(&self, price: u64, next: &Self) -> bool {
        self.closed(price) == Ok::<Self, Error>(*next)
    }

    open spec fn refuses_close(&self, price: u64, error: Error) -> bool {
        self.closed(price) == Err::<Self, Error>(error)
    }

    /// Takes in the next candle; see [`RollOnceStrategy::updated`].
    fn update(&mut self, candle: &CandleData) -> (r: Result<(), Error>)
        ensures
            match old(self).updated(*candle) {
                Ok(next) => r is Ok && *final(self) == next,
                Err(error) => r == Err::<(), Error>(error) && *final(self) == *old(self),
            },
    {
        match self.status {
            RollOnceStatus::Processing => {},
            _ => {
                return Ok(());
            },
        }
        let contract: Contract = match self.contract {
            None => {
                return self.enter(candle);
            },
            Some(contract) => contract,
        };
        let level: (Leverage, TakeProfit, MaxDraw) = self.ladder.0[self.level - 1];
        let worst: u64 = if self.is_long {
            candle.low
        } else {
            candle.high
        };
        match contract.liquidate(worst) {
            Some(value) => {
                self.capital = self.capital + value;
                self.contract = None;
                self.status = RollOnceStatus::Failed;
                return Ok(());
            },
            None => {},
        }
        if has_moved_past(self.is_long, contract.entry_price, candle.close, level.1) {
            let value: u64 = match contract.close(candle.close) {
                Ok(value) => value,
                Err(_) => {
                    return Err(Error::OutOfRange);
                },
            };
            self.capital = self.capital + value;
            self.contract = None;
            match self.enter(candle) {
                Ok(()) => Ok(()),
                Err(error) => {
                    self.capital = 0;
                    self.contract = Some(contract);
                    Err(error)
                },
            }
        } else {
            self.hold(contract, candle, level.2)
        }
    }

    /// Closes from outside: realizes the open position, if any, at `price`,
    /// and ends the strategy as aborted.
    fn close(&mut self, price: u64) -> (r: Result<u64, Error>)
        ensures
            match old(self).closed(price) {
                Ok(next) => r == Ok::<u64, Error>(next.capital) && *final(self) == next,
                Err(error) => r == Err::<u64, Error>(error) && *final(self) == *old(self),
            },
    {
        match self.contract {
            None => {},
            Some(contract) => {
                let value: u64 = match contract.close(price) {
                    Ok(value) => value,
                    Err(_) => {
                        return Err(Error::OutOfRange);
                    },
                };
                self.capital = self.capital + value;
                self.contract = None;
            },
        }
        self.status = RollOnceStatus::Aborted;
        Ok(self.capital)
    }

    fn value(&self) -> (r: u64) {
        self.capital + match self.contract {
            Some(contract) => contract.margin,
            None => 0,
        }
    }

    fn finished(&self) -> (r: bool) {
        match self.status {
            RollOnceStatus::Processing => false,
            _ => true,
        }
    }
}

impl RollOnceStrategy {
    /// A strategy that is no longer processing is left as it is by any
    /// candles, and so is what it is worth.
    pub proof fn lemma_finished_stays(self, candles: Seq<CandleData>)
        requires
            self.status != RollOnceStatus::Processing,
        ensures
            self.fed(candles) == Ok::<Self, Error>(self),
        decreases candles.len(),
    {
        if candles.len() > 0 {
            self.lemma_finished_stays(candles.drop_last());
        }
    }

    /// A strategy whose ladder has no levels never opens a position: whatever
    /// the candles, it stays as it is, with the status and the worth it had.
    pub proof fn lemma_empty_ladder_idles(self, candles: Seq<CandleData>)
        requires
            self.wf(),
            self.ladder.0@.len() == 0,
        ensures
            self.contract is None,
            self.fed(candles) == Ok::<Self, Error>(self),
        decreases candles.len(),
    {
        if candles.len() > 0 {
            self.lemma_empty_ladder_idles(candles.drop_last());
        }
    }

    /// Entering a level leaves a strategy that holds no position well-formed.
    proof fn lemma_entered_keeps_wf(self, candle: CandleData)
        requires
            self.wf(),
            self.contract is None,
            self.status == RollOnceStatus::Processing,
        ensures
            self.entered(candle) matches Ok(next) ==> next.wf(),
    {
        if self.level < self.ladder.0@.len() {
            assert(self.ladder.0@.len() == self.ladder.0.len());
            let leverage = self.ladder.0@[self.level as int].0;
            match fit(ladder_stop_loss(self.is_long, candle.close as int, leverage as int)) {
                Some(stop) => {
                    lemma_opened_is_well_formed(
                        self.is_long,
                        candle.close,
                        self.capital,
                        leverage,
                        candle.close_time,
                        Some(stop),
                    );
                },
                None => {},
            }
        }
    }

    /// A candle leaves a well-formed strategy well-formed.
    pub proof fn lemma_updated_keeps_wf(self, candle: CandleData)
        requires
            self.wf(),
        ensures
            self.updated(candle) matches Ok(next) ==> next.wf(),
    {
        if self.status == RollOnceStatus::Processing {
            match self.contract {
                None => {
                    self.lemma_entered_keeps_wf(candle);
                },
                Some(contract) => {
                    match fit(contract.close_value(candle.close)) {
                        Some(value) => {
                            let realized = RollOnceStrategy {
                                capital: (self.capital + value) as u64,
                                contract: None,
                                ..self
                            };
                            realized.lemma_entered_keeps_wf(candle);
                        },
                        None => {},
                    }
                },
            }
        }
    }

    /// Any series of candles leaves a well-formed strategy well-formed.
    pub proof fn lemma_fed_keeps_wf(self, candles: Seq<CandleData>)
        requires
            self.wf(),
        ensures
            self.fed(candles) matches Ok(end) ==> end.wf(),
        decreases candles.len(),
    {
        if candles.len() > 0 {
            self.lemma_fed_keeps_wf(candles.drop_last());
            match self.fed(candles.drop_last()) {
                Ok(so_far) => {
                    so_far.lemma_updated_keeps_wf(candles.last());
                },
                Err(_) => {},
            }
        }
    }

    /// The ladder's stop-loss is never beyond the liquidation price of the
    /// position it is set for: it is kept, and fires first.
    pub proof fn lemma_ladder_stop_loss_is_kept(is_long: bool, close: u64, leverage: u64)
        requires
            leverage >= SCALE,
        ensures
            !crossed(
                is_long,
                ladder_stop_loss(is_long, close as int, leverage as int),
                liquidation_price_of(is_long, close as int, leverage as int),
            ),
    {
        vstd::arithmetic::div_mod::lemma_div_is_ordered(
            close * STOP_LOSS_SHARE,
            close * SCALE,
            leverage as int,
        );
    }

    /// The driver's relation between the state before a series of candles and
    /// the state after it is, for a ladder strategy, the function
    /// [`Self::fed`]: the candles determine the outcome.
    pub proof fn lemma_feeds_to_is_fed(self, candles: Seq<CandleData>, end: Self)
        requires
            feeds_to(self, candles, end),
        ensures
            self.fed(candles) == Ok::<Self, Error>(end),
        decreases candles.len(),
    {
        if candles.len() > 0 {
            let mid = choose|mid: Self|
                #![trigger moves_on(mid, candles.last(), end)]
                feeds_to(self, candles.drop_last(), mid) && moves_on(mid, candles.last(), end);
            self.lemma_feeds_to_is_fed(candles.drop_last(), mid);
        }
    }
}

/// The number of candles that a judgement over `size` candles looks at: `size`,
/// or all there are if there are fewer.
pub open spec fn window(held: nat, size: usize) -> int {
    if size <= held {
        size as int
    } else {
        held as int
    }
}

/// Among the first `n` candles, `candles[i]` has the highest high, and is the
/// last that has it.
pub open spec fn is_last_highest(candles: Seq<CandleData>, n: int, i: int) -> bool {
    &&& 0 <= i < n
    &&& forall|j: int| 0 <= j < n ==> candles[j].high <= candles[i].high
    &&& forall|j: int| i < j < n ==> candles[j].high < candles[i].high
}

/// Among the first `n` candles, `candles[i]` has the lowest low, and is the
/// first that has it.
pub open spec fn is_first_lowest(candles: Seq<CandleData>, n: int, i: int) -> bool {
    &&& 0 <= i < n
    &&& forall|j: int| 0 <= j < n ==> candles[i].low <= candles[j].low
    &&& forall|j: int| 0 <= j < i ==> candles[i].low < candles[j].low
}

/// The latest candles, newest first, and which of them stands out.
pub struct RollJudge {
    /// The candles kept, newest first.
    pub cache: VecDeque<CandleData>,
    /// The number of candles to keep.
    pub max_length: usize,
}

impl RollJudge {
    /// A judge that keeps `max_length` candles, and holds none yet.
    pub fn new(max_length: usize) -> (r: Self)
        ensures
            r.max_length == max_length,
            r.cache@ == Seq::<CandleData>::empty(),
    {
        let cache: VecDeque<CandleData> = VecDeque::with_capacity(max_length);
        RollJudge { cache, max_length }
    }

    /// What the judge keeps once it has taken in `candle`: the new candle in
    /// front, and the oldest one gone if the judge was full.
    pub open spec fn updated(self, candle: CandleData) -> Seq<CandleData> {
        seq![candle] + if self.cache@.len() >= self.max_length && self.cache@.len() > 0 {
            self.cache@.drop_last()
        } else {
            self.cache@
        }
    }

    /// Takes in the next candle.
    pub fn update(&mut self, candle: &CandleData)
        ensures
            final(self).max_length == old(self).max_length,
            final(self).cache@ == old(self).updated(*candle),
    {
        if self.cache.len() >= self.max_length {
            self.cache.pop_back();
        }
        self.cache.push_front(*candle);
    }

    /// The candle with the highest high among the latest `size`; of several
    /// such, the oldest.
    pub fn max(&self, size: usize) -> (r: CandleData)
        requires
            size > 0,
            self.cache@.len() > 0,
        ensures
            exists|i: int|
                is_last_highest(self.cache@, window(self.cache@.len(), size), i) && r
                    == self.cache@[i],
    {
        let n: usize = if size <= self.cache.len() {
            size
        } else {
            self.cache.len()
        };
        let mut best: usize = 0;
        let mut j: usize = 1;
        while j < n
            invariant
                1 <= j <= n <= self.cache@.len(),
                is_last_highest(self.cache@, j as int, best as int),
            decreases n - j,
        {
            if self.cache[j].high >= self.cache[best].high {
                best = j;
            }
            j = j + 1;
        }
        self.cache[best]
    }

    /// The candle with the lowest low among the latest `size`; of several
    /// such, the newest.
    pub fn min(&self, size: usize) -> (r: CandleData)
        requires
            size > 0,
            self.cache@.len() > 0,
        ensures
            exists|i: int|
                is_first_lowest(self.cache@, window(self.cache@.len(), size), i) && r
                    == self.cache@[i],
    {
        let n: usize = if size <= self.cache.len() {
            size
        } else {
            self.cache.len()
        };
        let mut best: usize = 0;
        let mut j: usize = 1;
        while j < n
            invariant
                1 <= j <= n <= self.cache@.len(),
                is_first_lowest(self.cache@, j as int, best as int),
            decreases n - j,
        {
            if self.cache[j].low < self.cache[best].low {
                best = j;
            }
            j = j + 1;
        }
        self.cache[best]
    }

    /// Whether the newest candle closes when the one found by [`Self::max`] does.
    pub fn is_max(&self, size: usize) -> (r: bool)
        requires
            size > 0,
            self.cache@.len() > 0,
        ensures
            exists|i: int|
                is_last_highest(self.cache@, window(self.cache@.len(), size), i) && r == (
                self.cache@[0].close_time == self.cache@[i].close_time),
    {
        let found: CandleData = self.max(size);
        self.cache[0].close_time == found.close_time
    }

    /// Whether the newest candle closes when the one found by [`Self::min`] does.
    pub fn is_min(&self, size: usize) -> (r: bool)
        requires
            size > 0,
            self.cache@.len() > 0,
        ensures
            exists|i: int|
                is_first_lowest(self.cache@, window(self.cache@.len(), size), i) && r == (
                self.cache@[0].close_time == self.cache@[i].close_time),
    {
        let found: CandleData = self.min(size);
        self.cache[0].close_time == found.close_time
    }
}

} // verus!
