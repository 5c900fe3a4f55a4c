//! The periodic strategy: at fixed intervals, a fixed share of the capital
//! goes into a new position, and capital that has fallen below a floor is
//! topped up from a pool shared with other strategies.

use vstd::prelude::*;
use crate::backtest::candle_chart::CandleData;
use crate::backtest::capital_pool::CapitalPool;
use crate::backtest::contract::{
    lemma_opened_is_well_formed, opened, Contract, HANDLING_FEE_RATE_MAKER,
};
use crate::backtest::strategy::{has_moved_past, moved_past, Strategy};
use crate::error::Error;
use crate::fixed::{fit, lemma_scaled_down, mul_div, SCALE, SCALE_SQUARED};

verus! {

/// A periodic strategy: its parameters, its ledger, and the position it holds, if any.
#[derive(Debug, Clone)]
pub struct GeoStrategy {
    /// `true` if the strategy goes long, `false` if it goes short.
    pub is_long: bool,
    /// Leverage of every position.
    pub leverage: u64,
    /// Time between two openings; also the least age of a position that
    /// takes its profit.
    pub reopen_interval: i64,
    /// Share of the capital that goes into each position.
    pub position_ratio: u64,
    /// Capital is topped up to this amount before a position is opened.
    pub min_capital_floor: u64,
    /// Distance of the stop-loss from the entry price, as a ratio of it.
    pub stop_loss_ratio: u64,
    /// Distance of the profit target from the entry price, as a ratio of it.
    pub take_profit_ratio: u64,
    /// The open position, if any.
    pub position: Option<Contract>,
    /// Capital not bound in a position.
    pub capital: u64,
    /// Capital set aside for top-ups; used up before the pool is drawn on.
    pub borrowed_stake: u64,
    /// Everything drawn from the pool so far.
    pub cumulative_cost: u64,
    /// Number of positions opened so far.
    pub open_count: i64,
    /// When the last position was opened.
    pub last_open_time: i64,
    /// The pool that top-ups are drawn from.
    pub shared_pool: CapitalPool,
}

/// What a candle asks of a strategy: the ledger it leads to, and the amount
/// that must first be drawn from the pool.
#[derive(Debug, Clone, Copy)]
pub struct GeoPlan {
    /// The position held afterwards.
    pub position: Option<Contract>,
    /// The free capital afterwards.
    pub capital: u64,
    /// The stake afterwards.
    pub borrowed_stake: u64,
    /// Everything drawn from the pool, this draw included.
    pub cumulative_cost: u64,
    /// The number of positions opened, a new one included.
    pub open_count: i64,
    /// When the last position was opened, a new one included.
    pub last_open_time: i64,
    /// The amount to draw from the pool; zero if the pool is not needed.
    pub draw: u64,
}

/// The stop-loss of a position opened at `close`: `(1 - ratio) * close` for a
/// long position, `(1 + ratio) * close` for a short one. A long position whose
/// ratio exceeds one has none: its stop-loss would lie below zero.
pub open spec fn stop_loss_at(is_long: bool, close: u64, ratio: u64) -> Option<int> {
    if is_long {
        if ratio > SCALE {
            None
        } else {
            Some(close * (SCALE - ratio) / (SCALE as int))
        }
    } else {
        Some(close * (SCALE + ratio) / (SCALE as int))
    }
}

impl GeoStrategy {
    /// The ledger as a plan that draws nothing.
    pub open spec fn unchanged(self) -> GeoPlan {
        GeoPlan {
            position: self.position,
            capital: self.capital,
            borrowed_stake: self.borrowed_stake,
            cumulative_cost: self.cumulative_cost,
            open_count: self.open_count,
            last_open_time: self.last_open_time,
            draw: 0,
        }
    }

    /// The strategy with the ledger of `plan`.
    pub open spec fn committed(self, plan: GeoPlan) -> Self {
        GeoStrategy {
            position: plan.position,
            capital: plan.capital,
            borrowed_stake: plan.borrowed_stake,
            cumulative_cost: plan.cumulative_cost,
            open_count: plan.open_count,
            last_open_time: plan.last_open_time,
            ..self
        }
    }

    /// The strategy after its position was realized at `value`.
    pub open spec fn credited(self, value: int) -> Result<Self, Error> {
        if self.capital + value + self.borrowed_stake > u64::MAX {
            Err(Error::OutOfRange)
        } else {
            Ok(GeoStrategy { position: None, capital: (self.capital + value) as u64, ..self })
        }
    }

    /// First half of an update: what becomes of the open position. It is
    /// lost if the candle's worst price forces an exit; realized at the close
    /// if it is at least `reopen_interval` old and the close has reached the
    /// profit target; and held otherwise, however old it is.
    pub open spec fn settled(self, candle: CandleData) -> Result<Self, Error> {
        match self.position {
            None => Ok(self),
            Some(contract) => {
                let worst = if self.is_long {
                    candle.low
                } else {
                    candle.high
                };
                match contract.liquidation_value(worst) {
                    Some(value) => self.credited(value),
                    None => if contract.open_time + self.reopen_interval <= candle.close_time
                        && moved_past(
                        self.is_long,
                        contract.entry_price,
                        candle.close,
                        self.take_profit_ratio,
                    ) {
                        match fit(contract.close_value(candle.close)) {
                            None => Err(Error::OutOfRange),
                            Some(value) => self.credited(value as int),
                        }
                    } else {
                        Ok(self)
                    },
                }
            },
        }
    }

    /// A position is due at `candle`: none is held, and the last one was
    /// opened at least `reopen_interval` ago.
    pub open spec fn is_due(self, candle: CandleData) -> bool {
        self.position is None && self.last_open_time + self.reopen_interval <= candle.close_time
    }

    /// What the capital lacks to reach the floor.
    pub open spec fn shortfall(self) -> int {
        if self.capital < self.min_capital_floor {
            self.min_capital_floor - self.capital
        } else {
            0
        }
    }

    /// What the stake does not cover of the shortfall, and the pool must.
    pub open spec fn draw_needed(self) -> int {
        if self.borrowed_stake < self.shortfall() {
            self.shortfall() - self.borrowed_stake
        } else {
            0
        }
    }

    /// The strategy after its capital was brought up to the floor, from the
    /// stake first and from the pool for the rest.
    pub open spec fn topped_up(self) -> Result<Self, Error> {
        if self.cumulative_cost + self.draw_needed() > u64::MAX {
            Err(Error::OutOfRange)
        } else {
            Ok(
                GeoStrategy {
                    capital: (self.capital + self.shortfall()) as u64,
                    borrowed_stake: (self.borrowed_stake + self.draw_needed()
                        - self.shortfall()) as u64,
                    cumulative_cost: (self.cumulative_cost + self.draw_needed()) as u64,
                    ..self
                },
            )
        }
    }

    /// The capital that goes into a new position: `capital * position_ratio`.
    pub open spec fn stake_for_position(self) -> int {
        self.capital * self.position_ratio / (SCALE as int)
    }

    /// The strategy after it opened a position at the close of `candle`.
    pub open spec fn reopened(self, candle: CandleData) -> Result<Self, Error> {
        let stop_loss = stop_loss_at(self.is_long, candle.close, self.stop_loss_ratio);
        let offered = self.stake_for_position();
        if stop_loss matches Some(stop) && stop > u64::MAX {
            Err(Error::OutOfRange)
        } else if offered > self.capital {
            Err(Error::OutOfRange)
        } else {
            match opened(
                self.is_long,
                candle.close,
                offered as u64,
                self.leverage,
                candle.close_time,
                match stop_loss {
                    Some(stop) => Some(stop as u64),
                    None => None,
                },
            ) {
                Err(error) => Err(error),
                Ok(contract) => if self.open_count == i64::MAX {
                    Err(Error::OutOfRange)
                } else {
                    Ok(
                        GeoStrategy {
                            position: Some(contract),
                            capital: (self.capital - offered) as u64,
                            last_open_time: candle.close_time,
                            open_count: (self.open_count + 1) as i64,
                            ..self
                        },
                    )
                },
            }
        }
    }

    /// What `candle` asks of the strategy: the open position is settled, and
    /// if a position is then due, the capital is topped up and one is opened.
    pub open spec fn planned(self, candle: CandleData) -> Result<GeoPlan, Error> {
        match self.settled(candle) {
            Err(error) => Err(error),
            Ok(settled) => if !settled.is_due(candle) {
                Ok(settled.unchanged())
            } else {
                match settled.topped_up() {
                    Err(error) => Err(error),
                    Ok(funded) => match funded.reopened(candle) {
                        Err(error) => Err(error),
                        Ok(next) => Ok(
                            GeoPlan { draw: settled.draw_needed() as u64, ..next.unchanged() },
                        ),
                    },
                }
            },
        }
    }

    /// The state that `candle` leads to when the pool's answer to a draw is
    /// `granted`: the planned one, unless a draw was needed and refused.
    pub open spec fn advanced(self, candle: CandleData, granted: bool) -> Result<Self, Error> {
        match self.planned(candle) {
            Err(error) => Err(error),
            Ok(plan) => if plan.draw > 0 && !granted {
                Err(Error::InsufficientPool)
            } else {
                Ok(self.committed(plan))
            },
        }
    }

    /// The state that a close from outside at `price` leads to.
    pub open spec fn closed(self, price: u64) -> Result<Self, Error> {
        match self.position {
            None => Ok(self),
            Some(contract) => match fit(contract.close_value(price)) {
                None => Err(Error::OutOfRange),
                Some(value) => self.credited(value as int),
            },
        }
    }

    /// Whether a profit target of `take_profit_ratio` is too small to pay for
    /// the fees of opening and closing, so that taking it loses money.
    pub open spec fn target_below_fees(take_profit_ratio: u64) -> bool {
        take_profit_ratio < HANDLING_FEE_RATE_MAKER * 2
    }

    /// Decides [`Self::target_below_fees`].
    pub fn is_target_below_fees(take_profit_ratio: u64) -> (r: bool)
        ensures
            r == Self::target_below_fees(take_profit_ratio),
    {
        take_profit_ratio < HANDLING_FEE_RATE_MAKER * 2
    }

    /// A strategy with no capital and no position, which draws on `total_capital`.
    pub fn new(
        is_long: bool,
        leverage: u64,
        ratio: u64,
        interval: i64,
        supply: u64,
        stop_loss_ratio: u64,
        take_profit_ratio: u64,
        total_capital: CapitalPool,
    ) -> (r: Self)
        ensures
            r == (GeoStrategy {
                is_long,
                leverage,
                reopen_interval: interval,
                position_ratio: ratio,
                min_capital_floor: supply,
                stop_loss_ratio,
                take_profit_ratio,
                position: None,
                capital: 0,
                borrowed_stake: 0,
                cumulative_cost: 0,
                open_count: 0,
                last_open_time: 0,
                shared_pool: total_capital,
            }),
            r.wf(),
    {
        GeoStrategy {
            is_long,
            leverage,
            reopen_interval: interval,
            position_ratio: ratio,
            min_capital_floor: supply,
            stop_loss_ratio,
            take_profit_ratio,
            position: None,
            capital: 0,
            borrowed_stake: 0,
            cumulative_cost: 0,
            open_count: 0,
            last_open_time: 0,
            shared_pool: total_capital,
        }
    }

    /// Whether `since + reopen_interval` has passed at `now`.
    fn interval_passed(&self, since: i64, now: i64) -> (r: bool)
        ensures
            r == (since + self.reopen_interval <= now),
    {
        since as i128 + self.reopen_interval as i128 <= now as i128
    }

    /// The free capital after a position was realized at `value`.
    fn credit(&self, value: u64) -> (r: Result<u64, Error>)
        ensures
            match self.credited(value as int) {
                Ok(next) => r == Ok::<u64, Error>(next.capital),
                Err(error) => r == Err::<u64, Error>(error),
            },
    {
        let total: u128 = self.capital as u128 + value as u128 + self.borrowed_stake as u128;
        if total > u64::MAX as u128 {
            Err(Error::OutOfRange)
        } else {
            Ok(self.capital + value)
        }
    }

    /// Computes the stop-loss of a position opened at `close`.
    fn stop_loss_for(&self, close: u64) -> (r: Result<Option<u64>, Error>)
        ensures
            match stop_loss_at(self.is_long, close, self.stop_loss_ratio) {
                None => r == Ok::<Option<u64>, Error>(None),
                Some(stop) => if stop > u64::MAX {
                    r == Err::<Option<u64>, Error>(Error::OutOfRange)
                } else {
                    r == Ok::<Option<u64>, Error>(Some(stop as u64))
                },
            },
    {
        if self.is_long {
            if self.stop_loss_ratio > SCALE {
                Ok(None)
            } else {
                let stop: u128 = mul_div(close, SCALE - self.stop_loss_ratio, SCALE);
                proof {
                    if self.stop_loss_ratio < SCALE {
                        lemma_scaled_down(
                            close as int,
                            SCALE - self.stop_loss_ratio,
                            SCALE as int,
                        );
                    } else {
                        assert(close * (SCALE - self.stop_loss_ratio) == 0) by (nonlinear_arith)
                            requires
                                SCALE - self.stop_loss_ratio == 0,
                        ;
                    }
                }
                Ok(Some(stop as u64))
            }
        } else {
            let factor: u128 = SCALE as u128 + self.stop_loss_ratio as u128;
            match (close as u128).checked_mul(factor) {
                None => {
                    proof {
                        vstd::arithmetic::div_mod::lemma_div_is_ordered(
                            u128::MAX as int,
                            close * factor,
                            SCALE as int,
                        );
                    }
                    Err(Error::OutOfRange)
                },
                Some(product) => {
                    let stop: u128 = product / (SCALE as u128);
                    if stop > u64::MAX as u128 {
                        Err(Error::OutOfRange)
                    } else {
                        Ok(Some(stop as u64))
                    }
                },
            }
        }
    }

    /// Works out what `candle` asks of the strategy.
    fn plan(&self, candle: &CandleData) -> (r: Result<GeoPlan, Error>)
        requires
            self.wf(),
        ensures
            r == self.planned(*candle),
            r matches Ok(plan) ==> self.committed(plan).wf(),
    {
        let mut position: Option<Contract> = self.position;
        let mut capital: u64 = self.capital;
        match self.position {
            None => {},
            Some(contract) => {
                let worst: u64 = if self.is_long {
                    candle.low
                } else {
                    candle.high
                };
                match contract.liquidate(worst) {
                    Some(value) => {
                        capital = match self.credit(value) {
                            Ok(capital) => capital,
                            Err(error) => {
                                return Err(error);
                            },
                        };
                        position = None;
                    },
                    None => {
                        if self.interval_passed(contract.open_time, candle.close_time)
                            && has_moved_past(
                            self.is_long,
                            contract.entry_price,
                            candle.close,
                            self.take_profit_ratio,
                        ) {
                            let value: u64 = match contract.close(candle.close) {
                                Ok(value) => value,
                                Err(_) => {
                                    return Err(Error::OutOfRange);
                                },
                            };
                            capital = match self.credit(value) {
                                Ok(capital) => capital,
                                Err(error) => {
                                    return Err(error);
                                },
                            };
                            position = None;
                        }
                    },
                }
            },
        }
        let ghost settled = self.settled(*candle).unwrap();
        assert(settled.position == position && settled.capital == capital);
        if position.is_some() || !self.interval_passed(self.last_open_time, candle.close_time) {
            return Ok(
                GeoPlan {
                    position,
                    capital,
                    borrowed_stake: self.borrowed_stake,
                    cumulative_cost: self.cumulative_cost,
                    open_count: self.open_count,
                    last_open_time: self.last_open_time,
                    draw: 0,
                },
            );
        }
        let mut stake: u64 = self.borrowed_stake;
        let mut cost: u64 = self.cumulative_cost;
        let mut draw: u64 = 0;
        if capital < self.min_capital_floor {
            let shortfall: u64 = self.min_capital_floor - capital;
            if stake < shortfall {
                draw = shortfall - stake;
                cost = match cost.checked_add(draw) {
                    Some(cost) => cost,
                    None => {
                        return Err(Error::OutOfRange);
                    },
                };
                stake = shortfall;
            }
            stake = stake - shortfall;
            capital = self.min_capital_floor;
        }
        let stop_loss: Option<u64> = match self.stop_loss_for(candle.close) {
            Ok(stop_loss) => stop_loss,
            Err(error) => {
                return Err(error);
            },
        };
        let offered: u128 = mul_div(capital, self.position_ratio, SCALE);
        if offered > capital as u128 {
            return Err(Error::OutOfRange);
        }
        let offered: u64 = offered as u64;
        let contract: Contract = match Contract::open(
            self.is_long,
            candle.close,
            offered,
            self.leverage,
            candle.close_time,
            stop_loss,
        ) {
            Ok(contract) => contract,
            Err(error) => {
                return Err(error);
            },
        };
        if self.open_count == i64::MAX {
            return Err(Error::OutOfRange);
        }
        proof {
            lemma_scaled_down(
                offered as int,
                SCALE_SQUARED as int,
                SCALE_SQUARED + self.leverage * HANDLING_FEE_RATE_MAKER,
            );
        }
        Ok(
            GeoPlan {
                position: Some(contract),
                capital: capital - offered,
                borrowed_stake: stake,
                cumulative_cost: cost,
                open_count: self.open_count + 1,
                last_open_time: candle.close_time,
                draw,
            },
        )
    }

    /// Takes in the next candle, given the pool's answer to the draw that the
    /// candle may ask for: `granted` says whether the pool paid. Where the
    /// candle asks for no draw, `granted` is of no account.
    pub fn advance(&mut self, candle: &CandleData, granted: bool) -> (r: Result<(), Error>)
        requires
            old(self).wf(),
        ensures
            final(self).wf(),
            match old(self).advanced(*candle, granted) {
                Ok(next) => r is Ok && *final(self) == next,
                Err(error) => r == Err::<(), Error>(error) && *final(self) == *old(self),
            },
    {
        let plan: GeoPlan = match self.plan(candle) {
            Ok(plan) => plan,
            Err(error) => {
                return Err(error);
            },
        };
        if plan.draw > 0 && !granted {
            return Err(Error::InsufficientPool);
        }
        self.commit(plan);
        Ok(())
    }

    /// Takes over the ledger of `plan`.
    fn commit(&mut self, plan: GeoPlan)
        ensures
            *final(self) == old(self).committed(plan),
    {
        self.position = plan.position;
        self.capital = plan.capital;
        self.borrowed_stake = plan.borrowed_stake;
        self.cumulative_cost = plan.cumulative_cost;
        self.open_count = plan.open_count;
        self.last_open_time = plan.last_open_time;
    }
}

impl GeoStrategy {
    /// A top-up books what it draws: the capital reaches the floor, capital
    /// and stake together grow by the draw, and so does the cumulative cost.
    pub proof fn lemma_top_up_books_the_draw(self)
        ensures
            self.topped_up() matches Ok(funded) ==> {
                &&& funded.capital >= self.min_capital_floor
                &&& funded.capital + funded.borrowed_stake == self.capital + self.borrowed_stake
                    + self.draw_needed()
                &&& funded.cumulative_cost == self.cumulative_cost + self.draw_needed()
                &&& funded.position == self.position
            },
    {
    }

    /// A draw that the pool refuses opens nothing: the update fails, and
    /// [`Strategy::update`] then leaves the strategy as it was.
    pub proof fn lemma_refused_draw_opens_nothing(self, candle: CandleData)
        requires
            self.planned(candle) matches Ok(plan) && plan.draw > 0,
        ensures
            self.advanced(candle, false) == Err::<Self, Error>(Error::InsufficientPool),
            self.refuses(candle, Error::InsufficientPool),
    {
    }

    /// What a candle asks of a well-formed strategy leaves it well-formed,
    /// and asks the pool for no more than the capital lacks to reach the floor.
    pub proof fn lemma_planned_keeps_wf(self, candle: CandleData)
        requires
            self.wf(),
        ensures
            self.planned(candle) matches Ok(plan) ==> self.committed(plan).wf() && plan.draw
                <= self.min_capital_floor,
    {
        match self.position {
            Some(contract) => {
                contract.lemma_close_value_nonnegative(candle.close);
                let worst = if self.is_long {
                    candle.low
                } else {
                    candle.high
                };
                if contract.liquidation_value(worst) is Some {
                    contract.lemma_forced_exit_value(worst);
                }
            },
            None => {},
        }
        match self.settled(candle) {
            Ok(settled) => {
                if settled.is_due(candle) {
                    match settled.topped_up() {
                        Ok(funded) => {
                            let offered = funded.stake_for_position();
                            if offered <= funded.capital {
                                lemma_opened_is_well_formed(
                                    funded.is_long,
                                    candle.close,
                                    offered as u64,
                                    funded.leverage,
                                    candle.close_time,
                                    match stop_loss_at(
                                        funded.is_long,
                                        candle.close,
                                        funded.stop_loss_ratio,
                                    ) {
                                        Some(stop) => Some(stop as u64),
                                        None => None,
                                    },
                                );
                            }
                        },
                        Err(_) => {},
                    }
                }
            },
            Err(_) => {},
        }
    }
}

impl Strategy for GeoStrategy {
    /// The position, if any, is a well-formed contract of the strategy's
    /// direction, and the strategy's worth fits 64 bits.
    open spec fn wf(&self) -> bool {
        &&& self.worth() <= u64::MAX
        &&& match self.position {
            Some(contract) => contract.wf() && contract.is_long == self.is_long,
            None => true,
        }
    }

    /// The free capital, the stake, and the margin of the open position,
    /// taken at its entry value rather than marked to market.
    open spec fn worth(&self) -> int {
        self.capital + self.borrowed_stake + match self.position {
            Some(contract) => contract.margin as int,
            None => 0,
        }
    }

    /// A periodic strategy goes on for as long as there are candles.
    open spec fn is_finished(&self) -> bool {
        false
    }

    open spec fn steps_to(&self, candle: CandleData, next: &Self) -> bool {
        self.planned(candle) matches Ok(plan) && *next == self.committed(plan)
    }

    open spec fn refuses(&self, candle: CandleData, error: Error) -> bool {
        match self.planned(candle) {
            Err(planned) => error == planned,
            Ok(plan) => plan.draw > 0 && error == Error::InsufficientPool,
        }
    }

    open spec fn closes_to(&self, price: u64, next: &Self) -> bool {
        self.closed(price) == Ok::<Self, Error>(*next)
    }

    open spec fn refuses_close(&self, price: u64, error: Error) -> bool {
        self.closed(price) == Err::<Self, Error>(error)
    }

    /// Takes in the next candle; see [`GeoStrategy::planned`]. Where the plan
    /// asks for a draw, the pool is asked for it once all else is settled, so
    /// that nothing is drawn for a candle that fails; if the pool refuses, the
    /// update fails with [`Error::InsufficientPool`] and opens nothing.
    fn update(&mut self, candle: &CandleData) -> (r: Result<(), Error>)
        ensures
            match old(self).planned(*candle) {
                Err(error) => r == Err::<(), Error>(error) && *final(self) == *old(self),
                Ok(plan) => (r is Ok && *final(self) == old(self).committed(plan)) || (plan.draw
                    > 0 && r == Err::<(), Error>(Error::InsufficientPool) && *final(self) == *old(
                    self))
            },
    {
        let plan: GeoPlan = match self.plan(candle) {
            Ok(plan) => plan,
            Err(error) => {
                return Err(error);
            },
        };
        if plan.draw > 0 {
            match self.shared_pool.try_withdraw(plan.draw) {
                Ok(_) => {},
                Err(_) => {
                    return Err(Error::InsufficientPool);
                },
            }
        }
        self.commit(plan);
        Ok(())
    }

    /// Closes from outside: realizes the open position, if any, at `price`.
    fn close(&mut self, price: u64) -> (r: Result<u64, Error>)
        ensures
            match old(self).closed(price) {
                Ok(next) => r == Ok::<u64, Error>(next.worth() as u64) && *final(self) == next,
                Err(error) => r == Err::<u64, Error>(error) && *final(self) == *old(self),
            },
    {
        match self.position {
            None => {},
            Some(contract) => {
                let value: u64 = match contract.close(price) {
                    Ok(value) => value,
                    Err(_) => {
                        return Err(Error::OutOfRange);
                    },
                };
                let capital: u64 = match self.credit(value) {
                    Ok(capital) => capital,
                    Err(error) => {
                        return Err(error);
                    },
                };
                self.capital = capital;
                self.position = None;
            },
        }
        Ok(self.value())
    }

    fn value(&self) -> (r: u64) {
        match self.position {
            Some(contract) => contract.margin + self.capital + self.borrowed_stake,
            None => self.capital + self.borrowed_stake,
        }
    }

    fn finished(&self) -> (r: bool) {
        false
    }
}

} // verus!
