use hurribot::backtest::candle_chart::CandleData;
use hurribot::backtest::capital_pool::{take_from, CapitalPool};
use hurribot::backtest::strategy::geo_strategy::GeoStrategy;
use hurribot::backtest::strategy::roll_strategy::{RollConfig, RollOnceStatus, RollOnceStrategy};
use hurribot::backtest::strategy::{has_fallen_below, has_moved_past, run, Strategy};
use hurribot::error::Error;
use hurribot::fixed::{mul_div, SCALE, SCALE_SQUARED};
use hurribot::market::{MarketOrderRequest, MarketRequest};
use hurribot::utils::truncate_step;

const ONE: u64 = SCALE;
const MINUTE: i64 = 60_000;

fn flat(at: u64, open_time: i64) -> CandleData {
    CandleData {
        open: at,
        close: at,
        high: at,
        low: at,
        volume: 0,
        open_time,
        close_time: open_time + MINUTE,
    }
}

#[test]
fn scratch() {
    let _price = 1.;
    let steps = 1000;
    let x = 2.0f64.powf(1. / steps as f64);
    println!("x: {}", x.powf(1000.));
}

#[test]
fn mul_div_rounds_down_and_does_not_overflow() {
    assert_eq!(SCALE_SQUARED, SCALE as u128 * SCALE as u128);
    assert_eq!(mul_div(7, 3, 2), 10);
    assert_eq!(mul_div(0, 3, 2), 0);
    assert_eq!(mul_div(u64::MAX, u64::MAX, 1), u64::MAX as u128 * u64::MAX as u128);
    assert_eq!(mul_div(u64::MAX, u64::MAX, u64::MAX), u64::MAX as u128);
}

#[test]
fn truncate_step_rounds_down_to_a_multiple() {
    assert_eq!(truncate_step(1_234_567, 1_000), Some(1_234_000));
    assert_eq!(truncate_step(1_234_000, 1_000), Some(1_234_000));
    assert_eq!(truncate_step(999, 1_000), Some(0));
    assert_eq!(truncate_step(0, 7), Some(0));
    assert_eq!(truncate_step(u64::MAX, 1), Some(u64::MAX));
    assert_eq!(truncate_step(u64::MAX, u64::MAX), Some(u64::MAX));
    assert_eq!(truncate_step(10, 3), Some(9));
}

#[test]
fn truncate_step_has_no_answer_for_a_step_of_zero() {
    assert_eq!(truncate_step(5, 0), None);
    assert_eq!(truncate_step(0, 0), None);
}

#[test]
fn an_order_request_keeps_what_it_is_given() {
    let r = MarketOrderRequest::new("BTCUSDT".to_string(), true, 5 * ONE, ONE / 2, 2 * ONE)
        .ok()
        .unwrap();
    assert_eq!(r.symbol, "BTCUSDT");
    assert!(r.is_buy);
    assert_eq!(r.value, 5 * ONE);
    assert_eq!(r.low_limit, ONE / 2);
    assert_eq!(r.high_limit, 2 * ONE);
    match MarketRequest::Order(r) {
        MarketRequest::Order(inner) => assert_eq!(inner.value, 5 * ONE),
        _ => unreachable!(),
    }
}

#[test]
fn an_order_request_is_checked() {
    let make = |value, low, high| {
        MarketOrderRequest::new("X".to_string(), false, value, low, high).err()
    };
    assert_eq!(make(0, ONE / 2, 2 * ONE), Some(Error::NonPositiveValue));
    assert_eq!(make(1, 0, 2 * ONE), Some(Error::LowLimitOutOfRange));
    assert_eq!(make(1, ONE, 2 * ONE), Some(Error::LowLimitOutOfRange));
    assert_eq!(make(1, ONE + 5, 2 * ONE), Some(Error::LowLimitOutOfRange));
    assert_eq!(make(1, ONE - 1, ONE), Some(Error::HighLimitTooLow));
    assert_eq!(make(1, 1, 0), Some(Error::HighLimitTooLow));
    assert_eq!(make(1, 1, ONE + 1), None);
    // The first fault is the one named.
    assert_eq!(make(0, 0, 0), Some(Error::NonPositiveValue));
    assert_eq!(make(1, 0, 0), Some(Error::LowLimitOutOfRange));
}

#[test]
fn a_withdrawal_takes_the_amount_from_the_pool() {
    let pool = CapitalPool::new(100);
    assert_eq!(pool.balance(), 100);
    assert_eq!(pool.try_withdraw(30), Ok(100));
    assert_eq!(pool.balance(), 70);
    assert_eq!(pool.try_withdraw(80), Err(70));
    assert_eq!(pool.balance(), 70);
    assert_eq!(pool.try_withdraw(70), Ok(70));
    assert_eq!(pool.balance(), 0);
    assert_eq!(pool.try_withdraw(0), Ok(0));
    assert_eq!(pool.try_withdraw(1), Err(0));
}

#[test]
fn clones_of_a_pool_share_its_balance() {
    let pool = CapitalPool::new(10);
    let other = pool.clone();
    assert_eq!(other.try_withdraw(4), Ok(10));
    assert_eq!(pool.balance(), 6);
    let separate = CapitalPool::new(10);
    assert_eq!(separate.balance(), 10);
}

#[test]
fn repeated_withdrawals_never_overdraw() {
    let pool = CapitalPool::new(1_000);
    let handles: Vec<CapitalPool> = (0..8).map(|_| pool.clone()).collect();
    let mut taken = 0u64;
    for round in 0..200 {
        for handle in handles.iter() {
            if handle.try_withdraw(3).is_ok() {
                taken += 3;
            } else {
                assert!(round >= 41);
            }
        }
    }
    assert_eq!(taken, 999);
    assert_eq!(pool.balance(), 1);
}

#[test]
fn take_from_gives_what_is_left() {
    assert_eq!(take_from(10, 3), Some(7));
    assert_eq!(take_from(10, 10), Some(0));
    assert_eq!(take_from(10, 11), None);
    assert_eq!(take_from(0, 0), Some(0));
}

#[test]
fn a_move_counts_only_beyond_the_ratio() {
    // Long: above entry * 1.05.
    assert!(!has_moved_past(true, 100 * ONE, 105 * ONE, 5_000_000));
    assert!(has_moved_past(true, 100 * ONE, 105 * ONE + 1, 5_000_000));
    // Short: below entry * 0.95.
    assert!(!has_moved_past(false, 100 * ONE, 95 * ONE, 5_000_000));
    assert!(has_moved_past(false, 100 * ONE, 95 * ONE - 1, 5_000_000));
    // A short position cannot gain more than everything.
    assert!(!has_moved_past(false, 100 * ONE, 0, ONE));
    assert!(!has_moved_past(false, 100 * ONE, 0, u64::MAX));
    // Nothing is far enough above a target that no price can reach.
    assert!(!has_moved_past(true, u64::MAX, u64::MAX, u64::MAX));
    assert!(has_moved_past(true, 0, 1, u64::MAX));
}

#[test]
fn a_fall_counts_only_beyond_the_limit() {
    assert!(!has_fallen_below(90, 100, 10_000_000));
    assert!(has_fallen_below(89, 100, 10_000_000));
    assert!(!has_fallen_below(0, 100, ONE));
    assert!(!has_fallen_below(0, 100, u64::MAX));
    assert!(has_fallen_below(0, 100, 0));
    assert!(!has_fallen_below(100, 100, 0));
}

#[test]
fn the_driver_closes_a_strategy_that_is_still_running() {
    let mut s = RollOnceStrategy::new(true, 100 * ONE, RollConfig::default());
    let candles = vec![flat(100 * ONE, 0), flat(101 * ONE, MINUTE)];
    assert_eq!(run(&mut s, &candles), Ok(12_387_562_188));
    assert_eq!(s.status, RollOnceStatus::Aborted);
    assert!(s.contract.is_none());
}

#[test]
fn the_driver_leaves_a_finished_strategy_as_it_ended() {
    let ladder = RollConfig::new(vec![(2 * ONE, 50_000_000, Some(10_000_000))]);
    let mut s = RollOnceStrategy::new(true, 100 * ONE, ladder);
    let peak = CandleData {
        open: 100 * ONE,
        close: 120 * ONE,
        high: 130 * ONE,
        low: 99 * ONE,
        volume: 0,
        open_time: MINUTE,
        close_time: 2 * MINUTE,
    };
    let candles = vec![flat(100 * ONE, 0), peak, flat(1, 2 * MINUTE), flat(500 * ONE, 3 * MINUTE)];
    assert_eq!(run(&mut s, &candles), Ok(13_989_604_138));
    assert_eq!(s.status, RollOnceStatus::Succeeded);
}

#[test]
fn the_driver_does_nothing_without_candles() {
    let mut s = RollOnceStrategy::new(true, 100 * ONE, RollConfig::default());
    assert_eq!(run(&mut s, &vec![]), Ok(100 * ONE));
    assert_eq!(s.status, RollOnceStatus::Processing);
}

#[test]
fn the_driver_stops_at_the_first_failure() {
    let mut s = RollOnceStrategy::new(true, 100 * ONE, RollConfig::default());
    let candles = vec![flat(0, 0), flat(100 * ONE, MINUTE)];
    assert_eq!(run(&mut s, &candles), Err(Error::NonPositivePrice));
    assert_eq!(s.level, 0);
    assert_eq!(s.value(), 100 * ONE);
}

#[test]
fn the_driver_runs_a_periodic_strategy_and_closes_it() {
    let pool = CapitalPool::new(1_000_000 * ONE);
    let mut s = GeoStrategy::new(
        true,
        10 * ONE,
        ONE,
        60 * MINUTE,
        10 * ONE,
        3_000_000,
        200_000,
        pool.clone(),
    );
    let prices: [(u64, u64, u64, u64); 7] = [
        (30000, 30010, 30020, 29990),
        (30010, 30050, 30060, 30000),
        (30050, 30100, 30120, 30040),
        (30100, 30120, 30150, 30090),
        (30120, 29000, 30130, 28900),
        (29000, 29100, 29200, 28950),
        (29100, 29300, 29350, 29050),
    ];
    let start: i64 = 1_600_000_000_000;
    let candles: Vec<CandleData> = prices
        .iter()
        .enumerate()
        .map(|(i, p)| CandleData {
            open: p.0 * ONE,
            close: p.1 * ONE,
            high: p.2 * ONE,
            low: p.3 * ONE,
            volume: 0,
            open_time: start + i as i64 * 30 * MINUTE,
            close_time: start + (i as i64 + 1) * 30 * MINUTE,
        })
        .collect();
    assert_eq!(run(&mut s, &candles), Ok(1_094_840_900));
    assert!(s.position.is_none());
    assert_eq!(s.open_count, 4);
    assert_eq!(pool.balance(), 99_998_714_733_548);
}
