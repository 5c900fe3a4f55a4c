use hurribot::error::Error;
use hurribot::fixed::SCALE;
use hurribot::market::binance_market::{BinanceSymbolStatus, Bracket, OrderPlan, MARGIN_SLACK};
use hurribot::market::MarketOrderRequest;

const ONE: u64 = SCALE;

fn status() -> BinanceSymbolStatus {
    BinanceSymbolStatus {
        min_qty: 100_000,      // 0.001
        min_qty_step: 100_000, // 0.001
        tick_size: 10_000_000, // 0.1
        min_notional: 5 * ONE,
        brackets: vec![
            Bracket {
                notional_floor: 0,
                notional_cap: 50_000 * ONE,
                initial_leverage: 125,
                maint_margin_ratio: 400_000,
                cum: 0,
            },
            Bracket {
                notional_floor: 50_000 * ONE,
                notional_cap: 250_000 * ONE,
                initial_leverage: 100,
                maint_margin_ratio: 500_000,
                cum: 50 * ONE,
            },
        ],
    }
}

fn request(is_buy: bool, value: u64) -> MarketOrderRequest {
    MarketOrderRequest::new("BTCUSDT".to_string(), is_buy, value, 95_000_000, 110_000_000)
        .ok()
        .unwrap()
}

const PRICE: u64 = 3_012_345_000_000; // 30123.45

fn plan(leverage: u8, is_buy: bool, value: u64) -> Result<OrderPlan, Error> {
    status().plan_order(leverage, &request(is_buy, value), PRICE)
}

#[test]
fn the_default_status_trades_whole_units_at_tenths() {
    let s = BinanceSymbolStatus::default();
    assert_eq!(s.min_qty, ONE);
    assert_eq!(s.min_qty_step, ONE);
    assert_eq!(s.tick_size, ONE / 10);
    assert_eq!(s.min_notional, ONE);
    assert!(s.brackets.is_empty());
    assert_eq!(MARGIN_SLACK, 1_000_000);
}

#[test]
fn a_bought_order_is_sized_in_steps_and_ticks() {
    let p = plan(20, true, 1000 * ONE).unwrap();
    assert!(p.is_buy);
    // 1000 / 30123.45 = 0.0331967..., in steps of 0.001
    assert_eq!(p.qty, 3_300_000);
    // 0.033 * 30123.45
    assert_eq!(p.executed_value, 99_407_385_000);
    // 30123.45 * 0.95 = 28617.2775 and 30123.45 * 1.1 = 33135.795, in ticks of 0.1
    assert_eq!(p.low_price, 2_861_720_000_000);
    assert_eq!(p.high_price, 3_313_570_000_000);
    assert_eq!(p.take_profit_price, p.high_price);
    assert_eq!(p.stop_price, p.low_price);
    // 0.033 * (30123.45 - 28617.2) + 994.07385 * 0.004 - 994.07385 / 20 + 0.01
    assert_eq!(p.additional_margin, Some(398_885_290));
}

#[test]
fn a_sold_order_swaps_the_exits() {
    let p = plan(20, false, 1000 * ONE).unwrap();
    assert!(!p.is_buy);
    assert_eq!(p.qty, 3_300_000);
    assert_eq!(p.take_profit_price, p.low_price);
    assert_eq!(p.stop_price, p.high_price);
    // 0.033 * (33135.7 - 30123.45) + 3.9762954 - 49.7036925 + 0.01
    assert_eq!(p.additional_margin, Some(5_368_685_290));
}

#[test]
fn a_margin_that_is_enough_is_left_alone() {
    assert_eq!(plan(5, true, 1000 * ONE).unwrap().additional_margin, None);
    // Without leverage limits on the margin there is nothing to add.
    assert_eq!(plan(0, true, 1000 * ONE).unwrap().additional_margin, None);
}

#[test]
fn the_bracket_of_the_value_decides_on_the_leverage() {
    assert!(plan(125, true, 1000 * ONE).is_ok());
    assert_eq!(plan(126, true, 1000 * ONE).err(), Some(Error::LeverageTooHigh));
    // A value of about 100000 falls in the second bracket.
    assert_eq!(plan(101, true, 100_000 * ONE).err(), Some(Error::LeverageTooHigh));
    let p = plan(100, true, 100_000 * ONE).unwrap();
    assert_eq!(p.qty, 331_900_000);
    assert_eq!(p.executed_value, 9_997_973_055_000);
    assert_eq!(p.additional_margin, Some(444_935_509_725));
    assert_eq!(plan(1, true, 300_000 * ONE).err(), Some(Error::BracketNotFound));
}

#[test]
fn orders_below_the_minimum_are_refused() {
    // 20 / 30123.45 is less than one step of 0.001.
    assert_eq!(plan(1, true, 20 * ONE).err(), Some(Error::QtyTooSmall));
    let p = plan(1, true, 40 * ONE).unwrap();
    assert_eq!(p.qty, 100_000);
    assert_eq!(p.executed_value, 3_012_345_000);
    let mut strict = status();
    strict.min_notional = 100 * ONE;
    let r = strict.plan_order(1, &request(true, 40 * ONE), PRICE);
    assert_eq!(r.err(), Some(Error::MinNotionalNotMet));
}

#[test]
fn an_order_needs_a_price_and_steps() {
    assert_eq!(
        status().plan_order(1, &request(true, 40 * ONE), 0).err(),
        Some(Error::NonPositivePrice)
    );
    let mut s = status();
    s.min_qty_step = 0;
    assert_eq!(s.plan_order(1, &request(true, 40 * ONE), PRICE).err(), Some(Error::ZeroStep));
    let mut s = status();
    s.tick_size = 0;
    assert_eq!(s.plan_order(1, &request(true, 40 * ONE), PRICE).err(), Some(Error::ZeroStep));
}

#[test]
fn an_order_beyond_64_bits_is_refused() {
    let r = MarketOrderRequest::new("X".to_string(), true, u64::MAX, 1, ONE + 1).ok().unwrap();
    assert_eq!(status().plan_order(1, &r, 1).err(), Some(Error::OutOfRange));
}

#[test]
fn without_brackets_no_order_is_planned() {
    let s = BinanceSymbolStatus::default();
    let r = s.plan_order(1, &request(true, 1000 * ONE), 3_007_000_000);
    assert_eq!(r.err(), Some(Error::BracketNotFound));
}
