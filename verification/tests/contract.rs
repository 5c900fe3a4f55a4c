use hurribot::backtest::contract::{
    Contract, HANDLING_FEE_RATE_MAKER, HANDLING_FEE_RATE_TAKER, LIQUIDATION_KEEP_RATE,
    MAINTENANCE_MARGIN_RATE,
};
use hurribot::error::Error;
use hurribot::fixed::SCALE;

const ONE: u64 = SCALE;

fn long_100x(stop_loss: Option<u64>) -> Contract {
    Contract::open(true, 100 * ONE, 100 * ONE, 100 * ONE, 0, stop_loss).unwrap()
}

fn short_100x(stop_loss: Option<u64>) -> Contract {
    Contract::open(false, 100 * ONE, 100 * ONE, 100 * ONE, 0, stop_loss).unwrap()
}

#[test]
fn contract_test() {
    let offer = Contract::open(true, 100 * ONE, 100 * ONE, 100 * ONE, 0, Some(9_990_000_000))
        .unwrap();
    println!("{:?}", offer);
    println!("{:?}", offer.liquidate(9 * ONE));
    assert_eq!(offer.stop_loss, Some(9_990_000_000));
    assert!(offer.liquidate(9 * ONE).is_some());
}

#[test]
fn the_scale_is_eight_decimals() {
    assert_eq!(SCALE, 100_000_000);
    assert_eq!(HANDLING_FEE_RATE_MAKER, 20_000);
    assert_eq!(HANDLING_FEE_RATE_TAKER, 50_000);
    assert_eq!(MAINTENANCE_MARGIN_RATE, 400_000);
    assert_eq!(LIQUIDATION_KEEP_RATE, 85_000_000);
}

#[test]
fn open_derives_margin_liquidation_price_and_size() {
    let c = long_100x(None);
    assert!(c.is_long);
    assert_eq!(c.entry_price, 100 * ONE);
    assert_eq!(c.leverage, 100 * ONE);
    assert_eq!(c.open_time, 0);
    // 100 / (1 + 100 * 0.0002) = 98.03921568...
    assert_eq!(c.margin, 9_803_921_568);
    // 100 * (1 - 1 / 100) + 100 * 0.004 = 99.4
    assert_eq!(c.liquidation_price, 9_940_000_000);
    // 98.03921568 * 100 / 100
    assert_eq!(c.position_size, 9_803_921_568);
    assert_eq!(c.stop_loss, None);
}

#[test]
fn the_opening_fee_is_netted_into_the_margin() {
    let c = long_100x(None);
    // margin + margin * leverage * fee gives the offered capital back, up to rounding.
    let fee = c.margin as u128 * c.leverage as u128 * HANDLING_FEE_RATE_MAKER as u128
        / (SCALE as u128 * SCALE as u128);
    let spent = c.margin as u128 + fee;
    assert!(spent <= 100 * ONE as u128);
    assert!(100 * ONE as u128 - spent <= 2);
}

#[test]
fn a_short_position_mirrors_the_liquidation_price() {
    let c = short_100x(None);
    assert!(!c.is_long);
    assert_eq!(c.margin, 9_803_921_568);
    // 100 * (1 + 1 / 100) - 100 * 0.004 = 100.6
    assert_eq!(c.liquidation_price, 10_060_000_000);
    assert_eq!(c.position_size, 9_803_921_568);
}

#[test]
fn a_stop_loss_fires_before_liquidation_and_without_the_haircut() {
    let c = long_100x(Some(9_990_000_000));
    // 9.0 is below both the stop-loss (99.9) and the liquidation price (99.4):
    // the stop-loss is the exit, at its own price.
    // 98.03921568 * (99.9 - 100) + 98.03921568 - 98.03921568 * 99.9 * 0.0002
    assert_eq!(c.liquidate(9 * ONE), Some(8_627_647_058));
    assert_eq!(c.liquidate(9_989_999_999), Some(8_627_647_058));
    assert_eq!(c.liquidate(9_990_000_000), None);
}

#[test]
fn a_liquidation_keeps_85_percent() {
    let c = long_100x(None);
    // At the liquidation price itself nothing is forced yet.
    assert_eq!(c.liquidate(9_940_000_000), None);
    assert_eq!(c.close(9_940_000_000), Ok(3_726_666_666));
    // One unit below, the position is liquidated: 37.26666666 * 0.85.
    assert_eq!(c.liquidate(9_939_999_999), Some(3_167_666_666));
    assert_eq!(c.liquidate(9 * ONE), Some(3_167_666_666));
    assert_eq!(c.liquidate(0), Some(3_167_666_666));
}

#[test]
fn a_short_position_is_liquidated_above_its_liquidation_price() {
    let c = short_100x(None);
    assert_eq!(c.liquidate(10_060_000_000), None);
    assert_eq!(c.close(10_060_000_000), Ok(3_724_313_725));
    assert_eq!(c.liquidate(10_060_000_001), Some(3_165_666_666));
    assert_eq!(c.liquidate(200 * ONE), Some(3_165_666_666));
}

#[test]
fn close_marks_to_market_net_of_the_closing_fee() {
    let long = long_100x(None);
    // 98.03921568 * (101 - 100) + 98.03921568 - 98.03921568 * 101 * 0.0002
    assert_eq!(long.close(101 * ONE), Ok(19_409_803_920));
    let short = short_100x(None);
    // 98.03921568 * (100 - 99) + 98.03921568 - 98.03921568 * 99 * 0.0002
    assert_eq!(short.close(99 * ONE), Ok(19_413_725_488));
}

#[test]
fn closing_at_the_entry_price_costs_the_closing_fee_only() {
    let c = long_100x(None);
    // margin - size * price * fee = 98.03921568 - 1.96078431...
    assert_eq!(c.close(100 * ONE), Ok(9_607_843_136));
}

#[test]
fn close_gives_what_liquidate_gives_when_an_exit_is_forced() {
    let with_stop = long_100x(Some(9_990_000_000));
    let without = long_100x(None);
    let short = short_100x(Some(10_010_000_000));
    for price in [0, 1, 9 * ONE, 9_939_999_999, 9_950_000_000, 9_989_999_999] {
        assert_eq!(with_stop.close(price).ok(), with_stop.liquidate(price));
    }
    for price in [0, 9 * ONE, 9_939_999_999] {
        assert_eq!(without.close(price).ok(), without.liquidate(price));
    }
    for price in [10_010_000_001, 10_060_000_001, 500 * ONE] {
        assert_eq!(short.close(price).ok(), short.liquidate(price));
    }
}

#[test]
fn a_liquidation_never_pays_more_than_the_value_at_the_liquidation_price() {
    for leverage in [1u64, 2, 3, 5, 10, 20, 25, 50, 100, 125, 200, 249, 250, 1000] {
        for is_long in [true, false] {
            let c = Contract::open(is_long, 1_234_567_891, 77 * ONE, leverage * ONE, 0, None)
                .unwrap();
            let at_price = c.close(c.liquidation_price).unwrap();
            let beyond = if is_long {
                c.liquidation_price - 1
            } else {
                c.liquidation_price + 1
            };
            let forced = c.liquidate(beyond).unwrap();
            assert!(forced <= at_price);
            assert_eq!(
                forced as u128,
                at_price as u128 * LIQUIDATION_KEEP_RATE as u128 / SCALE as u128
            );
        }
    }
}

#[test]
fn an_unreachable_stop_loss_is_dropped() {
    // Liquidation at 99.4 comes before a stop-loss at 99.0.
    let long = long_100x(Some(99 * ONE));
    assert_eq!(long.stop_loss, None);
    assert_eq!(long.liquidate(9_900_000_000 - 1), Some(3_167_666_666));
    // Liquidation at 100.6 comes before a stop-loss at 101.0.
    let short = short_100x(Some(101 * ONE));
    assert_eq!(short.stop_loss, None);
    // A stop-loss at the liquidation price itself is kept.
    assert_eq!(long_100x(Some(9_940_000_000)).stop_loss, Some(9_940_000_000));
    assert_eq!(short_100x(Some(10_060_000_000)).stop_loss, Some(10_060_000_000));
}

#[test]
fn the_liquidation_price_lies_on_the_losing_side_of_the_entry_price() {
    for leverage in [1u64, 2, 3, 5, 10, 20, 25, 50, 100, 125] {
        for entry in [500u64, 12_345, ONE, 100 * ONE, 65_000 * ONE] {
            let long = Contract::open(true, entry, 100 * ONE, leverage * ONE, 0, None).unwrap();
            assert!(0 < long.liquidation_price && long.liquidation_price < entry);
            let short = Contract::open(false, entry, 100 * ONE, leverage * ONE, 0, None).unwrap();
            assert!(short.liquidation_price > entry);
        }
    }
}

#[test]
fn at_a_leverage_of_250_the_liquidation_price_meets_the_entry_price() {
    let long = Contract::open(true, 100 * ONE, 100 * ONE, 250 * ONE, 0, None).unwrap();
    assert_eq!(long.liquidation_price, 100 * ONE);
    assert_eq!(long.margin, 9_523_809_523);
    assert_eq!(long.position_size, 23_809_523_807);
    let short = Contract::open(false, 100 * ONE, 100 * ONE, 250 * ONE, 0, None).unwrap();
    assert_eq!(short.liquidation_price, 100 * ONE);
}

#[test]
fn open_refuses_a_leverage_below_one() {
    let r = Contract::open(true, 100 * ONE, 100 * ONE, ONE - 1, 0, None);
    assert_eq!(r.err(), Some(Error::InvalidLeverage));
    let r = Contract::open(false, 100 * ONE, 100 * ONE, 0, 0, None);
    assert_eq!(r.err(), Some(Error::InvalidLeverage));
    assert!(Contract::open(true, 100 * ONE, 100 * ONE, ONE, 0, None).is_ok());
}

#[test]
fn open_refuses_a_zero_price() {
    let r = Contract::open(true, 0, 100 * ONE, 10 * ONE, 0, None);
    assert_eq!(r.err(), Some(Error::NonPositivePrice));
}

#[test]
fn open_refuses_zero_capital() {
    let r = Contract::open(true, 100 * ONE, 0, 10 * ONE, 0, None);
    assert_eq!(r.err(), Some(Error::NonPositiveCapital));
}

#[test]
fn open_names_the_first_fault() {
    assert_eq!(Contract::open(true, 0, 0, 0, 0, None).err(), Some(Error::InvalidLeverage));
    assert_eq!(Contract::open(true, 0, 0, ONE, 0, None).err(), Some(Error::NonPositivePrice));
}

#[test]
fn open_refuses_figures_beyond_64_bits() {
    // A short position at the top of the range: the liquidation price lies above it.
    let r = Contract::open(false, u64::MAX, 100 * ONE, ONE, 0, None);
    assert_eq!(r.err(), Some(Error::OutOfRange));
    // A tiny price makes the position size explode.
    let r = Contract::open(true, 1, u64::MAX, 1000 * ONE, 0, None);
    assert_eq!(r.err(), Some(Error::OutOfRange));
}

#[test]
fn close_refuses_a_value_beyond_64_bits() {
    let c = Contract::open(true, ONE, 10_000_000_000_000_000_000, ONE, 0, None).unwrap();
    assert_eq!(c.close(3 * ONE), Err(Error::OutOfRange));
    assert!(c.close(ONE).is_ok());
}

#[test]
fn no_realized_value_is_negative_even_at_the_smallest_prices() {
    for entry in 1u64..300 {
        for leverage in [ONE, 2 * ONE, 125 * ONE, 9_999 * ONE] {
            for is_long in [true, false] {
                let c = Contract::open(is_long, entry, 1_000, leverage, 0, None).unwrap();
                // `close` returns an unsigned value; that it returns at all is the point.
                assert!(c.close(c.liquidation_price).is_ok());
                assert!(c.close(entry).is_ok());
                assert!(c.close(0).is_ok());
            }
        }
    }
}
