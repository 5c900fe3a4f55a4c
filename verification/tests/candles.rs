use hurribot::backtest::candle_chart::{CandleChart, CandleData};

fn at(close_time: i64, close: u64) -> CandleData {
    CandleData {
        open: close,
        close,
        high: close + 1,
        low: close.saturating_sub(1),
        volume: 5,
        open_time: close_time - 60_000,
        close_time,
    }
}

fn times(chart: &CandleChart) -> Vec<i64> {
    chart.candles.iter().map(|c| c.close_time).collect()
}

#[test]
fn the_default_candle_is_all_zeros() {
    let c = CandleData::default();
    assert_eq!(c.open, 0);
    assert_eq!(c.close, 0);
    assert_eq!(c.high, 0);
    assert_eq!(c.low, 0);
    assert_eq!(c.volume, 0);
    assert_eq!(c.open_time, 0);
    assert_eq!(c.close_time, 0);
}

#[test]
fn candles_compare_by_close_time_alone() {
    let a = at(1_672_531_200_000, 10);
    let b = at(1_672_531_200_000, 99);
    let c = at(1_672_531_260_000, 10);
    assert!(a == b);
    assert!(a != c);
    assert!(a < c);
    assert!(c > b);
    assert!(a <= b && a >= b);
    assert_eq!(a.partial_cmp(&c), Some(std::cmp::Ordering::Less));
    assert_eq!(c.partial_cmp(&a), Some(std::cmp::Ordering::Greater));
    assert_eq!(a.partial_cmp(&b), Some(std::cmp::Ordering::Equal));
}

#[test]
fn a_new_chart_is_empty() {
    let chart = CandleChart::new(60_000);
    assert_eq!(chart.interval, 60_000);
    assert!(chart.candles.is_empty());
}

#[test]
fn insert_keeps_the_order() {
    let mut chart = CandleChart::new(60_000);
    for t in [50, 10, 30, 20, 60, 40] {
        assert!(chart.insert(at(t, t as u64)));
    }
    assert_eq!(times(&chart), vec![10, 20, 30, 40, 50, 60]);
    assert_eq!(chart.interval, 60_000);
    for c in chart.candles.iter() {
        assert_eq!(c.close, c.close_time as u64);
    }
}

#[test]
fn insert_discards_a_second_candle_with_the_same_close_time() {
    let mut chart = CandleChart::new(60_000);
    assert!(chart.insert(at(10, 1)));
    assert!(chart.insert(at(20, 2)));
    assert!(!chart.insert(at(10, 3)));
    assert!(!chart.insert(at(20, 4)));
    assert_eq!(times(&chart), vec![10, 20]);
    assert_eq!(chart.candles[0].close, 1);
    assert_eq!(chart.candles[1].close, 2);
}

#[test]
fn from_candles_orders_and_keeps_the_first_of_each_close_time() {
    let bars = vec![at(30, 1), at(10, 2), at(30, 3), at(20, 4), at(10, 5), at(-5, 6)];
    let chart = CandleChart::from_candles(1_000, &bars);
    assert_eq!(chart.interval, 1_000);
    assert_eq!(times(&chart), vec![-5, 10, 20, 30]);
    let closes: Vec<u64> = chart.candles.iter().map(|c| c.close).collect();
    assert_eq!(closes, vec![6, 2, 4, 1]);
}

#[test]
fn from_candles_of_nothing_is_empty() {
    let chart = CandleChart::from_candles(1_000, &vec![]);
    assert!(chart.candles.is_empty());
}

#[test]
fn candle_test() {
    let close_time_nano = 1672531200000_i128 * 1_000_000;
    let close_time = time::OffsetDateTime::from_unix_timestamp_nanos(close_time_nano).unwrap();
    println!("{:?}", close_time);
    // The library keeps the same moment in milliseconds.
    let millis = hurribot::decimal::parse_millis(b"1672531200000").unwrap();
    assert_eq!(millis as i128 * 1_000_000, close_time.unix_timestamp_nanos());
    assert_eq!(at(millis, 1).close_time, 1_672_531_200_000);
}

#[test]
fn a_candle_must_span_some_time() {
    assert!(at(60_000, 1).is_well_formed());
    let mut c = at(60_000, 1);
    c.open_time = c.close_time;
    assert!(!c.is_well_formed());
    c.open_time = c.close_time + 1;
    assert!(!c.is_well_formed());
    assert!(!CandleData::default().is_well_formed());
}
