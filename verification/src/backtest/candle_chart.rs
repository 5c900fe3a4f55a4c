//! Price candles and the ordered series that a strategy is fed.

use std::cmp::Ordering;
use vstd::prelude::*;
use vstd::std_specs::cmp::{PartialEqSpecImpl, PartialOrdSpecImpl};
use crate::decimal::{amount_of, millis_of, parse_amount, parse_millis};

verus! {

/// One candle: the prices and the volume of one time bucket.
///
/// Candles are compared by their close time alone.
#[derive(Debug, Clone, Copy)]
pub struct CandleData {
    /// First price of the bucket.
    pub open: u64,
    /// Last price of the bucket.
    pub close: u64,
    /// Highest price of the bucket.
    pub high: u64,
    /// Lowest price of the bucket.
    pub low: u64,
    /// Traded volume.
    pub volume: u64,
    /// Start of the bucket.
    pub open_time: i64,
    /// End of the bucket; the key by which candles are ordered.
    pub close_time: i64,
}

/// Number of fields that a record of a candle must have at least.
pub const RECORD_FIELDS: usize = 7;

/// The candle that a record writes: its fields are, in this order, the open
/// time, the open, high, low and close prices, the volume and the close time.
/// Fields beyond these are of no account. `None` if a field is missing or
/// does not write what it should.
pub open spec fn candle_of(record: Seq<Vec<u8>>) -> Option<CandleData> {
    if record.len() < RECORD_FIELDS {
        None
    } else {
        match (
            millis_of(record[0]@),
            amount_of(record[1]@),
            amount_of(record[2]@),
            amount_of(record[3]@),
            amount_of(record[4]@),
            amount_of(record[5]@),
            millis_of(record[6]@),
        ) {
            (
                Some(open_time),
                Some(open),
                Some(high),
                Some(low),
                Some(close),
                Some(volume),
                Some(close_time),
            ) => Some(CandleData { open, close, high, low, volume, open_time, close_time }),
            _ => None,
        }
    }
}

impl CandleData {
    /// A candle spans a non-empty stretch of time.
    pub open spec fn wf(self) -> bool {
        self.open_time < self.close_time
    }

    /// Decides [`Self::wf`].
    pub fn is_well_formed(&self) -> (r: bool)
        ensures
            r == self.wf(),
    {
        self.open_time < self.close_time
    }

    /// Reads a candle from the fields of a record; see [`candle_of`].
    pub fn from_record(record: &Vec<Vec<u8>>) -> (r: Option<Self>)
        ensures
            r == candle_of(record@),
    {
        if record.len() < RECORD_FIELDS {
            return None;
        }
        let open_time: i64 = match parse_millis(record[0].as_slice()) {
            Some(value) => value,
            None => {
                return None;
            },
        };
        let open: u64 = match parse_amount(record[1].as_slice()) {
            Some(value) => value,
            None => {
                return None;
            },
        };
        let high: u64 = match parse_amount(record[2].as_slice()) {
            Some(value) => value,
            None => {
                return None;
            },
        };
        let low: u64 = match parse_amount(record[3].as_slice()) {
            Some(value) => value,
            None => {
                return None;
            },
        };
        let close: u64 = match parse_amount(record[4].as_slice()) {
            Some(value) => value,
            None => {
                return None;
            },
        };
        let volume: u64 = match parse_amount(record[5].as_slice()) {
            Some(value) => value,
            None => {
                return None;
            },
        };
        let close_time: i64 = match parse_millis(record[6].as_slice()) {
            Some(value) => value,
            None => {
                return None;
            },
        };
        Some(CandleData { open, close, high, low, volume, open_time, close_time })
    }
}

impl Default for CandleData {
    /// The candle of all zeros. It stands for "no candle yet" and is not
    /// well-formed.
    fn default() -> (r: Self)
        ensures
            r == (CandleData {
                open: 0,
                close: 0,
                high: 0,
                low: 0,
                volume: 0,
                open_time: 0,
                close_time: 0,
            }),
    {
        CandleData { open: 0, close: 0, high: 0, low: 0, volume: 0, open_time: 0, close_time: 0 }
    }
}

impl PartialEq for CandleData {
    fn eq(&self, other: &Self) -> (r: bool) {
        self.close_time == other.close_time
    }
}

impl PartialEqSpecImpl for CandleData {
    open spec fn obeys_eq_spec() -> bool {
        true
    }

    open spec fn eq_spec(&self, other: &Self) -> bool {
        self.close_time == other.close_time
    }
}

impl Eq for CandleData {

}

impl PartialOrd for CandleData {
    fn partial_cmp(&self, other: &Self) -> (r: Option<Ordering>) {
        if self.close_time < other.close_time {
            Some(Ordering::Less)
        } else if self.close_time > other.close_time {
            Some(Ordering::Greater)
        } else {
            Some(Ordering::Equal)
        }
    }
}

impl PartialOrdSpecImpl for CandleData {
    open spec fn obeys_partial_cmp_spec() -> bool {
        true
    }

    open spec fn partial_cmp_spec(&self, other: &Self) -> Option<Ordering> {
        if self.close_time < other.close_time {
            Some(Ordering::Less)
        } else if self.close_time > other.close_time {
            Some(Ordering::Greater)
        } else {
            Some(Ordering::Equal)
        }
    }
}

/// The candles are in strictly increasing order of close time, so no close
/// time occurs twice.
pub open spec fn strictly_ordered(candles: Seq<CandleData>) -> bool {
    forall|i: int, j: int|
        0 <= i < j < candles.len() ==> candles[i].close_time < candles[j].close_time
}

/// Some candle of `candles` closes at `close_time`.
pub open spec fn closes_at(candles: Seq<CandleData>, close_time: i64) -> bool {
    exists|i: int| 0 <= i < candles.len() && candles[i].close_time == close_time
}

/// `candles[i]` is the first candle of the sequence with its close time.
pub open spec fn first_of_its_time(candles: Seq<CandleData>, i: int) -> bool {
    forall|j: int| 0 <= j < i ==> candles[j].close_time != candles[i].close_time
}

/// `candle` is one of the first `n` candles of the sequence, and the first of
/// the sequence with its close time.
pub open spec fn leads_its_time(candles: Seq<CandleData>, n: int, candle: CandleData) -> bool {
    exists|j: int| 0 <= j < n && candles[j] == candle && first_of_its_time(candles, j)
}

/// A series of candles in strictly increasing order of close time.
#[derive(Debug)]
pub struct CandleChart {
    /// Length of one time bucket.
    pub interval: i64,
    /// The candles, oldest first.
    pub candles: Vec<CandleData>,
}

impl CandleChart {
    /// Well-formedness: the candles are strictly ordered by close time.
    pub open spec fn wf(&self) -> bool {
        strictly_ordered(self.candles@)
    }

    /// An empty chart.
    pub fn new(interval: i64) -> (r: Self)
        ensures
            r.interval == interval,
            r.candles@ == Seq::<CandleData>::empty(),
            r.wf(),
    {
        CandleChart { interval, candles: Vec::new() }
    }

    /// Puts `candle` at its place in the order, unless the chart already holds
    /// a candle with the same close time: then the chart stays as it is.
    /// Returns whether the candle was taken.
    ///
    /// The place is looked for from the end: a candle that closes after all
    /// others is appended at once.
    pub fn insert(&mut self, candle: CandleData) -> (taken: bool)
        requires
            old(self).wf(),
        ensures
            final(self).wf(),
            final(self).interval == old(self).interval,
            taken == !closes_at(old(self).candles@, candle.close_time),
            !taken ==> final(self).candles@ == old(self).candles@,
            taken ==> exists|k: int|
                0 <= k <= old(self).candles@.len() && final(self).candles@ == old(self).candles@.insert(k, candle),
    {
        let mut at: usize = self.candles.len();
        while at > 0 && self.candles[at - 1].close_time > candle.close_time
            invariant
                at <= self.candles.len(),
                *self == *old(self),
                forall|j: int|
                    at <= j < self.candles.len() ==> self.candles[j].close_time
                        > candle.close_time,
            decreases at,
        {
            at = at - 1;
        }
        if at > 0 && self.candles[at - 1].close_time == candle.close_time {
            return false;
        }
        self.candles.insert(at, candle);
        true
    }

    /// Builds the chart of `candles`: ordered by close time, and of several
    /// candles with one close time only the first.
    pub fn from_candles(interval: i64, candles: &Vec<CandleData>) -> (r: Self)
        ensures
            r.wf(),
            r.interval == interval,
            forall|t: i64| closes_at(r.candles@, t) <==> closes_at(candles@, t),
            forall|i: int|
                0 <= i < r.candles@.len() ==> leads_its_time(
                    candles@,
                    candles@.len() as int,
                    #[trigger] r.candles@[i],
                ),
    {
        let mut chart = CandleChart::new(interval);
        let mut n: usize = 0;
        while n < candles.len()
            invariant
                n <= candles.len(),
                chart.wf(),
                chart.interval == interval,
                forall|t: i64|
                    closes_at(chart.candles@, t) <==> closes_at(candles@.take(n as int), t),
                forall|i: int|
                    0 <= i < chart.candles@.len() ==> leads_its_time(
                        candles@,
                        n as int,
                        #[trigger] chart.candles@[i],
                    ),
            decreases candles.len() - n,
        {
            let candle = candles[n];
            let ghost before = chart.candles@;
            let taken = chart.insert(candle);
            proof {
                let after = chart.candles@;
                let seen = candles@.take(n as int);
                let seen_next = candles@.take(n + 1);
                assert forall|t: i64| closes_at(after, t) <==> closes_at(seen_next, t) by {
                    if closes_at(seen_next, t) {
                        lemma_insert_keeps(before, after, candle, taken, t);
                    }
                    if closes_at(after, t) {
                        lemma_insert_adds_only(before, after, candle, taken, t);
                        if t == candle.close_time {
                            assert(seen_next[n as int].close_time == t);
                        }
                    }
                }
                assert forall|i: int| 0 <= i < after.len() implies leads_its_time(
                    candles@,
                    n + 1,
                    #[trigger] after[i],
                ) by {
                    if taken {
                        assert forall|j: int| 0 <= j < n implies candles@[j].close_time
                            != candle.close_time by {
                            if candles@[j].close_time == candle.close_time {
                                assert(seen[j].close_time == candle.close_time);
                            }
                        }
                    }
                }
            }
            n = n + 1;
        }
        proof {
            assert(candles@.take(n as int) == candles@);
        }
        chart
    }
}

/// Whatever closed at `t` before an insertion still does, and so does the
/// candle put in.
proof fn lemma_insert_keeps(
    before: Seq<CandleData>,
    after: Seq<CandleData>,
    candle: CandleData,
    taken: bool,
    t: i64,
)
    requires
        taken == !closes_at(before, candle.close_time),
        !taken ==> after == before,
        taken ==> exists|k: int| 0 <= k <= before.len() && after == before.insert(k, candle),
        closes_at(before, t) || t == candle.close_time,
    ensures
        closes_at(after, t),
{
    if taken {
        let k = choose|k: int| 0 <= k <= before.len() && after == before.insert(k, candle);
        if t == candle.close_time {
            assert(after[k].close_time == t);
        } else {
            let i = choose|i: int| 0 <= i < before.len() && before[i].close_time == t;
            if i < k {
                assert(after[i].close_time == t);
            } else {
                assert(after[i + 1].close_time == t);
            }
        }
    }
}

/// An insertion adds no close time but that of the candle put in.
proof fn lemma_insert_adds_only(
    before: Seq<CandleData>,
    after: Seq<CandleData>,
    candle: CandleData,
    taken: bool,
    t: i64,
)
    requires
        !taken ==> after == before,
        taken ==> exists|k: int| 0 <= k <= before.len() && after == before.insert(k, candle),
        closes_at(after, t),
    ensures
        closes_at(before, t) || t == candle.close_time,
{
}

} // verus!
