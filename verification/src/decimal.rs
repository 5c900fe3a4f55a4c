//! Reading amounts and times from decimal text.
//!
//! An amount is written as digits, a point, and more digits, with either run
//! of digits, but not both, allowed to be empty: `12`, `12.5`, `12.` and `.5`
//! are amounts. Digits beyond the eighth after the point are cut off. A time
//! is written as a whole number of milliseconds, with an optional sign.

use vstd::prelude::*;
use crate::fixed::{fit, SCALE};

verus! {

/// The decimal point.
pub const POINT: u8 = 46;

/// The digit zero; the other digits follow it.
pub const ZERO: u8 = 48;

/// The minus sign.
pub const MINUS: u8 = 45;

/// The plus sign.
pub const PLUS: u8 = 43;

/// Number of digits after the point that an amount holds.
pub const DECIMALS: usize = 8;

/// `byte` is one of the ten digits.
pub open spec fn is_digit(byte: u8) -> bool {
    ZERO <= byte <= ZERO + 9
}

/// Every byte of `text` is a digit.
pub open spec fn all_digits(text: Seq<u8>) -> bool {
    forall|i: int| 0 <= i < text.len() ==> is_digit(#[trigger] text[i])
}

/// The number that the digits of `text` write.
pub open spec fn digits_value(text: Seq<u8>) -> int
    decreases text.len(),
{
    if text.len() == 0 {
        0
    } else {
        digits_value(text.drop_last()) * 10 + (text.last() - ZERO)
    }
}

/// Ten to the power of `places`.
pub open spec fn ten_to(places: nat) -> int
    decreases places,
{
    if places == 0 {
        1
    } else {
        10 * ten_to((places - 1) as nat)
    }
}

/// The number of bytes of `text` before its first point; all of them if it has none.
pub open spec fn whole_len(text: Seq<u8>) -> int
    decreases text.len(),
{
    if text.len() == 0 || text[0] == POINT {
        0
    } else {
        1 + whole_len(text.skip(1))
    }
}

/// What stands before the first point.
pub open spec fn whole_part(text: Seq<u8>) -> Seq<u8> {
    text.take(whole_len(text))
}

/// What stands after the first point.
pub open spec fn fraction_part(text: Seq<u8>) -> Seq<u8> {
    if whole_len(text) < text.len() {
        text.skip(whole_len(text) + 1)
    } else {
        Seq::empty()
    }
}

/// The digits after the point as a number of fixed-point units: the first
/// `DECIMALS` of them, read as if followed by zeros up to that number.
pub open spec fn fraction_value(fraction: Seq<u8>) -> int {
    if fraction.len() <= DECIMALS {
        digits_value(fraction) * ten_to((DECIMALS - fraction.len()) as nat)
    } else {
        digits_value(fraction.take(DECIMALS as int))
    }
}

/// The amount that `text` writes, if it writes one that fits 64 bits.
pub open spec fn amount_of(text: Seq<u8>) -> Option<u64> {
    let whole = whole_part(text);
    let fraction = fraction_part(text);
    if all_digits(whole) && all_digits(fraction) && whole.len() + fraction.len() > 0 {
        fit(digits_value(whole) * SCALE + fraction_value(fraction))
    } else {
        None
    }
}

/// The time that `text` writes, if it writes one that fits 64 bits: digits,
/// with one sign in front of them or none.
pub open spec fn millis_of(text: Seq<u8>) -> Option<i64> {
    let signed = text.len() > 0 && (text[0] == MINUS || text[0] == PLUS);
    let digits = if signed {
        text.skip(1)
    } else {
        text
    };
    let value = if signed && text[0] == MINUS {
        -digits_value(digits)
    } else {
        digits_value(digits)
    };
    if digits.len() > 0 && all_digits(digits) && i64::MIN <= value <= i64::MAX {
        Some(value as i64)
    } else {
        None
    }
}

/// Digits write no negative number, and more digits write no smaller one.
pub proof fn lemma_digits_value_grows(text: Seq<u8>, n: int)
    requires
        all_digits(text),
        0 <= n <= text.len(),
    ensures
        0 <= digits_value(text.take(n)) <= digits_value(text),
    decreases text.len() - n,
{
    if n == text.len() {
        assert(text.take(n) == text);
        lemma_digits_value_nonnegative(text);
    } else {
        let longer = text.take(n + 1);
        assert(longer.drop_last() == text.take(n));
        lemma_digits_value_nonnegative(text.take(n));
        lemma_digits_value_grows(text, n + 1);
    }
}

/// Digits write no negative number.
pub proof fn lemma_digits_value_nonnegative(text: Seq<u8>)
    requires
        all_digits(text),
    ensures
        digits_value(text) >= 0,
    decreases text.len(),
{
    if text.len() > 0 {
        lemma_digits_value_nonnegative(text.drop_last());
    }
}

/// The first point of `text` stands at `at`, if nothing before `at` is a
/// point and `at` is a point or the end.
proof fn lemma_whole_len_is(text: Seq<u8>, at: int)
    requires
        0 <= at <= text.len(),
        forall|i: int| 0 <= i < at ==> text[i] != POINT,
        at < text.len() ==> text[at] == POINT,
    ensures
        whole_len(text) == at,
    decreases text.len(),
{
    if at > 0 {
        let rest = text.skip(1);
        lemma_whole_len_is(rest, at - 1);
    }
}

/// Reads the number that the digits `text[from..to]` write; `None` if one of
/// the bytes is no digit or the number does not fit 64 bits.
fn read_digits(text: &[u8], from: usize, to: usize) -> (r: Option<u64>)
    requires
        from <= to <= text@.len(),
    ensures
        r == if all_digits(text@.subrange(from as int, to as int)) {
            fit(digits_value(text@.subrange(from as int, to as int)))
        } else {
            None
        },
{
    let ghost digits = text@.subrange(from as int, to as int);
    let mut valid: usize = from;
    while valid < to
        invariant
            from <= valid <= to <= text@.len(),
            digits == text@.subrange(from as int, to as int),
            forall|i: int| 0 <= i < valid - from ==> is_digit(#[trigger] digits[i]),
        decreases to - valid,
    {
        if text[valid] < ZERO || text[valid] > ZERO + 9 {
            assert(!is_digit(digits[valid - from]));
            return None;
        }
        valid = valid + 1;
    }
    let mut value: u64 = 0;
    let mut at: usize = from;
    while at < to
        invariant
            from <= at <= to <= text@.len(),
            digits == text@.subrange(from as int, to as int),
            all_digits(digits),
            value == digits_value(digits.take(at - from)),
        decreases to - at,
    {
        assert(is_digit(digits[at - from]) && digits[at - from] == text@[at as int]);
        let digit: u64 = (text[at] - ZERO) as u64;
        proof {
            let longer = digits.take(at - from + 1);
            assert(longer.drop_last() == digits.take(at - from));
            lemma_digits_value_grows(digits, at - from + 1);
        }
        value = match value.checked_mul(10) {
            Some(tenfold) => match tenfold.checked_add(digit) {
                Some(next) => next,
                None => {
                    return None;
                },
            },
            None => {
                return None;
            },
        };
        at = at + 1;
    }
    assert(digits.take(to - from) == digits);
    Some(value)
}

/// Computes [`amount_of`].
pub fn parse_amount(text: &[u8]) -> (r: Option<u64>)
    ensures
        r == amount_of(text@),
{
    let n: usize = text.len();
    let mut point: usize = 0;
    while point < n && text[point] != POINT
        invariant
            point <= n == text@.len(),
            forall|i: int| 0 <= i < point ==> text@[i] != POINT,
        decreases n - point,
    {
        point = point + 1;
    }
    proof {
        lemma_whole_len_is(text@, point as int);
    }
    let after: usize = if point < n {
        point + 1
    } else {
        n
    };
    let ghost fraction = fraction_part(text@);
    if point + (n - after) == 0 {
        return None;
    }
    let kept: usize = if n - after <= DECIMALS {
        n
    } else {
        after + DECIMALS
    };
    // Digits that are cut off must still be digits.
    let mut checked: usize = kept;
    while checked < n
        invariant
            after <= kept <= checked <= n == text@.len(),
            fraction == fraction_part(text@),
            fraction == text@.subrange(after as int, n as int),
            forall|i: int| kept - after <= i < checked - after ==> is_digit(#[trigger] fraction[i]),
        decreases n - checked,
    {
        if text[checked] < ZERO || text[checked] > ZERO + 9 {
            assert(!is_digit(fraction[checked - after]));
            return None;
        }
        checked = checked + 1;
    }
    let whole: u64 = match read_digits(text, 0, point) {
        Some(whole) => whole,
        None => {
            proof {
                if all_digits(whole_part(text@)) && all_digits(fraction) {
                    lemma_digits_value_nonnegative(whole_part(text@));
                    lemma_fraction_value_nonnegative(fraction);
                }
            }
            return None;
        },
    };
    let ghost head = text@.subrange(after as int, kept as int);
    assert(head == fraction.take(kept - after));
    let mut fraction_units: u64 = match read_digits(text, after, kept) {
        Some(value) => value,
        None => {
            proof {
                if all_digits(fraction) {
                    lemma_digits_value_bounded(head);
                    lemma_ten_to_bounded(head.len());
                }
            }
            return None;
        },
    };
    proof {
        lemma_digits_value_bounded(head);
    }
    let mut places: usize = kept - after;
    while places < DECIMALS
        invariant
            kept - after <= places <= DECIMALS,
            fraction_units == digits_value(head) * ten_to((places - (kept - after)) as nat),
            fraction_units < ten_to(places as nat),
        decreases DECIMALS - places,
    {
        proof {
            lemma_ten_to_bounded(places as nat);
            assert(digits_value(head) * (10 * ten_to((places - (kept - after)) as nat)) == 10 * (
            digits_value(head) * ten_to((places - (kept - after)) as nat)))
                by (nonlinear_arith);
        }
        fraction_units = fraction_units * 10;
        places = places + 1;
    }
    proof {
        lemma_ten_to_bounded(DECIMALS as nat);
    }
    let total: u128 = (whole as u128) * (SCALE as u128) + fraction_units as u128;
    if total > u64::MAX as u128 {
        None
    } else {
        Some(total as u64)
    }
}

/// Computes [`millis_of`].
pub fn parse_millis(text: &[u8]) -> (r: Option<i64>)
    ensures
        r == millis_of(text@),
{
    let n: usize = text.len();
    let signed: bool = n > 0 && (text[0] == MINUS || text[0] == PLUS);
    let from: usize = if signed {
        1
    } else {
        0
    };
    let ghost digits = if signed {
        text@.skip(1)
    } else {
        text@
    };
    assert(digits == text@.subrange(from as int, n as int));
    if from == n {
        return None;
    }
    let magnitude: u64 = match read_digits(text, from, n) {
        Some(magnitude) => magnitude,
        None => {
            proof {
                if all_digits(digits) {
                    lemma_digits_value_nonnegative(digits);
                }
            }
            return None;
        },
    };
    if signed && text[0] == MINUS {
        if magnitude > 9_223_372_036_854_775_808 {
            None
        } else if magnitude == 9_223_372_036_854_775_808 {
            Some(i64::MIN)
        } else {
            Some(0 - (magnitude as i64))
        }
    } else if magnitude > 9_223_372_036_854_775_807 {
        None
    } else {
        Some(magnitude as i64)
    }
}

/// Digits after the point add no negative number.
proof fn lemma_fraction_value_nonnegative(fraction: Seq<u8>)
    requires
        all_digits(fraction),
    ensures
        fraction_value(fraction) >= 0,
{
    if fraction.len() <= DECIMALS {
        lemma_digits_value_nonnegative(fraction);
        lemma_ten_to_positive((DECIMALS - fraction.len()) as nat);
    } else {
        lemma_digits_value_grows(fraction, DECIMALS as int);
    }
}

/// A power of ten is positive.
proof fn lemma_ten_to_positive(places: nat)
    ensures
        ten_to(places) > 0,
    decreases places,
{
    if places > 0 {
        lemma_ten_to_positive((places - 1) as nat);
    }
}

/// The powers of ten up to the number of decimals, spelled out.
proof fn lemma_ten_to_bounded(places: nat)
    requires
        places <= DECIMALS,
    ensures
        0 < ten_to(places) <= SCALE,
        ten_to(DECIMALS as nat) == SCALE,
        places < DECIMALS ==> 10 * ten_to(places) <= SCALE,
{
    reveal_with_fuel(ten_to, 9);
}

/// Digits write a number below ten to the power of their count.
proof fn lemma_digits_value_bounded(text: Seq<u8>)
    requires
        all_digits(text),
    ensures
        0 <= digits_value(text) < ten_to(text.len()),
    decreases text.len(),
{
    if text.len() > 0 {
        lemma_digits_value_bounded(text.drop_last());
    }
}

} // verus!
