//! Small helpers on amounts.

use vstd::prelude::*;

verus! {

/// The largest multiple of `step` that does not exceed `value`.
pub open spec fn truncated(value: u64, step: u64) -> int {
    value / step * step
}

/// Rounds `value` down to a multiple of `step`; `None` if `step` is zero,
/// of which nothing is a multiple in any useful sense.
pub fn truncate_step(value: u64, step: u64) -> (r: Option<u64>)
    ensures
        step == 0 ==> r is None,
        step > 0 ==> r == Some(truncated(value, step) as u64),
        r matches Some(rounded) ==> rounded <= value < rounded + step && rounded % step == 0,
{
    if step == 0 {
        return None;
    }
    proof {
        vstd::arithmetic::div_mod::lemma_fundamental_div_mod(value as int, step as int);
        vstd::arithmetic::div_mod::lemma_mod_bound(value as int, step as int);
        vstd::arithmetic::div_mod::lemma_mod_multiples_basic((value / step) as int, step as int);
        assert(step * (value / step) == (value / step) * step) by (nonlinear_arith);
    }
    Some(value / step * step)
}

} // verus!
