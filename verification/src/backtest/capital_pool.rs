//! The capital that several strategies draw on together.

use std::sync::atomic::{AtomicU64, Ordering};
use std::sync::Arc;
use vstd::prelude::*;

verus! {

/// What is left of `held` once `amount` is taken from it, if `held` covers it.
pub open spec fn left_after(held: u64, amount: u64) -> Option<u64> {
    if held >= amount {
        Some((held - amount) as u64)
    } else {
        None
    }
}

/// Computes [`left_after`].
pub fn take_from(held: u64, amount: u64) -> (r: Option<u64>)
    ensures
        r == left_after(held, amount),
{
    if held >= amount {
        Some(held - amount)
    } else {
        None
    }
}

/// A handle on a balance that any number of strategies, on any number of
/// threads, may draw on. Clones of a handle share one balance.
///
/// Nothing is known of the balance between two calls: another holder of the
/// handle may have drawn on it. What a call returns is therefore the only
/// evidence of what the balance was.
#[derive(Debug, Clone)]
pub struct CapitalPool {
    balance: Arc<AtomicU64>,
}

/// Calls `AtomicU64::fetch_update` with [`take_from`] as the update: in one
/// atomic step, the balance is replaced by what `take_from` gives for it, if
/// it gives anything. The result is `Ok` of the balance found if it was
/// replaced, `Err` of the balance found if it was not.
///
/// The contract is taken from the documentation of the standard library; it
/// is not proved.
#[verifier::external_body]
fn fetch_take(balance: &AtomicU64, amount: u64) -> (r: Result<u64, u64>)
    ensures
        match r {
            Ok(found) => left_after(found, amount) is Some,
            Err(found) => left_after(found, amount) is None,
        },
{
    balance.fetch_update(Ordering::SeqCst, Ordering::SeqCst, |held| take_from(held, amount))
}

impl CapitalPool {
    /// A pool of its own that holds `balance`.
    pub fn new(balance: u64) -> (r: Self) {
        CapitalPool { balance: Arc::new(AtomicU64::new(balance)) }
    }

    /// The balance at some moment during the call.
    pub fn balance(&self) -> (r: u64) {
        self.balance.load(Ordering::SeqCst)
    }

    /// Takes `amount` from the pool if the pool holds that much, as one
    /// atomic step. Returns the balance found: as `Ok` if `amount` was taken
    /// from it, as `Err` if it was too small and the pool is unchanged.
    ///
    /// Whether the pool holds that much is for the pool to say, except for an
    /// amount of zero, which every balance covers.
    pub fn try_withdraw(&self, amount: u64) -> (r: Result<u64, u64>)
        ensures
            match r {
                Ok(found) => found >= amount,
                Err(found) => found < amount,
            },
            amount == 0 ==> r is Ok,
    {
        fetch_take(&self.balance, amount)
    }
}

} // verus!
