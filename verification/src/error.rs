//! The error type shared by the whole crate.

use vstd::prelude::*;

verus! {

/// Why an operation was refused.
///
/// All of these are violations of what the caller set up: none is transient,
/// and a strategy that reports one should be abandoned rather than retried.
#[derive(Debug, Clone, Copy, PartialEq, Eq, Structural)]
pub enum Error {
    /// The leverage is below one.
    InvalidLeverage,
    /// The price is zero.
    NonPositivePrice,
    /// The capital offered for a position is zero.
    NonPositiveCapital,
    /// A result does not fit the 64-bit fixed-point range.
    OutOfRange,
    /// The shared capital pool holds less than the amount to draw.
    InsufficientPool,
    /// The value of an order is zero.
    NonPositiveValue,
    /// The lower exit limit of an order is not strictly between zero and one.
    LowLimitOutOfRange,
    /// The upper exit limit of an order is not above one.
    HighLimitTooLow,
    /// The step in which quantities or prices move is zero.
    ZeroStep,
    /// The quantity of an order is below the smallest that is traded.
    QtyTooSmall,
    /// The value of an order is below the smallest that is traded.
    MinNotionalNotMet,
    /// The value of an order falls in no leverage bracket.
    BracketNotFound,
    /// The leverage is above what the bracket of the order allows.
    LeverageTooHigh,
}

} // verus!
