//! Error kinds reported by the pool accounting engine.

use vstd::prelude::*;

verus! {

/// Why an operation was rejected. Every kind is terminal for the operation:
/// nothing is moved when one is returned.
#[derive(Debug, Clone, Copy, PartialEq, Eq, Structural)]
pub enum ErrorCode {
    /// The fee handed to market creation is not below 10000 basis points.
    InvalidFee,
    /// The market or pool to create is already on record.
    AlreadyExists,
    /// The first deposit into a pool mints fewer shares than the locked minimum.
    DepositTooSmall,
    /// The swap would pay out less than the caller's declared minimum.
    OutputTooSmall,
    /// The product of the reserves went down across a swap.
    InvariantViolated,
    /// A checked arithmetic step left the representable range.
    ArithmeticOverflow,
    /// A checked division had a zero divisor.
    DivisionByZero,
}

} // verus!
