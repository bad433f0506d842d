//! Fixed quantities of the pool accounting rules.

use vstd::prelude::*;

verus! {

/// Liquidity shares withheld from the first depositor of every pool. They are
/// never minted to anyone, and count as outstanding when a withdrawal is
/// priced.
pub const MINIMUM_LIQUIDITY: u64 = 1000;

/// One hundred percent in basis points. A market's fee lies strictly below it.
pub const FEE_DENOMINATOR: u64 = 10000;

} // verus!
