//! Records kept on the ledger, as the accounting engine reads them.

use vstd::prelude::*;
use crate::constants::FEE_DENOMINATOR;

verus! {

/// An opaque 32-byte identifier of a principal, an asset or a record.
#[derive(Clone, Copy, Debug, PartialEq, Eq)]
pub struct Pubkey {
    pub bytes: [u8; 32],
}

/// A market configuration: the namespace under which pools are created.
#[derive(Clone, Copy, Debug, PartialEq, Eq)]
pub struct Amm {
    /// The identifier the market was created under.
    pub id: Pubkey,
    /// The principal named as administrator at creation.
    pub admin: Pubkey,
    /// The trading fee in basis points.
    pub fee: u16,
}

impl Amm {
    /// A market's fee is strictly below one hundred percent.
    pub open spec fn wf(&self) -> bool {
        self.fee < FEE_DENOMINATOR
    }
}

/// An asset pair under a market. The pool's reserves and the supply of its
/// liquidity shares are balances on the ledger, not part of this record.
#[derive(Clone, Copy, Debug, PartialEq, Eq)]
pub struct Pool {
    /// The key of the market the pool belongs to.
    pub amm: Pubkey,
    /// The first asset of the pair.
    pub a_mint: Pubkey,
    /// The second asset of the pair.
    pub b_mint: Pubkey,
}

/// The balance of one holder in one asset, as read from the ledger.
#[derive(Clone, Copy, Debug, PartialEq, Eq)]
pub struct TokenAccount {
    pub amount: u64,
}

/// The issuance of one asset, as read from the ledger.
#[derive(Clone, Copy, Debug, PartialEq, Eq)]
pub struct Mint {
    pub supply: u64,
}

} // verus!
