//! Pool creation.

use vstd::prelude::*;
use crate::errors::ErrorCode;
use crate::state::{Pool, Pubkey};

verus! {

/// What pool creation reads and writes: the key of the market, the two
/// assets, and the ledger's record for that triple, `None` while there is
/// none.
#[derive(Clone, Copy, Debug, PartialEq, Eq)]
pub struct CreatePool {
    pub amm: Pubkey,
    pub a_mint: Pubkey,
    pub b_mint: Pubkey,
    pub pool: Option<Pool>,
}

impl CreatePool {
    /// What a creation request comes to: the record to put on the ledger, or
    /// the reason for refusing it. The two assets are taken in the order
    /// given, and nothing asks that they differ.
    pub open spec fn outcome(&self) -> Result<Pool, ErrorCode> {
        if self.pool is Some {
            Err(ErrorCode::AlreadyExists)
        } else {
            Ok(Pool { amm: self.amm, a_mint: self.a_mint, b_mint: self.b_mint })
        }
    }

    /// Creates the pool of the two assets under the market. A refused request
    /// leaves everything as it was.
    pub fn create_pool(&mut self) -> (r: Result<(), ErrorCode>)
        ensures
            final(self).amm == old(self).amm,
            final(self).a_mint == old(self).a_mint,
            final(self).b_mint == old(self).b_mint,
            match old(self).outcome() {
                Ok(pool) => r == Ok::<(), ErrorCode>(()) && final(self).pool == Some(pool),
                Err(e) => r == Err::<(), ErrorCode>(e) && final(self).pool == old(self).pool,
            },
    {
        if self.pool.is_some() {
            return Err(ErrorCode::AlreadyExists);
        }
        self.pool = Some(Pool { amm: self.amm, a_mint: self.a_mint, b_mint: self.b_mint });
        Ok(())
    }
}

} // verus!
