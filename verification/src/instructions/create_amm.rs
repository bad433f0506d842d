//! Market creation.

use vstd::prelude::*;
use crate::constants::FEE_DENOMINATOR;
use crate::errors::ErrorCode;
use crate::state::{Amm, Pubkey};

verus! {

/// What market creation reads and writes: the administrator to record, and
/// the ledger's record under the new market's identifier, `None` while there
/// is none.
#[derive(Clone, Copy, Debug, PartialEq, Eq)]
pub struct CreateAmm {
    pub admin: Pubkey,
    pub amm_account: Option<Amm>,
}

impl CreateAmm {
    /// What a creation request comes to: the record to put on the ledger, or
    /// the reason for refusing it. The fee is looked at first.
    pub open spec fn outcome(&self, id: Pubkey, fee: u16) -> Result<Amm, ErrorCode> {
        if fee >= FEE_DENOMINATOR {
            Err(ErrorCode::InvalidFee)
        } else if self.amm_account is Some {
            Err(ErrorCode::AlreadyExists)
        } else {
            Ok(Amm { id, admin: self.admin, fee })
        }
    }

    /// Creates the market `id` with a fee of `fee` basis points. A refused
    /// request leaves everything as it was.
    pub fn create_amm(&mut self, id: Pubkey, fee: u16) -> (r: Result<(), ErrorCode>)
        ensures
            final(self).admin == old(self).admin,
            match old(self).outcome(id, fee) {
                Ok(amm) => r == Ok::<(), ErrorCode>(()) && final(self).amm_account == Some(amm)
                    && amm.wf(),
                Err(e) => r == Err::<(), ErrorCode>(e) && final(self).amm_account
                    == old(self).amm_account,
            },
    {
        if fee as u64 >= FEE_DENOMINATOR {
            return Err(ErrorCode::InvalidFee);
        }
        if self.amm_account.is_some() {
            return Err(ErrorCode::AlreadyExists);
        }
        self.amm_account = Some(Amm { id, admin: self.admin, fee });
        Ok(())
    }
}

} // verus!
