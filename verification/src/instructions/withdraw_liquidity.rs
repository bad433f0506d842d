//! Liquidity withdrawal: what a holder of liquidity shares gets back from the
//! reserves for the shares that are burned.

use vstd::prelude::*;
use crate::constants::MINIMUM_LIQUIDITY;
use crate::errors::ErrorCode;
use crate::fixed_point::{
    lemma_scaled_fits, lemma_scaled_product, lemma_scaled_quotient, representable, FixedPoint,
};
use crate::instructions::deposit_liquidity::{Deposit, DepositLiquidity};
use crate::state::{Mint, TokenAccount};

verus! {

/// The part of `reserve` that `amount` shares stand for, rounded down. The
/// shares withheld at a pool's first deposit count as outstanding beside the
/// `supply` that was minted.
pub open spec fn share(amount: int, reserve: int, supply: int) -> int {
    amount * reserve / (supply + MINIMUM_LIQUIDITY)
}

/// Whether every step of working out a share stays representable.
pub open spec fn share_computable(amount: int, reserve: int, supply: int) -> bool {
    &&& representable(amount)
    &&& representable(reserve)
    &&& representable(amount * reserve)
    &&& representable(supply + MINIMUM_LIQUIDITY)
}

/// The balances a withdrawal reads: the supply of the pool's liquidity shares
/// and the pool's two reserves.
#[derive(Clone, Copy, Debug, PartialEq, Eq)]
pub struct WithdrawLiquidity {
    pub mint_liquidity: Mint,
    pub pool_account_a: TokenAccount,
    pub pool_account_b: TokenAccount,
}

/// The amounts of an accepted withdrawal.
#[derive(Clone, Copy, Debug, PartialEq, Eq)]
pub struct Withdrawal {
    /// What the pool pays out of the reserve of asset A.
    pub amount_a: u64,
    /// What the pool pays out of the reserve of asset B.
    pub amount_b: u64,
    /// The liquidity shares burned from the holder.
    pub liquidity: u64,
}

impl WithdrawLiquidity {
    /// What a withdrawal request comes to: the amounts to move and the shares
    /// to burn, or the reason for refusing it.
    pub open spec fn outcome(&self, amount: u64) -> Result<Withdrawal, ErrorCode> {
        let reserve_a = self.pool_account_a.amount as int;
        let reserve_b = self.pool_account_b.amount as int;
        let supply = self.mint_liquidity.supply as int;
        if !share_computable(amount as int, reserve_a, supply) || !share_computable(
            amount as int,
            reserve_b,
            supply,
        ) {
            Err(ErrorCode::ArithmeticOverflow)
        } else {
            Ok(
                Withdrawal {
                    amount_a: share(amount as int, reserve_a, supply) as u64,
                    amount_b: share(amount as int, reserve_b, supply) as u64,
                    liquidity: amount,
                },
            )
        }
    }

    /// Works out the withdrawal of `amount` liquidity shares. Nothing is
    /// moved: the amounts to move and the shares to burn are returned.
    /// Whether the holder has that many shares is the ledger's to say.
    pub fn withdraw_liquidity(&self, amount: u64) -> (r: Result<Withdrawal, ErrorCode>)
        ensures
            r == self.outcome(amount),
            r matches Ok(w) ==> (w.liquidity == amount && w.amount_a == share(
                amount as int,
                self.pool_account_a.amount as int,
                self.mint_liquidity.supply as int,
            ) && w.amount_b == share(
                amount as int,
                self.pool_account_b.amount as int,
                self.mint_liquidity.supply as int,
            )),
            r matches Ok(w) ==> (amount <= self.mint_liquidity.supply + MINIMUM_LIQUIDITY
                ==> w.amount_a <= self.pool_account_a.amount && w.amount_b
                <= self.pool_account_b.amount),
    {
        let supply = self.mint_liquidity.supply;
        let amount_a = match pro_rata(amount, self.pool_account_a.amount, supply) {
            Ok(amount_a) => amount_a,
            Err(e) => {
                return Err(e);
            },
        };
        let amount_b = match pro_rata(amount, self.pool_account_b.amount, supply) {
            Ok(amount_b) => amount_b,
            Err(e) => {
                return Err(e);
            },
        };
        proof {
            if amount <= supply + MINIMUM_LIQUIDITY {
                lemma_share_bound(amount as int, self.pool_account_a.amount as int, supply as int);
                lemma_share_bound(amount as int, self.pool_account_b.amount as int, supply as int);
            }
        }
        Ok(Withdrawal { amount_a, amount_b, liquidity: amount })
    }
}

/// The share of one reserve in checked fixed-point arithmetic.
pub fn pro_rata(amount: u64, reserve: u64, supply: u64) -> (r: Result<u64, ErrorCode>)
    ensures
        r == if !share_computable(amount as int, reserve as int, supply as int) {
            Err::<u64, ErrorCode>(ErrorCode::ArithmeticOverflow)
        } else {
            Ok(share(amount as int, reserve as int, supply as int) as u64)
        },
        r matches Ok(part) ==> part == share(amount as int, reserve as int, supply as int),
{
    let shares = match FixedPoint::from_num(amount) {
        Ok(v) => v,
        Err(e) => {
            return Err(e);
        },
    };
    let held = match FixedPoint::from_num(reserve) {
        Ok(v) => v,
        Err(e) => {
            return Err(e);
        },
    };
    proof {
        lemma_scaled_product(amount as int, reserve as int);
        lemma_scaled_fits(amount * reserve);
    }
    let product = match shares.checked_mul(held) {
        Ok(v) => v,
        Err(e) => {
            return Err(e);
        },
    };
    let outstanding = match supply.checked_add(MINIMUM_LIQUIDITY) {
        Some(sum) => sum,
        None => {
            return Err(ErrorCode::ArithmeticOverflow);
        },
    };
    let divisor = match FixedPoint::from_num(outstanding) {
        Ok(v) => v,
        Err(e) => {
            return Err(e);
        },
    };
    proof {
        lemma_scaled_quotient(amount * reserve, outstanding as int);
    }
    match product.checked_div(divisor) {
        Ok(quotient) => Ok(quotient.floor().to_num()),
        Err(e) => Err(e),
    }
}

/// Shares that exist never stand for more than the whole reserve, and all of
/// them together, the withheld ones included, stand for exactly the reserve.
pub proof fn lemma_share_bound(amount: int, reserve: int, supply: int)
    requires
        0 <= amount <= supply + MINIMUM_LIQUIDITY,
        0 <= reserve,
        0 <= supply,
    ensures
        0 <= share(amount, reserve, supply) <= reserve,
        amount == supply + MINIMUM_LIQUIDITY ==> share(amount, reserve, supply) == reserve,
{
    let d = supply + MINIMUM_LIQUIDITY;
    assert(0 <= amount * reserve <= reserve * d) by (nonlinear_arith)
        requires
            0 <= amount <= d,
            0 <= reserve,
    ;
    vstd::arithmetic::div_mod::lemma_div_pos_is_pos(amount * reserve, d);
    vstd::arithmetic::div_mod::lemma_div_is_ordered(amount * reserve, reserve * d, d);
    vstd::arithmetic::div_mod::lemma_div_by_multiple(reserve, d);
    if amount == d {
        assert(amount * reserve == reserve * d) by (nonlinear_arith)
            requires
                amount == d,
        ;
    }
}

/// What a withdrawal reads in a pool whose only deposit so far is `deposit`.
pub open spec fn funded_by(deposit: Deposit) -> WithdrawLiquidity {
    WithdrawLiquidity {
        mint_liquidity: Mint { supply: deposit.liquidity },
        pool_account_a: TokenAccount { amount: deposit.amount_a },
        pool_account_b: TokenAccount { amount: deposit.amount_b },
    }
}

/// Share round-trip: whoever makes the first deposit into a pool and then
/// withdraws every share that the deposit minted gets back no more of either
/// asset than was paid in, which in turn is no more than was asked for. Even
/// with the withheld shares on top the formula gives back just what was paid
/// in.
pub proof fn lemma_round_trip(
    ctx: DepositLiquidity,
    amount_a: u64,
    amount_b: u64,
    deposit: Deposit,
    withdrawal: Withdrawal,
)
    requires
        ctx.pool_creation(),
        ctx.outcome(amount_a, amount_b) == Ok::<Deposit, ErrorCode>(deposit),
        funded_by(deposit).outcome(deposit.liquidity) == Ok::<Withdrawal, ErrorCode>(withdrawal),
    ensures
        withdrawal.amount_a <= deposit.amount_a <= amount_a,
        withdrawal.amount_b <= deposit.amount_b <= amount_b,
        share(
            deposit.liquidity + MINIMUM_LIQUIDITY,
            deposit.amount_a as int,
            deposit.liquidity as int,
        ) == deposit.amount_a,
        share(
            deposit.liquidity + MINIMUM_LIQUIDITY,
            deposit.amount_b as int,
            deposit.liquidity as int,
        ) == deposit.amount_b,
{
    let supply = deposit.liquidity as int;
    lemma_share_bound(supply, deposit.amount_a as int, supply);
    lemma_share_bound(supply, deposit.amount_b as int, supply);
    lemma_share_bound(supply + MINIMUM_LIQUIDITY, deposit.amount_a as int, supply);
    lemma_share_bound(supply + MINIMUM_LIQUIDITY, deposit.amount_b as int, supply);
}

} // verus!
