//! Accounting core of a constant-product automated market maker.
//!
//! The engine reads balances that a ledger holds, decides how much of each
//! asset moves and how many liquidity shares are minted or burned, and hands
//! those amounts back. Moving the balances is the ledger's part.

pub mod constants;
pub mod errors;
pub mod fixed_point;
pub mod instructions;
pub mod state;

use vstd::prelude::*;
use crate::errors::ErrorCode;
use crate::state::Pubkey;

pub use instructions::{
    CreateAmm, CreatePool, Deposit, DepositLiquidity, Swap, SwapExactTokensForTokens,
    WithdrawLiquidity, Withdrawal,
};

verus! {

/// Creates the market `id` with a fee of `fee` basis points.
pub fn create_amm(ctx: &mut CreateAmm, id: Pubkey, fee: u16) -> (r: Result<(), ErrorCode>)
    ensures
        final(ctx).admin == old(ctx).admin,
        match old(ctx).outcome(id, fee) {
            Ok(amm) => r == Ok::<(), ErrorCode>(()) && final(ctx).amm_account == Some(amm)
                && amm.wf(),
            Err(e) => r == Err::<(), ErrorCode>(e) && final(ctx).amm_account
                == old(ctx).amm_account,
        },
{
    ctx.create_amm(id, fee)
}

/// Creates the pool of two assets under a market.
pub fn create_pool(ctx: &mut CreatePool) -> (r: Result<(), ErrorCode>)
    ensures
        final(ctx).amm == old(ctx).amm,
        final(ctx).a_mint == old(ctx).a_mint,
        final(ctx).b_mint == old(ctx).b_mint,
        match old(ctx).outcome() {
            Ok(pool) => r == Ok::<(), ErrorCode>(()) && final(ctx).pool == Some(pool),
            Err(e) => r == Err::<(), ErrorCode>(e) && final(ctx).pool == old(ctx).pool,
        },
{
    ctx.create_pool()
}

/// Works out a deposit of up to `amount_a` of asset A and `amount_b` of asset B.
pub fn deposit_liquidity(ctx: &DepositLiquidity, amount_a: u64, amount_b: u64) -> (r: Result<
    Deposit,
    ErrorCode,
>)
    ensures
        r == ctx.outcome(amount_a, amount_b),
{
    ctx.deposit_liquidity(amount_a, amount_b)
}

/// Works out the withdrawal of `amount` liquidity shares.
pub fn withdraw_liquidity(ctx: &WithdrawLiquidity, amount: u64) -> (r: Result<
    Withdrawal,
    ErrorCode,
>)
    ensures
        r == ctx.outcome(amount),
{
    ctx.withdraw_liquidity(amount)
}

/// Prices a swap of `input_amount` of asset A (`swap_a`) or of asset B for
/// the other asset, and refuses it where the pool would pay less than
/// `min_output_amount`.
pub fn swap_exact_tokens_for_tokens(
    ctx: &SwapExactTokensForTokens,
    swap_a: bool,
    input_amount: u64,
    min_output_amount: u64,
) -> (r: Result<Swap, ErrorCode>)
    ensures
        r == ctx.outcome(swap_a, input_amount, min_output_amount),
{
    ctx.swap_exact_tokens_fro_tokens(swap_a, input_amount, min_output_amount)
}

} // verus!
