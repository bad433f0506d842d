//! Exact-input swap: the trader names what goes in, the pool's reserves decide
//! what comes out.

use vstd::prelude::*;
use crate::constants::FEE_DENOMINATOR;
use crate::errors::ErrorCode;
use crate::fixed_point::{
    lemma_scaled_fits, lemma_scaled_product, lemma_scaled_quotient, representable, scale,
    FixedPoint,
};
use crate::state::{Amm, TokenAccount};

verus! {

/// What is left of `input` once the fee of `fee` basis points is taken out.
pub open spec fn taxed_input(input: int, fee: int) -> int {
    input - input * fee / (FEE_DENOMINATOR as int)
}

/// What the pool pays for `taxed` units coming in: the constant-product
/// formula, rounded down.
pub open spec fn swap_output(taxed: int, reserve_in: int, reserve_out: int) -> int {
    taxed * reserve_out / (reserve_in + taxed)
}

/// Whether the fee can be taken out of `input` in 64-bit arithmetic.
pub open spec fn fee_computable(input: int, fee: int) -> bool {
    input * fee <= u64::MAX && input * fee / (FEE_DENOMINATOR as int) <= input
}

/// Whether every step of the pricing formula stays representable.
pub open spec fn price_computable(taxed: int, reserve_in: int, reserve_out: int) -> bool {
    &&& representable(taxed)
    &&& representable(reserve_out)
    &&& representable(taxed * reserve_out)
    &&& representable(reserve_in)
    &&& representable(reserve_in + taxed)
}

/// The balances a swap reads: the market's fee, the pool's two reserves and
/// the trader's holdings of the two assets.
#[derive(Clone, Copy, Debug, PartialEq, Eq)]
pub struct SwapExactTokensForTokens {
    pub amm: Amm,
    pub pool_account_a: TokenAccount,
    pub pool_account_b: TokenAccount,
    pub trader_account_a: TokenAccount,
    pub trader_account_b: TokenAccount,
}

/// The amounts of an accepted swap.
#[derive(Clone, Copy, Debug, PartialEq, Eq)]
pub struct Swap {
    /// What the trader pays into the reserve of the input asset.
    pub input: u64,
    /// The part of `input` that was priced; the rest is the fee, which stays
    /// in the pool.
    pub taxed_input: u64,
    /// What the pool pays the trader out of the reserve of the other asset.
    pub output: u64,
    /// The product of the two reserves before the swap.
    pub invariant_before: u64,
}

impl SwapExactTokensForTokens {
    /// What the trader can pay: the requested amount, capped by the holding
    /// of the input asset.
    pub open spec fn input(&self, swap_a: bool, input_amount: u64) -> u64 {
        let held = if swap_a {
            self.trader_account_a.amount
        } else {
            self.trader_account_b.amount
        };
        if input_amount > held {
            held
        } else {
            input_amount
        }
    }

    /// The reserve of the asset that the trader pays in.
    pub open spec fn reserve_in(&self, swap_a: bool) -> u64 {
        if swap_a {
            self.pool_account_a.amount
        } else {
            self.pool_account_b.amount
        }
    }

    /// The reserve of the asset that the trader is paid in.
    pub open spec fn reserve_out(&self, swap_a: bool) -> u64 {
        if swap_a {
            self.pool_account_b.amount
        } else {
            self.pool_account_a.amount
        }
    }

    /// What the pricing formula gives for the capped input, before the
    /// trader's minimum is looked at: the output, or why there is none.
    pub open spec fn quote(&self, swap_a: bool, input_amount: u64) -> Result<int, ErrorCode> {
        let input = self.input(swap_a, input_amount) as int;
        let fee = self.amm.fee as int;
        let reserve_in = self.reserve_in(swap_a) as int;
        let reserve_out = self.reserve_out(swap_a) as int;
        let taxed = taxed_input(input, fee);
        if !fee_computable(input, fee) || !price_computable(taxed, reserve_in, reserve_out) {
            Err(ErrorCode::ArithmeticOverflow)
        } else if reserve_in + taxed == 0 {
            Err(ErrorCode::DivisionByZero)
        } else {
            Ok(swap_output(taxed, reserve_in, reserve_out))
        }
    }

    /// What a swap request comes to: the amounts to move, or the reason for
    /// refusing it.
    pub open spec fn outcome(&self, swap_a: bool, input_amount: u64, min_output_amount: u64)
        -> Result<Swap, ErrorCode> {
        let input = self.input(swap_a, input_amount) as int;
        let product = self.pool_account_a.amount * self.pool_account_b.amount;
        match self.quote(swap_a, input_amount) {
            Err(e) => Err(e),
            Ok(output) => if output < min_output_amount {
                Err(ErrorCode::OutputTooSmall)
            } else if product > u64::MAX {
                Err(ErrorCode::ArithmeticOverflow)
            } else {
                Ok(
                    Swap {
                        input: input as u64,
                        taxed_input: taxed_input(input, self.amm.fee as int) as u64,
                        output: output as u64,
                        invariant_before: product as u64,
                    },
                )
            },
        }
    }

    /// The two reserves, A first, once the amounts of `swap` are moved.
    pub open spec fn reserves_after(&self, swap_a: bool, swap: Swap) -> (int, int) {
        if swap_a {
            (self.pool_account_a.amount + swap.input, self.pool_account_b.amount - swap.output)
        } else {
            (self.pool_account_a.amount - swap.output, self.pool_account_b.amount + swap.input)
        }
    }

    /// Prices a swap of `input_amount` of asset A (`swap_a`) or of asset B
    /// for the other asset, and refuses it where the pool would pay less
    /// than `min_output_amount`. Nothing is moved: the amounts to move are
    /// returned.
    pub fn swap_exact_tokens_fro_tokens(
        &self,
        swap_a: bool,
        input_amount: u64,
        min_output_amount: u64,
    ) -> (r: Result<Swap, ErrorCode>)
        ensures
            r == self.outcome(swap_a, input_amount, min_output_amount),
            self.quote(swap_a, input_amount) matches Ok(output) && output < min_output_amount
                ==> r == Err::<Swap, ErrorCode>(ErrorCode::OutputTooSmall),
            r matches Ok(s) ==> (s.taxed_input <= s.input <= input_amount && s.output
                >= min_output_amount),
    {
        let input = if swap_a && input_amount > self.trader_account_a.amount {
            self.trader_account_a.amount
        } else if !swap_a && input_amount > self.trader_account_b.amount {
            self.trader_account_b.amount
        } else {
            input_amount
        };
        let fee = self.amm.fee as u64;
        let charged = match input.checked_mul(fee) {
            Some(product) => product / FEE_DENOMINATOR,
            None => {
                return Err(ErrorCode::ArithmeticOverflow);
            },
        };
        let taxed_input = match input.checked_sub(charged) {
            Some(rest) => rest,
            None => {
                return Err(ErrorCode::ArithmeticOverflow);
            },
        };
        let pool_a = self.pool_account_a.amount;
        let pool_b = self.pool_account_b.amount;
        let priced = if swap_a {
            constant_product_output(taxed_input, pool_a, pool_b)
        } else {
            constant_product_output(taxed_input, pool_b, pool_a)
        };
        let output = match priced {
            Ok(output) => output,
            Err(e) => {
                return Err(e);
            },
        };
        if output < min_output_amount {
            return Err(ErrorCode::OutputTooSmall);
        }
        let invariant_before = match pool_a.checked_mul(pool_b) {
            Some(product) => product,
            None => {
                return Err(ErrorCode::ArithmeticOverflow);
            },
        };
        Ok(Swap { input, taxed_input, output, invariant_before })
    }
}

impl Swap {
    /// The check that closes a swap, on the reserves as they are read back
    /// after the amounts were moved: their product must not have gone down.
    pub fn check_invariant(&self, reserve_a: u64, reserve_b: u64) -> (r: Result<(), ErrorCode>)
        ensures
            r == if reserve_a * reserve_b > u64::MAX {
                Err::<(), ErrorCode>(ErrorCode::ArithmeticOverflow)
            } else if reserve_a * reserve_b < self.invariant_before {
                Err(ErrorCode::InvariantViolated)
            } else {
                Ok(())
            },
    {
        match reserve_a.checked_mul(reserve_b) {
            None => Err(ErrorCode::ArithmeticOverflow),
            Some(product) => if product < self.invariant_before {
                Err(ErrorCode::InvariantViolated)
            } else {
                Ok(())
            },
        }
    }
}

/// The constant-product formula in checked fixed-point arithmetic.
pub fn constant_product_output(taxed_input: u64, reserve_in: u64, reserve_out: u64) -> (r: Result<
    u64,
    ErrorCode,
>)
    ensures
        r == if !price_computable(taxed_input as int, reserve_in as int, reserve_out as int) {
            Err(ErrorCode::ArithmeticOverflow)
        } else if reserve_in + taxed_input == 0 {
            Err(ErrorCode::DivisionByZero)
        } else {
            Ok(swap_output(taxed_input as int, reserve_in as int, reserve_out as int) as u64)
        },
        r matches Ok(output) ==> output == swap_output(
            taxed_input as int,
            reserve_in as int,
            reserve_out as int,
        ),
{
    let taxed = match FixedPoint::from_num(taxed_input) {
        Ok(v) => v,
        Err(e) => {
            return Err(e);
        },
    };
    let out = match FixedPoint::from_num(reserve_out) {
        Ok(v) => v,
        Err(e) => {
            return Err(e);
        },
    };
    proof {
        lemma_scaled_product(taxed_input as int, reserve_out as int);
        lemma_scaled_fits(taxed_input * reserve_out);
    }
    let product = match taxed.checked_mul(out) {
        Ok(v) => v,
        Err(e) => {
            return Err(e);
        },
    };
    let into = match FixedPoint::from_num(reserve_in) {
        Ok(v) => v,
        Err(e) => {
            return Err(e);
        },
    };
    proof {
        assert(into@ + taxed@ == (reserve_in + taxed_input) * scale()) by (nonlinear_arith)
            requires
                into@ == reserve_in * scale(),
                taxed@ == taxed_input * scale(),
        ;
        lemma_scaled_fits(reserve_in + taxed_input);
    }
    let divisor = match into.checked_add(taxed) {
        Ok(v) => v,
        Err(e) => {
            return Err(e);
        },
    };
    proof {
        if reserve_in + taxed_input != 0 {
            lemma_scaled_quotient(taxed_input * reserve_out, reserve_in + taxed_input);
            lemma_scaled_fits(taxed_input * reserve_out);
        }
    }
    let quotient = match product.checked_div(divisor) {
        Ok(v) => v,
        Err(e) => {
            return Err(e);
        },
    };
    Ok(quotient.to_num())
}

/// Fee bound: with a fee below one hundred percent the priced part of an
/// input is never negative and never more than the input, and with no fee it
/// is the whole input.
pub proof fn lemma_fee_bound(input: u64, fee: u16)
    requires
        fee < FEE_DENOMINATOR,
    ensures
        0 <= taxed_input(input as int, fee as int) <= input,
        fee == 0 ==> taxed_input(input as int, fee as int) == input,
        fee_computable(input as int, fee as int) <==> input * fee <= u64::MAX,
{
    let d = FEE_DENOMINATOR as int;
    assert(0 <= input * fee <= input * d) by (nonlinear_arith)
        requires
            0 <= input,
            0 <= fee < d,
    ;
    vstd::arithmetic::div_mod::lemma_div_pos_is_pos(input * fee, d);
    vstd::arithmetic::div_mod::lemma_div_is_ordered(input * fee, input * d, d);
    vstd::arithmetic::div_mod::lemma_div_by_multiple(input as int, d);
    if fee == 0 {
        assert(input * fee == 0) by (nonlinear_arith)
            requires
                fee == 0,
        ;
    }
}

/// The constant-product formula never pays out more than the reserve, and
/// what it pays leaves the product of the reserves no smaller, whatever part
/// of the input was priced.
pub proof fn lemma_output_keeps_product(input: int, taxed: int, reserve_in: int, reserve_out: int)
    requires
        0 <= taxed <= input,
        0 <= reserve_in,
        0 <= reserve_out,
        0 < reserve_in + taxed,
    ensures
        0 <= swap_output(taxed, reserve_in, reserve_out) <= reserve_out,
        (reserve_in + input) * (reserve_out - swap_output(taxed, reserve_in, reserve_out))
            >= reserve_in * reserve_out,
{
    let d = reserve_in + taxed;
    let x = taxed * reserve_out;
    let o = swap_output(taxed, reserve_in, reserve_out);
    assert(0 <= x <= reserve_out * d) by (nonlinear_arith)
        requires
            x == taxed * reserve_out,
            d == reserve_in + taxed,
            0 <= taxed,
            0 <= reserve_in,
            0 <= reserve_out,
    ;
    vstd::arithmetic::div_mod::lemma_div_pos_is_pos(x, d);
    vstd::arithmetic::div_mod::lemma_div_is_ordered(x, reserve_out * d, d);
    vstd::arithmetic::div_mod::lemma_div_by_multiple(reserve_out, d);
    vstd::arithmetic::div_mod::lemma_fundamental_div_mod(x, d);
    vstd::arithmetic::div_mod::lemma_mod_pos_bound(x, d);
    assert(o * d <= x) by (nonlinear_arith)
        requires
            x == d * o + x % d,
            0 <= x % d,
    ;
    assert((reserve_in + input) * (reserve_out - o) >= reserve_in * reserve_out)
        by (nonlinear_arith)
        requires
            o * d <= x,
            x == taxed * reserve_out,
            d == reserve_in + taxed,
            0 <= taxed <= input,
            0 <= reserve_in,
            0 <= o <= reserve_out,
    ;
}

/// Invariant monotonicity: once the amounts of an accepted swap are moved,
/// neither reserve is negative and the product of the reserves is at least
/// what it was, so that the closing check on those reserves does not find the
/// invariant violated.
pub proof fn lemma_swap_keeps_invariant(
    ctx: SwapExactTokensForTokens,
    swap_a: bool,
    input_amount: u64,
    min_output_amount: u64,
    swap: Swap,
)
    requires
        ctx.outcome(swap_a, input_amount, min_output_amount) == Ok::<Swap, ErrorCode>(swap),
    ensures
        ctx.reserves_after(swap_a, swap).0 >= 0,
        ctx.reserves_after(swap_a, swap).1 >= 0,
        ctx.reserves_after(swap_a, swap).0 * ctx.reserves_after(swap_a, swap).1
            >= ctx.pool_account_a.amount * ctx.pool_account_b.amount,
        ctx.reserves_after(swap_a, swap).0 * ctx.reserves_after(swap_a, swap).1
            >= swap.invariant_before,
{
    let input = ctx.input(swap_a, input_amount) as int;
    let fee = ctx.amm.fee as int;
    let reserve_in = ctx.reserve_in(swap_a) as int;
    let reserve_out = ctx.reserve_out(swap_a) as int;
    let taxed = taxed_input(input, fee);
    assert(0 <= input * fee) by (nonlinear_arith)
        requires
            0 <= input,
            0 <= fee,
    ;
    vstd::arithmetic::div_mod::lemma_div_pos_is_pos(input * fee, FEE_DENOMINATOR as int);
    lemma_output_keeps_product(input, taxed, reserve_in, reserve_out);
    let a = ctx.pool_account_a.amount as int;
    let b = ctx.pool_account_b.amount as int;
    let o = swap_output(taxed, reserve_in, reserve_out);
    if swap_a {
        assert((a + input) * (b - o) >= a * b);
    } else {
        assert((a - o) * (b + input) >= a * b) by (nonlinear_arith)
            requires
                (b + input) * (a - o) >= b * a,
        ;
    }
}

} // verus!
