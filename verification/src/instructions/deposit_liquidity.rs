//! Liquidity deposit: how much of each asset a depositor pays in, and how many
//! liquidity shares that is worth.

use vstd::prelude::*;
use crate::constants::MINIMUM_LIQUIDITY;
use crate::errors::ErrorCode;
use crate::fixed_point::{
    is_isqrt, isqrt, lemma_isqrt_exists, lemma_scaled_fits, lemma_scaled_isqrt,
    lemma_scaled_multiple, lemma_scaled_product, lemma_scaled_quotient, representable, scale,
    FixedPoint,
};
use crate::state::TokenAccount;

verus! {

/// The price ratio `reserve_a / reserve_b` as a fixed-point numerator: the
/// quotient in units of 2^-64, rounded down.
pub open spec fn ratio(reserve_a: int, reserve_b: int) -> int {
    reserve_a * scale() / reserve_b
}

/// `amount` times a fixed-point `ratio`, rounded down to an integer.
pub open spec fn scale_by(amount: int, ratio: int) -> int {
    amount * ratio / scale()
}

/// The balances a deposit reads: the pool's two reserves and the depositor's
/// holdings of the two assets.
#[derive(Clone, Copy, Debug, PartialEq, Eq)]
pub struct DepositLiquidity {
    pub pool_account_a: TokenAccount,
    pub pool_account_b: TokenAccount,
    pub deposit_account_a: TokenAccount,
    pub deposit_account_b: TokenAccount,
}

/// The amounts of an accepted deposit.
#[derive(Clone, Copy, Debug, PartialEq, Eq)]
pub struct Deposit {
    /// What the depositor pays into the reserve of asset A.
    pub amount_a: u64,
    /// What the depositor pays into the reserve of asset B.
    pub amount_b: u64,
    /// The liquidity shares minted to the depositor.
    pub liquidity: u64,
}

impl DepositLiquidity {
    /// The requested amount of asset A, capped by what the depositor holds.
    pub open spec fn offered_a(&self, amount_a: u64) -> u64 {
        if amount_a > self.deposit_account_a.amount {
            self.deposit_account_a.amount
        } else {
            amount_a
        }
    }

    /// The requested amount of asset B, capped by what the depositor holds.
    pub open spec fn offered_b(&self, amount_b: u64) -> u64 {
        if amount_b > self.deposit_account_b.amount {
            self.deposit_account_b.amount
        } else {
            amount_b
        }
    }

    /// Whether the pool holds nothing, so that this deposit sets its price.
    pub open spec fn pool_creation(&self) -> bool {
        self.pool_account_a.amount == 0 && self.pool_account_b.amount == 0
    }

    /// The amounts of A and B that are paid in. Into an empty pool the
    /// offered amounts go as they are. Otherwise one side is fixed and the
    /// other follows from the price ratio: where the pool holds more of A
    /// than of B, the offered B is fixed; else the offered A is.
    pub open spec fn amounts(&self, amount_a: u64, amount_b: u64) -> Result<(int, int), ErrorCode> {
        let a = self.offered_a(amount_a) as int;
        let b = self.offered_b(amount_b) as int;
        let reserve_a = self.pool_account_a.amount as int;
        let reserve_b = self.pool_account_b.amount as int;
        let price = ratio(reserve_a, reserve_b);
        if self.pool_creation() {
            Ok((a, b))
        } else if !representable(reserve_a) || !representable(reserve_b) {
            Err(ErrorCode::ArithmeticOverflow)
        } else if reserve_b == 0 {
            Err(ErrorCode::DivisionByZero)
        } else if reserve_a > reserve_b {
            if !representable(b) || !representable(scale_by(b, price)) {
                Err(ErrorCode::ArithmeticOverflow)
            } else {
                Ok((scale_by(b, price), b))
            }
        } else {
            if !representable(a) || !representable(scale_by(a, price)) {
                Err(ErrorCode::ArithmeticOverflow)
            } else {
                Ok((a, scale_by(a, price)))
            }
        }
    }

    /// What a deposit request comes to: the amounts to move and the shares to
    /// mint, or the reason for refusing it.
    pub open spec fn outcome(&self, amount_a: u64, amount_b: u64) -> Result<Deposit, ErrorCode> {
        match self.amounts(amount_a, amount_b) {
            Err(e) => Err(e),
            Ok((used_a, used_b)) => {
                let minted = isqrt(used_a * used_b);
                if !representable(used_a) || !representable(used_b) || !representable(
                    used_a * used_b,
                ) {
                    Err(ErrorCode::ArithmeticOverflow)
                } else if self.pool_creation() && minted < MINIMUM_LIQUIDITY {
                    Err(ErrorCode::DepositTooSmall)
                } else {
                    Ok(
                        Deposit {
                            amount_a: used_a as u64,
                            amount_b: used_b as u64,
                            liquidity: if self.pool_creation() {
                                (minted - MINIMUM_LIQUIDITY) as u64
                            } else {
                                minted as u64
                            },
                        },
                    )
                }
            },
        }
    }

    /// Works out a deposit of up to `amount_a` of asset A and `amount_b` of
    /// asset B. Nothing is moved: the amounts to move and the shares to mint
    /// are returned.
    pub fn deposit_liquidity(&self, amount_a: u64, amount_b: u64) -> (r: Result<Deposit, ErrorCode>)
        ensures
            r == self.outcome(amount_a, amount_b),
            r matches Ok(d) ==> (self.pool_creation() ==> d.amount_a == self.offered_a(amount_a)
                && d.amount_b == self.offered_b(amount_b)),
            self.pool_creation() && representable(self.offered_a(amount_a) as int)
                && representable(self.offered_b(amount_b) as int) && isqrt(
                self.offered_a(amount_a) * self.offered_b(amount_b),
            ) < MINIMUM_LIQUIDITY ==> r == Err::<Deposit, ErrorCode>(ErrorCode::DepositTooSmall),
            self.pool_creation() && representable(self.offered_a(amount_a) as int)
                && representable(self.offered_b(amount_b) as int) && isqrt(
                self.offered_a(amount_a) * self.offered_b(amount_b),
            ) == MINIMUM_LIQUIDITY ==> (r matches Ok(d) && d.liquidity == 0),
    {
        let offered_a = if amount_a > self.deposit_account_a.amount {
            self.deposit_account_a.amount
        } else {
            amount_a
        };
        let offered_b = if amount_b > self.deposit_account_b.amount {
            self.deposit_account_b.amount
        } else {
            amount_b
        };
        let pool_a = self.pool_account_a.amount;
        let pool_b = self.pool_account_b.amount;
        let pool_creation = pool_a == 0 && pool_b == 0;
        proof {
            lemma_small_root_small_product(offered_a as int, offered_b as int);
        }
        let (used_a, used_b) = if pool_creation {
            (offered_a, offered_b)
        } else {
            let price = match price_ratio(pool_a, pool_b) {
                Ok(price) => price,
                Err(e) => {
                    return Err(e);
                },
            };
            if pool_a > pool_b {
                match proportional(offered_b, price) {
                    Ok(derived) => (derived, offered_b),
                    Err(e) => {
                        return Err(e);
                    },
                }
            } else {
                match proportional(offered_a, price) {
                    Ok(derived) => (offered_a, derived),
                    Err(e) => {
                        return Err(e);
                    },
                }
            }
        };
        let minted = match geometric_mean(used_a, used_b) {
            Ok(minted) => minted,
            Err(e) => {
                return Err(e);
            },
        };
        let liquidity = if pool_creation {
            if minted < MINIMUM_LIQUIDITY {
                return Err(ErrorCode::DepositTooSmall);
            }
            minted - MINIMUM_LIQUIDITY
        } else {
            minted
        };
        Ok(Deposit { amount_a: used_a, amount_b: used_b, liquidity })
    }
}

/// The price ratio of two reserves in checked fixed-point arithmetic.
pub fn price_ratio(reserve_a: u64, reserve_b: u64) -> (r: Result<FixedPoint, ErrorCode>)
    ensures
        !representable(reserve_a as int) || !representable(reserve_b as int) ==> (r matches Err(e)
            && e == ErrorCode::ArithmeticOverflow),
        representable(reserve_a as int) && reserve_b == 0 ==> (r matches Err(e) && e
            == ErrorCode::DivisionByZero),
        representable(reserve_a as int) && representable(reserve_b as int) && reserve_b != 0 ==> (r
            matches Ok(price) && price@ == ratio(reserve_a as int, reserve_b as int)),
{
    let a = match FixedPoint::from_num(reserve_a) {
        Ok(v) => v,
        Err(e) => {
            return Err(e);
        },
    };
    let b = match FixedPoint::from_num(reserve_b) {
        Ok(v) => v,
        Err(e) => {
            return Err(e);
        },
    };
    proof {
        if reserve_b != 0 {
            lemma_scaled_quotient(reserve_a as int, reserve_b as int);
            lemma_scaled_fits(reserve_a as int);
        }
    }
    a.checked_div(b)
}

/// `amount` times the fixed-point `price`, rounded down to an integer, in
/// checked fixed-point arithmetic.
pub fn proportional(amount: u64, price: FixedPoint) -> (r: Result<u64, ErrorCode>)
    ensures
        r == if !representable(amount as int) || !representable(scale_by(amount as int, price@)) {
            Err::<u64, ErrorCode>(ErrorCode::ArithmeticOverflow)
        } else {
            Ok(scale_by(amount as int, price@) as u64)
        },
        r matches Ok(derived) ==> derived == scale_by(amount as int, price@),
{
    let fixed = match FixedPoint::from_num(amount) {
        Ok(v) => v,
        Err(e) => {
            return Err(e);
        },
    };
    proof {
        price.lemma_view_range();
        lemma_scaled_multiple(amount as int, price@);
    }
    match fixed.checked_mul(price) {
        Ok(v) => Ok(v.to_num()),
        Err(e) => Err(e),
    }
}

/// The integer square root of the product of two amounts, in checked
/// fixed-point arithmetic: the liquidity shares that the two amounts are
/// worth.
pub fn geometric_mean(amount_a: u64, amount_b: u64) -> (r: Result<u64, ErrorCode>)
    ensures
        r == if !representable(amount_a as int) || !representable(amount_b as int)
            || !representable(amount_a * amount_b) {
            Err::<u64, ErrorCode>(ErrorCode::ArithmeticOverflow)
        } else {
            Ok(isqrt(amount_a * amount_b) as u64)
        },
        r matches Ok(root) ==> root == isqrt(amount_a * amount_b) && is_isqrt(
            amount_a * amount_b,
            root as int,
        ),
{
    let a = match FixedPoint::from_num(amount_a) {
        Ok(v) => v,
        Err(e) => {
            return Err(e);
        },
    };
    let b = match FixedPoint::from_num(amount_b) {
        Ok(v) => v,
        Err(e) => {
            return Err(e);
        },
    };
    proof {
        lemma_scaled_product(amount_a as int, amount_b as int);
        lemma_scaled_fits(amount_a * amount_b);
        lemma_scaled_isqrt(amount_a * amount_b);
        lemma_isqrt_exists(amount_a * amount_b);
    }
    match a.checked_mul(b) {
        Ok(product) => Ok(product.sqrt().to_num()),
        Err(e) => Err(e),
    }
}

/// A product whose integer square root is at most the locked minimum is
/// itself small.
proof fn lemma_small_root_small_product(a: int, b: int)
    requires
        0 <= a,
        0 <= b,
    ensures
        a * b >= 0,
        isqrt(a * b) <= MINIMUM_LIQUIDITY ==> representable(a * b),
{
    assert(a * b >= 0) by (nonlinear_arith)
        requires
            0 <= a,
            0 <= b,
    ;
    lemma_isqrt_exists(a * b);
    let r = isqrt(a * b);
    if r <= MINIMUM_LIQUIDITY {
        assert((r + 1) * (r + 1) <= 1001 * 1001) by (nonlinear_arith)
            requires
                0 <= r <= 1000,
        ;
    }
}

/// An amount derived through the rounded price ratio is never above the exact
/// proportion `amount * reserve_a / reserve_b`, and short of it by less than
/// `1 + amount / reserve_b`.
pub proof fn lemma_proportion_bound(amount: int, reserve_a: int, reserve_b: int)
    requires
        0 <= amount,
        0 <= reserve_a,
        0 < reserve_b <= i64::MAX,
    ensures
        0 <= scale_by(amount, ratio(reserve_a, reserve_b)),
        scale_by(amount, ratio(reserve_a, reserve_b)) * reserve_b <= amount * reserve_a,
        amount * reserve_a - scale_by(amount, ratio(reserve_a, reserve_b)) * reserve_b < reserve_b
            + amount,
{
    let s = scale();
    let price = ratio(reserve_a, reserve_b);
    let derived = scale_by(amount, price);
    assert(0 <= reserve_a * s) by (nonlinear_arith)
        requires
            0 <= reserve_a,
            0 < s,
    ;
    vstd::arithmetic::div_mod::lemma_fundamental_div_mod(reserve_a * s, reserve_b);
    vstd::arithmetic::div_mod::lemma_mod_pos_bound(reserve_a * s, reserve_b);
    vstd::arithmetic::div_mod::lemma_div_pos_is_pos(reserve_a * s, reserve_b);
    let m = (reserve_a * s) % reserve_b;
    assert(0 <= amount * price) by (nonlinear_arith)
        requires
            0 <= amount,
            0 <= price,
    ;
    vstd::arithmetic::div_mod::lemma_fundamental_div_mod(amount * price, s);
    vstd::arithmetic::div_mod::lemma_mod_pos_bound(amount * price, s);
    vstd::arithmetic::div_mod::lemma_div_pos_is_pos(amount * price, s);
    let n = (amount * price) % s;
    let gap = amount * reserve_a - derived * reserve_b;
    assert(s * gap == amount * m + reserve_b * n) by (nonlinear_arith)
        requires
            gap == amount * reserve_a - derived * reserve_b,
            reserve_a * s == reserve_b * price + m,
            amount * price == s * derived + n,
    ;
    assert(0 <= gap < reserve_b + amount) by (nonlinear_arith)
        requires
            s * gap == amount * m + reserve_b * n,
            0 <= m < reserve_b,
            0 <= n < s,
            0 <= amount,
            0 < reserve_b < s,
    ;
}

/// Deposit ratio preservation: a deposit into a funded pool that holds no
/// less of asset A than of asset B leaves the price ratio where it was, up to
/// rounding. With `a`, `b` the reserves before and `a'`, `b'` after, the
/// ratio does not rise, and it falls by less than one over the smaller
/// reserve: `0 <= a/b - a'/b' < 1/b`, stated here without division.
pub proof fn lemma_deposit_keeps_ratio(
    ctx: DepositLiquidity,
    amount_a: u64,
    amount_b: u64,
    deposit: Deposit,
)
    requires
        ctx.outcome(amount_a, amount_b) == Ok::<Deposit, ErrorCode>(deposit),
        !ctx.pool_creation(),
        ctx.pool_account_a.amount >= ctx.pool_account_b.amount,
    ensures
        ctx.pool_account_b.amount > 0,
        (ctx.pool_account_a.amount + deposit.amount_a) * ctx.pool_account_b.amount
            <= ctx.pool_account_a.amount * (ctx.pool_account_b.amount + deposit.amount_b),
        ctx.pool_account_a.amount * (ctx.pool_account_b.amount + deposit.amount_b) - (
        ctx.pool_account_a.amount + deposit.amount_a) * ctx.pool_account_b.amount
            < ctx.pool_account_b.amount + deposit.amount_b,
{
    let a = ctx.offered_a(amount_a) as int;
    let b = ctx.offered_b(amount_b) as int;
    let reserve_a = ctx.pool_account_a.amount as int;
    let reserve_b = ctx.pool_account_b.amount as int;
    let used_a = deposit.amount_a as int;
    let used_b = deposit.amount_b as int;
    assert(ctx.amounts(amount_a, amount_b) is Ok);
    if reserve_a > reserve_b {
        lemma_proportion_bound(b, reserve_a, reserve_b);
        assert(used_b == b);
        assert(used_a == scale_by(b, ratio(reserve_a, reserve_b)));
        assert((reserve_a + used_a) * reserve_b <= reserve_a * (reserve_b + used_b)
            && reserve_a * (reserve_b + used_b) - (reserve_a + used_a) * reserve_b < reserve_b
            + used_b) by (nonlinear_arith)
            requires
                used_a * reserve_b <= used_b * reserve_a,
                used_b * reserve_a - used_a * reserve_b < reserve_b + used_b,
        ;
    } else {
        assert(reserve_a == reserve_b);
        vstd::arithmetic::div_mod::lemma_div_by_multiple(scale(), reserve_b);
        assert(ratio(reserve_a, reserve_b) == scale()) by (nonlinear_arith)
            requires
                reserve_a == reserve_b,
                scale() * reserve_b / reserve_b == scale(),
                ratio(reserve_a, reserve_b) == reserve_a * scale() / reserve_b,
        ;
        vstd::arithmetic::div_mod::lemma_div_by_multiple(a, scale());
        assert(used_a == a);
        assert(used_b == a);
        assert((reserve_a + used_a) * reserve_b == reserve_a * (reserve_b + used_b))
            by (nonlinear_arith)
            requires
                reserve_a == reserve_b,
                used_a == used_b,
        ;
    }
}

} // verus!
