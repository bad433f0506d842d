//! Checked binary fixed-point arithmetic with 64 integer and 64 fractional bits.
//!
//! A [`FixedPoint`] is a non-negative number `n / 2^64` kept as the numerator
//! `n`, which is also its view. Every operation either returns the exactly
//! rounded result or reports why it cannot; nothing wraps around.

use vstd::prelude::*;
use fixed::types::I64F64;
use fixed_sqrt::FastSqrt;
use crate::errors::ErrorCode;

verus! {

/// Two to the power 64: the denominator of every fixed-point value.
pub open spec fn scale() -> int {
    0x1_0000_0000_0000_0000
}

/// Two to the power 32: the square root of [`scale`].
pub open spec fn half_scale() -> int {
    0x1_0000_0000
}

/// The largest numerator a fixed-point value can hold, 2^127 - 1.
pub open spec fn max_bits() -> int {
    i128::MAX as int
}

/// Whether `x` is an integer that a fixed-point value can hold: `0 <= x < 2^63`.
pub open spec fn representable(x: int) -> bool {
    0 <= x <= i64::MAX
}

/// Whether `r` is the integer square root of `n`: the largest integer whose
/// square is not above `n`.
pub open spec fn is_isqrt(n: int, r: int) -> bool {
    0 <= r && r * r <= n < (r + 1) * (r + 1)
}

/// The integer square root of `n`, for `n >= 0`.
pub open spec fn isqrt(n: int) -> int {
    choose|r: int| is_isqrt(n, r)
}

/// `I64F64::from_num` on a `u64`: the raw bits of the fixed-point number equal
/// to `x`, which are `x` shifted left by 64 places. Values from 2^63 on do not
/// fit and are left out.
#[verifier::external_body]
fn raw_from_num(x: u64) -> (bits: i128)
    requires
        x <= i64::MAX,
    ensures
        bits == x * scale(),
{
    I64F64::from_num(x).to_bits()
}

/// `I64F64::to_num::<u64>` on a non-negative value: the integer part, that is
/// the raw bits with the 64 fractional bits discarded.
#[verifier::external_body]
fn raw_to_num(bits: i128) -> (x: u64)
    requires
        bits >= 0,
    ensures
        x == bits as int / scale(),
{
    I64F64::from_bits(bits).to_num::<u64>()
}

/// `I64F64::checked_add`: the sum of the raw bits, or `None` where it leaves
/// the range of `i128`.
#[verifier::external_body]
fn raw_checked_add(a: i128, b: i128) -> (sum: Option<i128>)
    ensures
        sum == if i128::MIN <= a + b <= i128::MAX {
            Some((a + b) as i128)
        } else {
            None
        },
{
    match I64F64::from_bits(a).checked_add(I64F64::from_bits(b)) {
        Some(s) => Some(s.to_bits()),
        None => None,
    }
}

/// `I64F64::checked_mul` on non-negative values: the exact 256-bit product of
/// the raw bits shifted right by 64 places, which rounds down, or `None`
/// where that does not fit in `i128`.
#[verifier::external_body]
fn raw_checked_mul(a: i128, b: i128) -> (product: Option<i128>)
    requires
        a >= 0,
        b >= 0,
    ensures
        product == if a * b / scale() <= max_bits() {
            Some((a * b / scale()) as i128)
        } else {
            None
        },
{
    match I64F64::from_bits(a).checked_mul(I64F64::from_bits(b)) {
        Some(p) => Some(p.to_bits()),
        None => None,
    }
}

/// `I64F64::checked_div` on non-negative values: `None` for a zero divisor;
/// otherwise the dividend's raw bits shifted left by 64 places and divided by
/// the divisor's, rounded down, or `None` where that does not fit in `i128`.
#[verifier::external_body]
fn raw_checked_div(a: i128, b: i128) -> (quotient: Option<i128>)
    requires
        a >= 0,
        b >= 0,
    ensures
        b == 0 ==> quotient.is_none(),
        b != 0 ==> quotient == if a * scale() / (b as int) <= max_bits() {
            Some((a * scale() / (b as int)) as i128)
        } else {
            None
        },
{
    match I64F64::from_bits(a).checked_div(I64F64::from_bits(b)) {
        Some(q) => Some(q.to_bits()),
        None => None,
    }
}

/// `I64F64::floor` on a non-negative value: the raw bits with the 64
/// fractional bits cleared.
#[verifier::external_body]
fn raw_floor(bits: i128) -> (floor: i128)
    requires
        bits >= 0,
    ensures
        floor == bits as int / scale() * scale(),
{
    I64F64::from_bits(bits).floor().to_bits()
}

/// `FastSqrt::fast_sqrt` of `I64F64` on a non-negative value: the integer
/// square root of the raw bits, shifted left by 32 places. The outside
/// function panics on a negative value, which is left out.
#[verifier::external_body]
fn raw_sqrt(bits: i128) -> (root: i128)
    requires
        bits >= 0,
    ensures
        root == isqrt(bits as int) * half_scale(),
{
    I64F64::from_bits(bits).fast_sqrt().to_bits()
}

/// A non-negative fixed-point number with 64 integer and 64 fractional bits.
#[derive(Clone, Copy, Debug)]
pub struct FixedPoint {
    bits: i128,
}

impl View for FixedPoint {
    type V = int;

    /// The numerator over 2^64.
    closed spec fn view(&self) -> int {
        if self.bits >= 0 {
            self.bits as int
        } else {
            0
        }
    }
}

impl FixedPoint {
    #[verifier::type_invariant]
    spec fn is_nonnegative(self) -> bool {
        self.bits >= 0
    }

    /// A numerator is never negative and never above 2^127 - 1.
    pub proof fn lemma_view_range(self)
        ensures
            0 <= self@ <= max_bits(),
    {
    }

    /// The fixed-point number equal to the integer `x`, where it fits.
    pub fn from_num(x: u64) -> (r: Result<FixedPoint, ErrorCode>)
        ensures
            representable(x as int) ==> (r matches Ok(v) && v@ == x * scale()),
            !representable(x as int) ==> (r matches Err(e) && e == ErrorCode::ArithmeticOverflow),
    {
        if x > 0x7fff_ffff_ffff_ffff {
            Err(ErrorCode::ArithmeticOverflow)
        } else {
            Ok(FixedPoint { bits: raw_from_num(x) })
        }
    }

    /// The integer part.
    pub fn to_num(self) -> (x: u64)
        ensures
            x == self@ / scale(),
    {
        proof {
            use_type_invariant(&self);
        }
        raw_to_num(self.bits)
    }

    /// The sum, where it fits.
    pub fn checked_add(self, rhs: FixedPoint) -> (r: Result<FixedPoint, ErrorCode>)
        ensures
            self@ + rhs@ <= max_bits() ==> (r matches Ok(v) && v@ == self@ + rhs@),
            self@ + rhs@ > max_bits() ==> (r matches Err(e) && e == ErrorCode::ArithmeticOverflow),
    {
        proof {
            use_type_invariant(&self);
            use_type_invariant(&rhs);
        }
        match raw_checked_add(self.bits, rhs.bits) {
            Some(bits) => Ok(FixedPoint { bits }),
            None => Err(ErrorCode::ArithmeticOverflow),
        }
    }

    /// The product rounded down to a multiple of 2^-64, where it fits.
    pub fn checked_mul(self, rhs: FixedPoint) -> (r: Result<FixedPoint, ErrorCode>)
        ensures
            self@ * rhs@ / scale() <= max_bits() ==> (r matches Ok(v) && v@ == self@ * rhs@
                / scale()),
            self@ * rhs@ / scale() > max_bits() ==> (r matches Err(e) && e
                == ErrorCode::ArithmeticOverflow),
    {
        proof {
            use_type_invariant(&self);
            use_type_invariant(&rhs);
            assert(0 <= self.bits * rhs.bits) by (nonlinear_arith)
                requires
                    0 <= self.bits,
                    0 <= rhs.bits,
            ;
        }
        match raw_checked_mul(self.bits, rhs.bits) {
            Some(bits) => Ok(FixedPoint { bits }),
            None => Err(ErrorCode::ArithmeticOverflow),
        }
    }

    /// The quotient rounded down to a multiple of 2^-64, where the divisor is
    /// not zero and the quotient fits.
    pub fn checked_div(self, rhs: FixedPoint) -> (r: Result<FixedPoint, ErrorCode>)
        ensures
            rhs@ == 0 ==> (r matches Err(e) && e == ErrorCode::DivisionByZero),
            rhs@ != 0 && self@ * scale() / rhs@ <= max_bits() ==> (r matches Ok(v) && v@
                == self@ * scale() / rhs@),
            rhs@ != 0 && self@ * scale() / rhs@ > max_bits() ==> (r matches Err(e) && e
                == ErrorCode::ArithmeticOverflow),
    {
        proof {
            use_type_invariant(&self);
            use_type_invariant(&rhs);
        }
        if rhs.bits == 0 {
            return Err(ErrorCode::DivisionByZero);
        }
        proof {
            assert(0 <= self.bits * scale() / (rhs.bits as int)) by (nonlinear_arith)
                requires
                    0 <= self.bits,
                    0 < rhs.bits,
                    scale() > 0,
            ;
        }
        match raw_checked_div(self.bits, rhs.bits) {
            Some(bits) => Ok(FixedPoint { bits }),
            None => Err(ErrorCode::ArithmeticOverflow),
        }
    }

    /// The largest integer not above `self`.
    pub fn floor(self) -> (v: FixedPoint)
        ensures
            v@ == self@ / scale() * scale(),
    {
        proof {
            use_type_invariant(&self);
            assert(0 <= self.bits as int / scale() * scale()) by (nonlinear_arith)
                requires
                    0 <= self.bits,
                    scale() > 0,
            ;
        }
        FixedPoint { bits: raw_floor(self.bits) }
    }

    /// The square root rounded down to a multiple of 2^-32: the integer square
    /// root of the numerator, scaled back by 2^32.
    pub fn sqrt(self) -> (v: FixedPoint)
        ensures
            v@ == isqrt(self@) * half_scale(),
    {
        proof {
            use_type_invariant(&self);
            lemma_isqrt_exists(self.bits as int);
            assert(0 <= isqrt(self.bits as int) * half_scale()) by (nonlinear_arith)
                requires
                    0 <= isqrt(self.bits as int),
                    half_scale() > 0,
            ;
        }
        FixedPoint { bits: raw_sqrt(self.bits) }
    }
}

/// An integer with an integer square root has no other.
pub proof fn lemma_isqrt_unique(n: int, r: int)
    requires
        is_isqrt(n, r),
    ensures
        isqrt(n) == r,
{
    let s = isqrt(n);
    assert(is_isqrt(n, s));
    assert(s == r) by (nonlinear_arith)
        requires
            0 <= r,
            r * r <= n < (r + 1) * (r + 1),
            0 <= s,
            s * s <= n < (s + 1) * (s + 1),
    ;
}

/// Every non-negative integer has an integer square root.
pub proof fn lemma_isqrt_exists(n: int)
    requires
        n >= 0,
    ensures
        is_isqrt(n, isqrt(n)),
    decreases n,
{
    if n == 0 {
        assert(is_isqrt(0, 0));
    } else {
        lemma_isqrt_exists(n - 1);
        let r = isqrt(n - 1);
        if (r + 1) * (r + 1) <= n {
            assert(n < (r + 2) * (r + 2)) by (nonlinear_arith)
                requires
                    0 <= r,
                    n - 1 < (r + 1) * (r + 1),
            ;
            assert(is_isqrt(n, r + 1));
        } else {
            assert(is_isqrt(n, r));
        }
    }
}

/// An integer shifted left by 64 places fits exactly when the integer is
/// representable.
pub proof fn lemma_scaled_fits(n: int)
    requires
        n >= 0,
    ensures
        n * scale() <= max_bits() <==> representable(n),
{
    assert(n * scale() <= max_bits() <==> n <= i64::MAX) by (nonlinear_arith)
        requires
            scale() == 0x1_0000_0000_0000_0000,
            max_bits() == 0x7fff_ffff_ffff_ffff_ffff_ffff_ffff_ffff,
            i64::MAX == 0x7fff_ffff_ffff_ffff,
    ;
}

/// The fixed-point product of two integers is their product, exactly.
pub proof fn lemma_scaled_product(x: int, y: int)
    requires
        x >= 0,
        y >= 0,
    ensures
        (x * scale()) * (y * scale()) / scale() == x * y * scale(),
        x * y >= 0,
{
    assert((x * scale()) * (y * scale()) == (x * y * scale()) * scale()) by (nonlinear_arith);
    assert(x * y * scale() >= 0 && x * y >= 0) by (nonlinear_arith)
        requires
            x >= 0,
            y >= 0,
            scale() > 0,
    ;
    vstd::arithmetic::div_mod::lemma_div_by_multiple(x * y * scale(), scale());
}

/// The fixed-point product of an integer and any value is the integer times
/// the value's numerator, exactly.
pub proof fn lemma_scaled_multiple(x: int, bits: int)
    requires
        x >= 0,
        bits >= 0,
    ensures
        (x * scale()) * bits / scale() == x * bits,
        x * bits >= 0,
{
    assert((x * scale()) * bits == (x * bits) * scale()) by (nonlinear_arith);
    assert(x * bits >= 0) by (nonlinear_arith)
        requires
            x >= 0,
            bits >= 0,
    ;
    vstd::arithmetic::div_mod::lemma_div_by_multiple(x * bits, scale());
}

/// A common positive factor cancels from a quotient.
pub proof fn lemma_div_cancel(x: int, d: int, c: int)
    requires
        x >= 0,
        d > 0,
        c > 0,
    ensures
        (x * c) / (d * c) == x / d,
{
    let q = x / d;
    let r = x % d;
    vstd::arithmetic::div_mod::lemma_fundamental_div_mod(x, d);
    vstd::arithmetic::div_mod::lemma_mod_pos_bound(x, d);
    assert(x * c == q * (d * c) + r * c) by (nonlinear_arith)
        requires
            x == d * q + r,
    ;
    assert(0 <= r * c < d * c) by (nonlinear_arith)
        requires
            0 <= r < d,
            c > 0,
    ;
    vstd::arithmetic::div_mod::lemma_fundamental_div_mod_converse(x * c, d * c, q, r * c);
}

/// The fixed-point quotient of two integers `p` and `d` has the numerator
/// `p * 2^64 / d`; its integer part is `p / d`.
pub proof fn lemma_scaled_quotient(p: int, d: int)
    requires
        p >= 0,
        d > 0,
    ensures
        (p * scale()) * scale() / (d * scale()) == p * scale() / d,
        0 <= p * scale() / d <= p * scale(),
        (p * scale() / d) / scale() == p / d,
        (p * scale() / d) / scale() * scale() / scale() == p / d,
{
    let s = scale();
    assert(p * s >= 0) by (nonlinear_arith)
        requires
            p >= 0,
            s > 0,
    ;
    lemma_div_cancel(p * s, d, s);
    vstd::arithmetic::div_mod::lemma_div_pos_is_pos(p * s, d);
    vstd::arithmetic::div_mod::lemma_div_nonincreasing(p * s, d);
    // (p * s / d) / s == (p * s) / (d * s) == p / d
    vstd::arithmetic::div_mod::lemma_div_denominator(p * s, d, s);
    lemma_div_cancel(p, d, s);
    vstd::arithmetic::div_mod::lemma_div_pos_is_pos(p, d);
    vstd::arithmetic::div_mod::lemma_div_by_multiple(p / d, s);
}

/// The fixed-point square root of an integer `n` has the integer part
/// `isqrt(n)`: nothing is lost by the coarser rounding of the root.
pub proof fn lemma_scaled_isqrt(n: int)
    requires
        n >= 0,
    ensures
        0 <= isqrt(n * scale()) * half_scale(),
        isqrt(n * scale()) * half_scale() / scale() == isqrt(n),
{
    let s = scale();
    let h = half_scale();
    assert(n * s >= 0) by (nonlinear_arith)
        requires
            n >= 0,
            s > 0,
    ;
    lemma_isqrt_exists(n);
    lemma_isqrt_exists(n * s);
    let t = isqrt(n);
    let u = isqrt(n * s);
    // t * h <= u < (t + 1) * h
    assert(t * h <= u) by (nonlinear_arith)
        requires
            0 <= t,
            0 <= u,
            t * t <= n,
            n * s < (u + 1) * (u + 1),
            s == h * h,
            h > 0,
    ;
    assert(u < (t + 1) * h) by (nonlinear_arith)
        requires
            0 <= t,
            0 <= u,
            n < (t + 1) * (t + 1),
            u * u <= n * s,
            s == h * h,
            h > 0,
    ;
    // u * h / s == u / h == t
    assert(u * h >= 0) by (nonlinear_arith)
        requires
            u >= 0,
            h > 0,
    ;
    assert(s == h * h);
    lemma_div_cancel(u, h, h);
    assert(u * h / (h * h) == u / h);
    let r = u - t * h;
    assert(u == t * h + r && 0 <= r < h) by (nonlinear_arith)
        requires
            r == u - t * h,
            t * h <= u,
            u < (t + 1) * h,
    ;
    vstd::arithmetic::div_mod::lemma_fundamental_div_mod_converse(u, h, t, r);
}

} // verus!
