//! Fixed-point scalar arithmetic.
//!
//! Every scalar of this library is an `i64` holding a real value scaled by
//! `SCALE`, so `SCALE` itself stands for one. Products and quotients round
//! toward zero, and the square root rounds down; all of it is specified
//! exactly, so every computation built on these operations has an exact
//! mathematical description.

use vstd::prelude::*;

verus! {

use vstd::arithmetic::div_mod::lemma_div_is_ordered;
use vstd::arithmetic::div_mod::lemma_div_nonincreasing;
use vstd::arithmetic::div_mod::lemma_div_pos_is_pos;
use vstd::arithmetic::div_mod::lemma_div_multiples_vanish;

/// One, in the fixed-point representation: scalars are scaled by 2^16.
pub const SCALE: i64 = 65536;

/// Largest magnitude allowed for a ray origin or hit point component.
pub const ORIGIN_MAX: i64 = 1073741824;

/// Largest magnitude allowed for a ray direction component.
pub const DIR_MAX: i64 = 524288;

/// Largest magnitude allowed for a sphere center component or radius.
pub const CENTER_MAX: i64 = 67108864;

/// Largest distance along a ray at which a hit is accepted.
pub const DIST_MAX: i64 = 67108864;

/// Largest magnitude accepted by the fixed-point product and quotient.
pub const OP_MAX: i64 = 750000000000;

/// Quotient rounded toward zero, for a positive divisor.
pub open spec fn div_trunc(a: int, b: int) -> int {
    if a >= 0 {
        a / b
    } else {
        -((-a) / b)
    }
}

/// Product of two fixed-point scalars.
pub open spec fn fmul(a: int, b: int) -> int {
    div_trunc(a * b, SCALE as int)
}

/// Quotient of two fixed-point scalars.
pub open spec fn fdiv(a: int, b: int) -> int {
    div_trunc(a * (SCALE as int), b)
}

/// `r` is the integer square root of `n`, rounded down.
pub open spec fn is_sqrt_floor(n: int, r: int) -> bool {
    0 <= r && r * r <= n && n < (r + 1) * (r + 1)
}

/// The integer square root, rounded down.
pub open spec fn sqrt_floor(n: int) -> int {
    choose|r: int| is_sqrt_floor(n, r)
}

/// Square root of a fixed-point scalar: the scaled argument's integer root.
pub open spec fn fsqrt(a: int) -> int {
    sqrt_floor(a * (SCALE as int))
}

/// The rounded-down square root is unique.
pub proof fn lemma_sqrt_floor_is(n: int, r: int)
    requires
        is_sqrt_floor(n, r),
    ensures
        sqrt_floor(n) == r,
{
    assert(is_sqrt_floor(n, sqrt_floor(n)));
    let s = sqrt_floor(n);
    assert(r == s) by (nonlinear_arith)
        requires
            0 <= r,
            r * r <= n,
            n < (r + 1) * (r + 1),
            0 <= s,
            s * s <= n,
            n < (s + 1) * (s + 1),
    ;
}

/// A truncated quotient is no larger in magnitude than the dividend's bound,
/// nor than that bound shrunk by the divisor.
pub proof fn lemma_div_trunc_bound(a: int, m: int, b: int)
    requires
        -m <= a <= m,
        0 < b,
    ensures
        -(m / b) <= div_trunc(a, b) <= m / b,
        -m <= div_trunc(a, b) <= m,
{
    if a >= 0 {
        lemma_div_pos_is_pos(a, b);
        lemma_div_is_ordered(a, m, b);
    } else {
        lemma_div_pos_is_pos(-a, b);
        lemma_div_is_ordered(-a, m, b);
    }
    lemma_div_pos_is_pos(m, b);
    lemma_div_nonincreasing(m, b);
}

/// Magnitude bound for a fixed-point product.
pub proof fn lemma_fmul_bound(a: int, b: int, m: int, n: int)
    requires
        -m <= a <= m,
        -n <= b <= n,
    ensures
        -((m * n) / (SCALE as int)) <= fmul(a, b) <= (m * n) / (SCALE as int),
        -(m * n) <= fmul(a, b) <= m * n,
{
    assert(-(m * n) <= a * b <= m * n) by (nonlinear_arith)
        requires
            -m <= a <= m,
            -n <= b <= n,
    ;
    lemma_div_trunc_bound(a * b, m * n, SCALE as int);
}

/// Scaling a nonnegative value by a factor in `[0, 1]` never increases it.
pub proof fn lemma_fmul_scale_le(c: int, a: int)
    requires
        0 <= c,
        0 <= a <= SCALE as int,
    ensures
        0 <= fmul(c, a) <= c,
{
    assert(0 <= c * a <= c * (SCALE as int)) by (nonlinear_arith)
        requires
            0 <= c,
            0 <= a <= SCALE as int,
    ;
    lemma_div_pos_is_pos(c * a, SCALE as int);
    lemma_div_is_ordered(c * a, c * (SCALE as int), SCALE as int);
    lemma_div_multiples_vanish(c, SCALE as int);
}

/// A fixed-point quotient of a value by a larger positive divisor stays
/// within one.
pub proof fn lemma_fdiv_unit(a: int, b: int)
    requires
        1 <= b,
        -b <= a <= b,
    ensures
        -(SCALE as int) <= fdiv(a, b) <= SCALE as int,
{
    assert(-(b * (SCALE as int)) <= a * (SCALE as int) <= b * (SCALE as int)) by (nonlinear_arith)
        requires
            1 <= b,
            -b <= a <= b,
    ;
    lemma_div_trunc_bound(a * (SCALE as int), b * (SCALE as int), b);
    assert((b * (SCALE as int)) / b == SCALE as int) by {
        lemma_div_multiples_vanish(SCALE as int, b);
    }
}

/// Negating a factor negates the truncated product.
pub proof fn lemma_fmul_neg(a: int, b: int)
    ensures
        fmul(-a, b) == -fmul(a, b),
        fmul(a, -b) == -fmul(a, b),
        fmul(-a, -b) == fmul(a, b),
{
    assert((-a) * b == -(a * b) && a * (-b) == -(a * b) && (-a) * (-b) == a * b)
        by (nonlinear_arith);
}

/// A product of nonnegative fixed-point scalars is nonnegative.
pub proof fn lemma_fmul_nonneg(a: int, b: int)
    requires
        0 <= a,
        0 <= b,
    ensures
        0 <= fmul(a, b),
{
    assert(0 <= a * b) by (nonlinear_arith)
        requires
            0 <= a,
            0 <= b,
    ;
    lemma_div_pos_is_pos(a * b, SCALE as int);
}

/// A fixed-point square is never negative.
pub proof fn lemma_fmul_sq_nonneg(a: int)
    ensures
        0 <= fmul(a, a),
{
    assert(0 <= a * a) by (nonlinear_arith);
    lemma_div_pos_is_pos(a * a, SCALE as int);
}

/// Fixed-point product, rounding toward zero.
pub fn fp_mul(a: i64, b: i64) -> (r: i64)
    requires
        -OP_MAX <= a <= OP_MAX,
        -OP_MAX <= b <= OP_MAX,
    ensures
        r == fmul(a as int, b as int),
{
    proof {
        lemma_fmul_bound(a as int, b as int, OP_MAX as int, OP_MAX as int);
        assert((a as int) * (b as int) <= (OP_MAX as int) * (OP_MAX as int)) by (nonlinear_arith)
            requires
                -OP_MAX <= a <= OP_MAX,
                -OP_MAX <= b <= OP_MAX,
        ;
        assert(-((OP_MAX as int) * (OP_MAX as int)) <= (a as int) * (b as int)) by (nonlinear_arith)
            requires
                -OP_MAX <= a <= OP_MAX,
                -OP_MAX <= b <= OP_MAX,
        ;
    }
    let p: i128 = (a as i128) * (b as i128);
    let q: i128 = p / (SCALE as i128);
    proof {
        lemma_div_trunc_bound(p as int, (OP_MAX as int) * (OP_MAX as int), SCALE as int);
    }
    q as i64
}

/// Fixed-point quotient, rounding toward zero, for a positive divisor.
pub fn fp_div(a: i64, b: i64) -> (r: i64)
    requires
        1 <= b,
        -OP_MAX <= a <= OP_MAX,
    ensures
        r == fdiv(a as int, b as int),
{
    let p: i128 = (a as i128) * (SCALE as i128);
    let q: i128 = p / (b as i128);
    proof {
        lemma_div_trunc_bound(p as int, (OP_MAX as int) * (SCALE as int), b as int);
    }
    q as i64
}

/// Square root of a nonnegative fixed-point scalar, rounded down.
pub fn fp_sqrt(a: i64) -> (r: i64)
    requires
        0 <= a,
    ensures
        r as int == fsqrt(a as int),
        0 <= r,
        a <= SCALE ==> r <= SCALE,
{
    proof {
        assert(0 <= (a as int) * (SCALE as int) <= 0x8000_0000_0000_0000 * 0x1_0000)
            by (nonlinear_arith)
            requires
                0 <= a <= 0x7fff_ffff_ffff_ffffi64,
        ;
    }
    let n: u128 = (a as u128) * (SCALE as u128);
    let r = isqrt(n);
    proof {
        assert(n as int == (a as int) * (SCALE as int));
        assert(n as int <= 0x8000_0000_0000_0000 * 0x1_0000);
        assert((r as int) * (r as int) <= n as int);
        assert(r as int <= 0x100_0000_0000) by (nonlinear_arith)
            requires
                (r as int) * (r as int) <= 0x8000_0000_0000_0000 * 0x1_0000,
                0 <= r as int,
        ;
        if a <= SCALE {
            assert(r as int <= SCALE as int) by (nonlinear_arith)
                requires
                    (r as int) * (r as int) <= (SCALE as int) * (SCALE as int),
                    0 <= r as int,
            ;
        }
    }
    r as i64
}

/// Integer square root, rounded down.
pub fn isqrt(n: u128) -> (r: u64)
    ensures
        is_sqrt_floor(n as int, r as int),
        r as int == sqrt_floor(n as int),
{
    let mut lo: u128 = 0;
    let mut hi: u128 = 0x1_0000_0000_0000_0000;
    proof {
        assert((hi as int) * (hi as int) > n as int) by (nonlinear_arith)
            requires
                hi == 0x1_0000_0000_0000_0000u128,
                n <= u128::MAX,
        ;
    }
    while lo + 1 < hi
        invariant
            lo < hi <= 0x1_0000_0000_0000_0000u128,
            (lo as int) * (lo as int) <= n as int,
            (n as int) < (hi as int) * (hi as int),
        decreases hi - lo,
    {
        let mid = lo + (hi - lo) / 2;
        proof {
            assert((mid as int) * (mid as int) < 0x1_0000_0000_0000_0000_0000_0000_0000_0000)
                by (nonlinear_arith)
                requires
                    mid < 0x1_0000_0000_0000_0000u128,
            ;
        }
        if mid * mid <= n {
            lo = mid;
        } else {
            hi = mid;
        }
    }
    proof {
        assert(is_sqrt_floor(n as int, lo as int));
        lemma_sqrt_floor_is(n as int, lo as int);
    }
    lo as u64
}

} // verus!
