//! Fixed-point arithmetic on `i64` values.
//!
//! A value `v: i64` stands for the real quantity `v / SCALE`.  Products and
//! quotients are rescaled and truncated toward zero, the rounding of the
//! machine's own signed division.

use vstd::prelude::*;
use vstd::arithmetic::div_mod::{
    lemma_div_is_ordered, lemma_div_multiples_vanish, lemma_div_nonincreasing,
    lemma_div_pos_is_pos, lemma_fundamental_div_mod,
};

verus! {

/// Number of fixed-point steps per unit: an `i64` value `v` stands for the
/// real quantity `v / SCALE`.
pub const SCALE: i64 = 1000;

/// Magnitude of `a`.
pub open spec fn mag(a: int) -> int {
    if a >= 0 {
        a
    } else {
        -a
    }
}

/// Division truncated toward zero (the machine's signed `/`), for a
/// positive divisor `b`.
pub open spec fn tdiv(a: int, b: int) -> int {
    if a >= 0 {
        a / b
    } else {
        -((-a) / b)
    }
}

/// The fixed-point product of `a` and `b`: their mathematical product,
/// rescaled and truncated toward zero.
pub open spec fn fmul_spec(a: int, b: int) -> int {
    tdiv(a * b, SCALE as int)
}

/// The fixed-point quotient of `a` by a positive `b`: their mathematical
/// quotient, rescaled and truncated toward zero.
pub open spec fn fdiv_spec(a: int, b: int) -> int {
    tdiv(a * (SCALE as int), b)
}

/// Magnitude of `a`, as an unsigned value (total, unlike `i64::abs`).
fn abs64(a: i64) -> (r: u64)
    ensures
        r as int == mag(a as int),
{
    if a >= 0 {
        a as u64
    } else {
        (-(a as i128)) as u64
    }
}

/// Truncation toward zero and taking the magnitude commute:
/// `mag(tdiv(a, b)) == mag(a) / b`.
pub proof fn lemma_tdiv_mag(a: int, b: int)
    requires
        b >= 1,
    ensures
        mag(tdiv(a, b)) == mag(a) / b,
        tdiv(a, b) == if a >= 0 {
            mag(a) / b
        } else {
            -(mag(a) / b)
        },
{
    if a >= 0 {
        lemma_div_pos_is_pos(a, b);
    } else {
        lemma_div_pos_is_pos(-a, b);
    }
}

/// The magnitude of a product is the product of the magnitudes.
pub proof fn lemma_mag_mul(a: int, b: int)
    ensures
        mag(a * b) == mag(a) * mag(b),
{
    assert(mag(a * b) == mag(a) * mag(b)) by (nonlinear_arith);
}

/// Fixed-point multiplication; exact up to one truncation toward zero.
pub fn fmul(a: i64, b: i64) -> (r: i64)
    requires
        -(i64::MAX as int) <= fmul_spec(a as int, b as int) <= i64::MAX as int,
    ensures
        r as int == fmul_spec(a as int, b as int),
{
    let ua: u64 = abs64(a);
    let ub: u64 = abs64(b);
    proof {
        assert((ua as int) * (ub as int) <= (u64::MAX as int) * (u64::MAX as int))
            by (nonlinear_arith)
            requires
                ua <= u64::MAX,
                ub <= u64::MAX,
        ;
    }
    let uq: u128 = ((ua as u128) * (ub as u128)) / (SCALE as u128);
    let neg: bool = (a < 0) != (b < 0);
    proof {
        lemma_mag_mul(a as int, b as int);
        lemma_tdiv_mag((a as int) * (b as int), SCALE as int);
        if !neg {
            assert((a as int) * (b as int) >= 0) by (nonlinear_arith)
                requires
                    (a >= 0 && b >= 0) || (a < 0 && b < 0),
            ;
        } else {
            assert((a as int) * (b as int) <= 0) by (nonlinear_arith)
                requires
                    (a >= 0 && b < 0) || (a < 0 && b >= 0),
            ;
        }
    }
    if neg {
        -(uq as i64)
    } else {
        uq as i64
    }
}

/// Fixed-point division by a positive divisor; exact up to one truncation
/// toward zero.
pub fn fdiv(a: i64, b: i64) -> (r: i64)
    requires
        b >= 1,
        -(i64::MAX as int) <= fdiv_spec(a as int, b as int) <= i64::MAX as int,
    ensures
        r as int == fdiv_spec(a as int, b as int),
{
    let ua: u64 = abs64(a);
    proof {
        assert((ua as int) * (SCALE as int) <= (u64::MAX as int) * (SCALE as int))
            by (nonlinear_arith)
            requires
                ua <= u64::MAX,
        ;
    }
    let uq: u128 = ((ua as u128) * (SCALE as u128)) / (b as u128);
    proof {
        lemma_mag_mul(a as int, SCALE as int);
        lemma_tdiv_mag((a as int) * (SCALE as int), b as int);
    }
    if a < 0 {
        -(uq as i64)
    } else {
        uq as i64
    }
}

/// A fixed-point product is bounded by the product of the operands' bounds,
/// rescaled.
pub proof fn lemma_fmul_bound(a: int, b: int, ba: int, bb: int)
    requires
        mag(a) <= ba,
        mag(b) <= bb,
    ensures
        mag(fmul_spec(a, b)) <= ba * bb / (SCALE as int),
{
    lemma_mag_mul(a, b);
    lemma_tdiv_mag(a * b, SCALE as int);
    assert(mag(a) * mag(b) <= ba * bb) by (nonlinear_arith)
        requires
            0 <= mag(a) <= ba,
            0 <= mag(b) <= bb,
    ;
    lemma_div_is_ordered(mag(a * b), ba * bb, SCALE as int);
}

/// A fixed-point quotient is bounded by the rescaled dividend.
pub proof fn lemma_fdiv_bound(a: int, b: int)
    requires
        b >= 1,
    ensures
        mag(fdiv_spec(a, b)) <= mag(a) * (SCALE as int),
{
    lemma_mag_mul(a, SCALE as int);
    lemma_tdiv_mag(a * (SCALE as int), b);
    lemma_div_nonincreasing(mag(a) * (SCALE as int), b);
}

/// A fixed-point quotient of non-negative operands is non-negative.
pub proof fn lemma_fdiv_nonneg(a: int, b: int)
    requires
        a >= 0,
        b >= 1,
    ensures
        fdiv_spec(a, b) >= 0,
{
    if a * (SCALE as int) > 0 {
        lemma_div_pos_is_pos(a * (SCALE as int), b);
    }
}

/// A fixed-point square is non-negative.
pub proof fn lemma_fsq_nonneg(a: int)
    ensures
        fmul_spec(a, a) >= 0,
{
    assert(a * a >= 0) by (nonlinear_arith);
    if a * a > 0 {
        lemma_div_pos_is_pos(a * a, SCALE as int);
    }
}

/// The normalised share of a non-negative scalar `f` along one axis,
/// `fmul(f, d) / m` with `|d| <= m`, never exceeds `f` in magnitude.
pub proof fn lemma_scaled_share_bound(f: int, d: int, m: int)
    requires
        0 <= f,
        mag(d) <= m,
        1 <= m,
    ensures
        mag(fdiv_spec(fmul_spec(f, d), m)) <= f,
{
    let s = SCALE as int;
    let x = fmul_spec(f, d);
    lemma_mag_mul(f, d);
    lemma_tdiv_mag(f * d, s);
    assert(f * mag(d) <= f * m) by (nonlinear_arith)
        requires
            0 <= f,
            mag(d) <= m,
    ;
    lemma_div_is_ordered(f * mag(d), f * m, s);
    assert(mag(x) <= (f * m) / s);
    lemma_fundamental_div_mod(f * m, s);
    assert(((f * m) / s) * s <= f * m);
    assert(mag(x) * s <= ((f * m) / s) * s) by (nonlinear_arith)
        requires
            mag(x) <= (f * m) / s,
            s >= 1,
    ;
    lemma_mag_mul(x, s);
    lemma_tdiv_mag(x * s, m);
    assert(mag(s) == s);
    assert(mag(fdiv_spec(x, m)) == (mag(x) * s) / m);
    lemma_div_is_ordered(mag(x) * s, f * m, m);
    lemma_div_multiples_vanish(f, m);
    assert(f * m == m * f) by (nonlinear_arith);
    assert((f * m) / m == f);
}

/// When `b` is a whole non-negative multiple of `SCALE`, fixed-point
/// multiplication by it is exact: no truncation occurs.
pub proof fn lemma_fmul_exact(a: int, b: int)
    requires
        b >= 0,
        b % (SCALE as int) == 0,
    ensures
        fmul_spec(a, b) == a * (b / (SCALE as int)),
{
    let s = SCALE as int;
    let d = b / s;
    lemma_fundamental_div_mod(b, s);
    assert(b == s * d);
    assert(a * b == s * (a * d)) by (nonlinear_arith)
        requires
            b == s * d,
    ;
    if a * d >= 0 {
        lemma_div_multiples_vanish(a * d, s);
    } else {
        assert(-(a * b) == s * (-(a * d)));
        lemma_div_multiples_vanish(-(a * d), s);
    }
}

} // verus!
