//! Fixed-point trigonometry.
//!
//! Angles are Q16.16 radians.  The quarter turn is the integer constant
//! `HALF_PI_Q`, and the half and full turns are exact multiples of it, so the
//! quadrant folding below is exact integer arithmetic and the values at 0 and
//! at `PI_Q` come out exactly.
//!
//! On the first quadrant, the sine is a degree-7 Taylor polynomial evaluated
//! in fixed point (clamped into `[0, FP]`), and the cosine is recovered as
//! `isqrt(FP^2 - sin^2)`, so `sin^2 + cos^2` stays within an integer-rounding
//! step of `FP^2` by construction.  These spec functions *define* the
//! library's trigonometry; the executable functions compute them exactly.

use vstd::prelude::*;
use crate::fixed::FP;
use crate::fixed::sabs;
use crate::fixed::tdiv;
use crate::fixed::fmul;
use crate::fixed::isqrt;
use crate::fixed::is_isqrt;
use crate::fixed::mul_q;
use crate::fixed::tdiv_i128;
use crate::fixed::isqrt_u128;
use crate::fixed::lemma_isqrt_unique;
use crate::fixed::lemma_mul_abs_bound;
use crate::fixed::lemma_tdiv_bound;
use vstd::arithmetic::div_mod::lemma_fundamental_div_mod;
use vstd::arithmetic::div_mod::lemma_fundamental_div_mod_converse_mod;
use vstd::arithmetic::div_mod::lemma_div_pos_is_pos;
use vstd::arithmetic::div_mod::lemma_div_is_ordered;

verus! {

/// A quarter turn (pi/2) in Q16.16 radians.
pub const HALF_PI_Q: i64 = 102944;

/// A half turn (pi) in Q16.16 radians: exactly two quarter turns.
pub const PI_Q: i64 = 205888;

/// A full turn (2 pi) in Q16.16 radians: exactly four quarter turns.
pub const TWO_PI_Q: i64 = 411776;

/// Degree-7 Taylor polynomial for the sine on the first quadrant, clamped
/// into `[0, FP]`.
pub open spec fn sin_core_s(t: int) -> int {
    let t2 = fmul(t, t);
    let t3 = fmul(t2, t);
    let t5 = fmul(t3, t2);
    let t7 = fmul(t5, t2);
    let raw = t - tdiv(t3, 6) + tdiv(t5, 120) - tdiv(t7, 5040);
    if raw < 0 {
        0
    } else if raw > FP {
        FP as int
    } else {
        raw
    }
}

/// First-quadrant cosine, defined from the sine so that `sin^2 + cos^2` is
/// within one rounding step of `FP^2`.
pub open spec fn cos_core_s(t: int) -> int {
    isqrt(FP * FP - sin_core_s(t) * sin_core_s(t))
}

/// Sine on `[0, PI_Q]`, folded symmetrically about the quarter turn.
pub open spec fn sin_half_s(u: int) -> int {
    if u <= HALF_PI_Q {
        sin_core_s(u)
    } else {
        sin_core_s(PI_Q - u)
    }
}

/// Cosine on `[0, PI_Q]`: negated beyond the quarter turn.
pub open spec fn cos_half_s(u: int) -> int {
    if u <= HALF_PI_Q {
        cos_core_s(u)
    } else {
        -cos_core_s(PI_Q - u)
    }
}

/// An angle reduced to `[0, TWO_PI_Q)`.
pub open spec fn angle_norm(a: int) -> int {
    a % (TWO_PI_Q as int)
}

/// The library's sine of a Q16.16 angle.
pub open spec fn sin_q_s(a: int) -> int {
    let b = angle_norm(a);
    if b >= PI_Q {
        -sin_half_s(b - PI_Q)
    } else {
        sin_half_s(b)
    }
}

/// The library's cosine of a Q16.16 angle.
pub open spec fn cos_q_s(a: int) -> int {
    let b = angle_norm(a);
    let c = if b > PI_Q {
        TWO_PI_Q - b
    } else {
        b
    };
    cos_half_s(c)
}

/// Reduced angles lie in `[0, TWO_PI_Q)`.
pub proof fn lemma_norm_range(a: int)
    ensures
        0 <= angle_norm(a) < TWO_PI_Q,
{
    vstd::arithmetic::div_mod::lemma_mod_division_less_than_divisor(a, TWO_PI_Q as int);
}

/// Angles already in `[0, TWO_PI_Q)` reduce to themselves.
pub proof fn lemma_norm_small(a: int)
    requires
        0 <= a < TWO_PI_Q,
    ensures
        angle_norm(a) == a,
{
    lemma_fundamental_div_mod_converse_mod(a, TWO_PI_Q as int, 0, a);
}

/// Reducing the negation of an angle reflects its reduction about the full
/// turn.
pub proof fn lemma_norm_neg(a: int)
    ensures
        angle_norm(a) == 0 ==> angle_norm(-a) == 0,
        angle_norm(a) != 0 ==> angle_norm(-a) == TWO_PI_Q - angle_norm(a),
{
    let t = TWO_PI_Q as int;
    let b = angle_norm(a);
    lemma_norm_range(a);
    lemma_fundamental_div_mod(a, t);
    let q = a / t;
    if b == 0 {
        assert(-a == (-q) * t + 0) by (nonlinear_arith)
            requires
                a == t * q + b,
                b == 0,
        ;
        lemma_fundamental_div_mod_converse_mod(-a, t, -q, 0);
    } else {
        assert(-a == (-q - 1) * t + (t - b)) by (nonlinear_arith)
            requires
                a == t * q + b,
        ;
        lemma_fundamental_div_mod_converse_mod(-a, t, -q - 1, t - b);
    }
}

/// The value of the sine polynomial at zero.
pub proof fn lemma_sin_core_zero()
    ensures
        sin_core_s(0) == 0,
{
    vstd::arithmetic::div_mod::lemma_div_of0(FP as int);
    vstd::arithmetic::div_mod::lemma_div_of0(6);
    vstd::arithmetic::div_mod::lemma_div_of0(120);
    vstd::arithmetic::div_mod::lemma_div_of0(5040);
}

/// The value of the first-quadrant cosine at zero.
pub proof fn lemma_cos_core_zero()
    ensures
        cos_core_s(0) == FP,
{
    lemma_sin_core_zero();
    assert(is_isqrt(FP * FP, FP as int));
    lemma_isqrt_unique(FP * FP, FP as int);
}

/// The library's sine vanishes at zero.
pub proof fn lemma_sin_q_zero()
    ensures
        sin_q_s(0) == 0,
{
    lemma_norm_small(0);
    lemma_sin_core_zero();
}

/// The library's cosine is exactly one at zero.
pub proof fn lemma_cos_q_zero()
    ensures
        cos_q_s(0) == FP,
{
    lemma_norm_small(0);
    lemma_cos_core_zero();
}

/// The library's sine vanishes exactly at the half turn.
pub proof fn lemma_sin_q_pi()
    ensures
        sin_q_s(PI_Q as int) == 0,
{
    lemma_norm_small(PI_Q as int);
    lemma_sin_core_zero();
}

/// The library's cosine is exactly minus one at the half turn.
pub proof fn lemma_cos_q_pi()
    ensures
        cos_q_s(PI_Q as int) == -FP,
{
    lemma_norm_small(PI_Q as int);
    lemma_cos_core_zero();
}

/// The half-turn sine is symmetric about the quarter turn.
pub proof fn lemma_sin_half_reflect(u: int)
    requires
        0 <= u <= PI_Q,
    ensures
        sin_half_s(PI_Q - u) == sin_half_s(u),
{
}

/// The library's sine is an odd function, exactly.
pub proof fn lemma_sin_q_odd(a: int)
    ensures
        sin_q_s(-a) == -sin_q_s(a),
{
    let b = angle_norm(a);
    lemma_norm_range(a);
    lemma_norm_neg(a);
    lemma_sin_core_zero();
    if b == 0 {
    } else if b < PI_Q {
        lemma_sin_half_reflect(b);
    } else if b == PI_Q {
    } else {
        lemma_sin_half_reflect(b - PI_Q);
        assert(TWO_PI_Q - b == PI_Q - (b - PI_Q));
    }
}

/// The library's cosine is an even function, exactly.
pub proof fn lemma_cos_q_even(a: int)
    ensures
        cos_q_s(-a) == cos_q_s(a),
{
    let b = angle_norm(a);
    lemma_norm_range(a);
    lemma_norm_neg(a);
}

/// On the first quadrant, `sin^2 + cos^2` is within one integer-rounding step
/// of `FP^2`, by construction of the cosine.
pub proof fn lemma_sin_cos_core_pyth(t: int)
    ensures
        0 <= sin_core_s(t) <= FP,
        0 <= cos_core_s(t) <= FP,
        cos_core_s(t) * cos_core_s(t) + sin_core_s(t) * sin_core_s(t) <= FP * FP,
        cos_core_s(t) * cos_core_s(t) + sin_core_s(t) * sin_core_s(t) > FP * FP - 2 * FP - 1,
{
    let s = sin_core_s(t);
    let c = cos_core_s(t);
    lemma_mul_abs_bound(s, s, FP as int, FP as int);
    assert(s * s >= 0) by (nonlinear_arith);
    crate::fixed::lemma_isqrt_exists(FP * FP - s * s);
    assert((c + 1) * (c + 1) == c * c + 2 * c + 1) by (nonlinear_arith);
    assert(c <= FP) by (nonlinear_arith)
        requires
            0 <= c,
            c * c <= FP * FP,
    ;
}

/// For every angle, the sine/cosine pair squares to `FP^2` up to one
/// integer-rounding step.
pub proof fn lemma_sin_cos_q_pyth(a: int)
    ensures
        sabs(sin_q_s(a)) <= FP,
        sabs(cos_q_s(a)) <= FP,
        cos_q_s(a) * cos_q_s(a) + sin_q_s(a) * sin_q_s(a) <= FP * FP,
        cos_q_s(a) * cos_q_s(a) + sin_q_s(a) * sin_q_s(a) > FP * FP - 2 * FP - 1,
{
    let b = angle_norm(a);
    lemma_norm_range(a);
    let s = sin_q_s(a);
    let c = cos_q_s(a);
    if b <= HALF_PI_Q {
        lemma_sin_cos_core_pyth(b);
        assert(s == sin_core_s(b) && c == cos_core_s(b));
    } else if b < PI_Q {
        lemma_sin_cos_core_pyth(PI_Q - b);
        assert(s == sin_core_s(PI_Q - b) && c == -cos_core_s(PI_Q - b));
        assert(c * c == cos_core_s(PI_Q - b) * cos_core_s(PI_Q - b)) by (nonlinear_arith)
            requires
                c == -cos_core_s(PI_Q - b),
        ;
    } else if b == PI_Q {
        lemma_sin_cos_core_pyth(0);
        assert(s == -sin_core_s(0) && c == -cos_core_s(0));
        assert(s * s == sin_core_s(0) * sin_core_s(0) && c * c == cos_core_s(0) * cos_core_s(0))
            by (nonlinear_arith)
            requires
                s == -sin_core_s(0),
                c == -cos_core_s(0),
        ;
    } else if b - PI_Q < HALF_PI_Q {
        lemma_sin_cos_core_pyth(b - PI_Q);
        assert(s == -sin_core_s(b - PI_Q));
        assert(TWO_PI_Q - b > HALF_PI_Q);
        assert(c == -cos_core_s(PI_Q - (TWO_PI_Q - b)));
        assert(PI_Q - (TWO_PI_Q - b) == b - PI_Q);
        assert(s * s == sin_core_s(b - PI_Q) * sin_core_s(b - PI_Q) && c * c == cos_core_s(b - PI_Q)
            * cos_core_s(b - PI_Q)) by (nonlinear_arith)
            requires
                s == -sin_core_s(b - PI_Q),
                c == -cos_core_s(b - PI_Q),
        ;
    } else {
        lemma_sin_cos_core_pyth(TWO_PI_Q - b);
        assert(s == -sin_half_s(b - PI_Q));
        assert(sin_half_s(b - PI_Q) == sin_core_s(PI_Q - (b - PI_Q)));
        assert(PI_Q - (b - PI_Q) == TWO_PI_Q - b);
        assert(TWO_PI_Q - b <= HALF_PI_Q);
        assert(c == cos_core_s(TWO_PI_Q - b));
        assert(s * s == sin_core_s(TWO_PI_Q - b) * sin_core_s(TWO_PI_Q - b)) by (nonlinear_arith)
            requires
                s == -sin_core_s(TWO_PI_Q - b),
        ;
    }
}

/// Reduce an angle to `[0, TWO_PI_Q)`.
fn rem_two_pi(a: i64) -> (r: i64)
    requires
        a > i64::MIN,
    ensures
        r as int == angle_norm(a as int),
        0 <= r < TWO_PI_Q,
{
    let am: i64 = if a < 0 {
        -a
    } else {
        a
    };
    let r0: i64 = am % TWO_PI_Q;
    proof {
        let t = TWO_PI_Q as int;
        vstd::arithmetic::div_mod::lemma_mod_division_less_than_divisor(am as int, t);
        if a >= 0 {
            assert(r0 as int == (a as int) % t);
        } else {
            lemma_fundamental_div_mod(am as int, t);
            let q = (am as int) / t;
            if r0 == 0 {
                assert(a as int == (-q) * t + 0) by (nonlinear_arith)
                    requires
                        am as int == t * q + 0,
                        a as int == -(am as int),
                ;
                lemma_fundamental_div_mod_converse_mod(a as int, t, -q, 0);
            } else {
                assert(a as int == (-q - 1) * t + (t - r0)) by (nonlinear_arith)
                    requires
                        am as int == t * q + r0,
                        a as int == -(am as int),
                ;
                lemma_fundamental_div_mod_converse_mod(a as int, t, -q - 1, t - r0);
            }
        }
    }
    if a < 0 && r0 != 0 {
        TWO_PI_Q - r0
    } else if a < 0 {
        0
    } else {
        r0
    }
}

/// First-quadrant sine.
fn sin_core(t: i64) -> (r: i64)
    requires
        0 <= t <= HALF_PI_Q,
    ensures
        r as int == sin_core_s(t as int),
        0 <= r <= FP,
{
    let t2 = mul_q(t, t);
    proof {
        crate::fixed::lemma_fmul_range(t as int, t as int, HALF_PI_Q as int, HALF_PI_Q as int);
        assert(sabs(t2 as int) <= 200000);
    }
    let t3 = mul_q(t2, t);
    proof {
        crate::fixed::lemma_fmul_range(t2 as int, t as int, 200000, HALF_PI_Q as int);
        assert(sabs(t3 as int) <= 320000);
    }
    let t5 = mul_q(t3, t2);
    proof {
        crate::fixed::lemma_fmul_range(t3 as int, t2 as int, 320000, 200000);
        assert(sabs(t5 as int) <= 1000000);
    }
    let t7 = mul_q(t5, t2);
    proof {
        crate::fixed::lemma_fmul_range(t5 as int, t2 as int, 1000000, 200000);
        assert(sabs(t7 as int) <= 3100000);
    }
    let d3 = tdiv_small(t3, 6);
    let d5 = tdiv_small(t5, 120);
    let d7 = tdiv_small(t7, 5040);
    let raw = t - d3 + d5 - d7;
    if raw < 0 {
        0
    } else if raw > FP {
        FP
    } else {
        raw
    }
}

/// Truncating division of an `i64` by a small positive constant.
fn tdiv_small(a: i64, b: i64) -> (r: i64)
    requires
        1 <= b,
    ensures
        r as int == tdiv(a as int, b as int),
        sabs(r as int) <= sabs(a as int),
{
    proof {
        lemma_tdiv_bound(a as int, b as int);
    }
    let q = tdiv_i128(a as i128, b as i128);
    q as i64
}

/// First-quadrant cosine.
fn cos_core(t: i64) -> (r: i64)
    requires
        0 <= t <= HALF_PI_Q,
    ensures
        r as int == cos_core_s(t as int),
        0 <= r <= FP,
{
    let s = sin_core(t);
    proof {
        lemma_mul_abs_bound(s as int, s as int, FP as int, FP as int);
        assert((s as int) * (s as int) >= 0) by (nonlinear_arith);
    }
    let n: u128 = ((FP as i128) * (FP as i128) - (s as i128) * (s as i128)) as u128;
    let r = isqrt_u128(n);
    proof {
        let ri = r as int;
        assert(n as int == FP * FP - (s as int) * (s as int));
        assert(ri <= FP) by (nonlinear_arith)
            requires
                0 <= ri,
                ri * ri <= FP * FP,
        ;
    }
    r as i64
}

/// Sine on `[0, PI_Q]`.
fn sin_half(u: i64) -> (r: i64)
    requires
        0 <= u <= PI_Q,
    ensures
        r as int == sin_half_s(u as int),
        0 <= r <= FP,
{
    if u <= HALF_PI_Q {
        sin_core(u)
    } else {
        sin_core(PI_Q - u)
    }
}

/// Cosine on `[0, PI_Q]`.
fn cos_half(u: i64) -> (r: i64)
    requires
        0 <= u <= PI_Q,
    ensures
        r as int == cos_half_s(u as int),
        sabs(r as int) <= FP,
{
    if u <= HALF_PI_Q {
        cos_core(u)
    } else {
        -cos_core(PI_Q - u)
    }
}

/// The sine of a Q16.16 angle.
pub fn sin_q(alpha: i64) -> (r: i64)
    requires
        alpha > i64::MIN,
    ensures
        r as int == sin_q_s(alpha as int),
        sabs(r as int) <= FP,
{
    let b = rem_two_pi(alpha);
    if b >= PI_Q {
        -sin_half(b - PI_Q)
    } else {
        sin_half(b)
    }
}

/// The cosine of a Q16.16 angle.
pub fn cos_q(alpha: i64) -> (r: i64)
    requires
        alpha > i64::MIN,
    ensures
        r as int == cos_q_s(alpha as int),
        sabs(r as int) <= FP,
{
    let b = rem_two_pi(alpha);
    let c = if b > PI_Q {
        TWO_PI_Q - b
    } else {
        b
    };
    cos_half(c)
}

/// Taylor polynomial for the arcsine on `[0, FP/sqrt(2)]`.
pub open spec fn asin_core_s(x: int) -> int {
    let x2 = fmul(x, x);
    let x3 = fmul(x2, x);
    let x5 = fmul(x3, x2);
    let x7 = fmul(x5, x2);
    let x9 = fmul(x7, x2);
    let x11 = fmul(x9, x2);
    x + tdiv(x3, 6) + tdiv(3 * x5, 40) + tdiv(5 * x7, 112) + tdiv(35 * x9, 1152) + tdiv(
        63 * x11,
        2816,
    )
}

/// Arcsine of a ratio in `[0, FP]`: reflected through
/// `asin(x) = pi/2 - asin(sqrt(1 - x^2))` above `1/sqrt(2)`, where the Taylor
/// series converges too slowly.
pub open spec fn asin_pos_s(x: int) -> int {
    if 2 * (x * x) >= FP * FP {
        HALF_PI_Q - asin_core_s(isqrt(FP * FP - x * x))
    } else {
        asin_core_s(x)
    }
}

/// Arcsine of a Q16.16 ratio in `[-FP, FP]`, odd by construction.
pub open spec fn asin_q_s(x: int) -> int {
    if x < 0 {
        -asin_pos_s(-x)
    } else {
        asin_pos_s(x)
    }
}

/// Arccosine of a Q16.16 ratio in `[-FP, FP]`.
pub open spec fn acos_q_s(x: int) -> int {
    HALF_PI_Q - asin_q_s(x)
}

/// Nonnegative factors have a nonnegative Q16.16 product.
pub proof fn lemma_fmul_nonneg(a: int, b: int)
    requires
        a >= 0,
        b >= 0,
    ensures
        fmul(a, b) >= 0,
{
    vstd::arithmetic::mul::lemma_mul_nonnegative(a, b);
    lemma_div_pos_is_pos(a * b, FP as int);
}

/// The value of the arcsine polynomial at zero.
pub proof fn lemma_asin_core_zero()
    ensures
        asin_core_s(0) == 0,
{
    vstd::arithmetic::div_mod::lemma_div_of0(FP as int);
    vstd::arithmetic::div_mod::lemma_div_of0(6);
    vstd::arithmetic::div_mod::lemma_div_of0(40);
    vstd::arithmetic::div_mod::lemma_div_of0(112);
    vstd::arithmetic::div_mod::lemma_div_of0(1152);
    vstd::arithmetic::div_mod::lemma_div_of0(2816);
}

/// The arccosine of zero is exactly a quarter turn.
pub proof fn lemma_acos_q_zero()
    ensures
        acos_q_s(0) == HALF_PI_Q,
{
    lemma_asin_core_zero();
}

/// The arccosine is exactly zero at one and exactly a half turn at minus one.
pub proof fn lemma_acos_q_one()
    ensures
        acos_q_s(FP as int) == 0,
        acos_q_s(-FP as int) == PI_Q,
{
    lemma_asin_core_zero();
    assert(is_isqrt(0, 0));
    lemma_isqrt_unique(0, 0);
    assert(asin_pos_s(FP as int) == HALF_PI_Q);
}

/// First-quadrant arcsine polynomial.
fn asin_core(x: i64) -> (r: i64)
    requires
        0 <= x <= 46341,
    ensures
        r as int == asin_core_s(x as int),
        0 <= r <= 55000,
{
    let x2 = mul_q(x, x);
    proof {
        crate::fixed::lemma_fmul_range(x as int, x as int, 46341, 46341);
        lemma_fmul_nonneg(x as int, x as int);
        assert(0 <= x2 <= 33000);
    }
    let x3 = mul_q(x2, x);
    proof {
        crate::fixed::lemma_fmul_range(x2 as int, x as int, 33000, 46341);
        lemma_fmul_nonneg(x2 as int, x as int);
        assert(0 <= x3 <= 24000);
    }
    let x5 = mul_q(x3, x2);
    proof {
        crate::fixed::lemma_fmul_range(x3 as int, x2 as int, 24000, 33000);
        lemma_fmul_nonneg(x3 as int, x2 as int);
        assert(0 <= x5 <= 12500);
    }
    let x7 = mul_q(x5, x2);
    proof {
        crate::fixed::lemma_fmul_range(x5 as int, x2 as int, 12500, 33000);
        lemma_fmul_nonneg(x5 as int, x2 as int);
        assert(0 <= x7 <= 6500);
    }
    let x9 = mul_q(x7, x2);
    proof {
        crate::fixed::lemma_fmul_range(x7 as int, x2 as int, 6500, 33000);
        lemma_fmul_nonneg(x7 as int, x2 as int);
        assert(0 <= x9 <= 3400);
    }
    let x11 = mul_q(x9, x2);
    proof {
        crate::fixed::lemma_fmul_range(x9 as int, x2 as int, 3400, 33000);
        lemma_fmul_nonneg(x9 as int, x2 as int);
        assert(0 <= x11 <= 1800);
    }
    let d3 = tdiv_small(x3, 6);
    let d5 = tdiv_small(3 * x5, 40);
    let d7 = tdiv_small(5 * x7, 112);
    let d9 = tdiv_small(35 * x9, 1152);
    let d11 = tdiv_small(63 * x11, 2816);
    proof {
        lemma_div_pos_is_pos(x3 as int, 6);
        lemma_div_pos_is_pos(3 * (x5 as int), 40);
        lemma_div_pos_is_pos(5 * (x7 as int), 112);
        lemma_div_pos_is_pos(35 * (x9 as int), 1152);
        lemma_div_pos_is_pos(63 * (x11 as int), 2816);
        lemma_div_is_ordered(x3 as int, 24000, 6);
        lemma_div_is_ordered(3 * (x5 as int), 37500, 40);
        lemma_div_is_ordered(5 * (x7 as int), 32500, 112);
        lemma_div_is_ordered(35 * (x9 as int), 119000, 1152);
        lemma_div_is_ordered(63 * (x11 as int), 113400, 2816);
    }
    x + d3 + d5 + d7 + d9 + d11
}

/// Arcsine of a nonnegative ratio.
fn asin_pos(x: i64) -> (r: i64)
    requires
        0 <= x <= FP,
    ensures
        r as int == asin_pos_s(x as int),
        0 <= r <= HALF_PI_Q,
{
    proof {
        lemma_mul_abs_bound(x as int, x as int, FP as int, FP as int);
        assert((x as int) * (x as int) >= 0) by (nonlinear_arith);
    }
    let xx: i64 = x * x;
    if 2 * xx >= FP * FP {
        let n: u128 = ((FP as i64) * (FP as i64) - xx) as u128;
        let y = isqrt_u128(n);
        proof {
            assert(n as int == FP * FP - (x as int) * (x as int));
            assert(y as int <= 46340) by (nonlinear_arith)
                requires
                    0 <= y as int,
                    (y as int) * (y as int) <= 2147483648,
            ;
        }
        HALF_PI_Q - asin_core(y as i64)
    } else {
        proof {
            assert(x <= 46340) by (nonlinear_arith)
                requires
                    0 <= x,
                    2 * ((x as int) * (x as int)) < FP * FP,
            ;
        }
        asin_core(x)
    }
}

/// Arcsine of a Q16.16 ratio.
pub fn asin_q(x: i64) -> (r: i64)
    requires
        -FP <= x <= FP,
    ensures
        r as int == asin_q_s(x as int),
        sabs(r as int) <= HALF_PI_Q,
{
    if x < 0 {
        -asin_pos(-x)
    } else {
        asin_pos(x)
    }
}

/// Arccosine of a Q16.16 ratio, in `[0, PI_Q]`.
pub fn acos_q(x: i64) -> (r: i64)
    requires
        -FP <= x <= FP,
    ensures
        r as int == acos_q_s(x as int),
        0 <= r <= PI_Q,
{
    let a = asin_q(x);
    HALF_PI_Q - a
}

/// Radians to degrees, both in Q16.16.
pub fn to_grad(rad: i64) -> (r: i64)
    requires
        sabs(rad as int) <= 140737488355328,  // 2^47
    ensures
        r as int == tdiv(180 * FP * (rad as int), PI_Q as int),
{
    proof {
        lemma_mul_abs_bound(180 * FP, rad as int, 180 * FP, 140737488355328);
    }
    let p: i128 = 180 * (FP as i128) * (rad as i128);
    let q = tdiv_i128(p, PI_Q as i128);
    proof {
        lemma_tdiv_bound(p as int, PI_Q as int);
        assert(sabs(tdiv(p as int, PI_Q as int)) * (PI_Q as int) <= sabs(p as int));
    }
    q as i64
}

} // verus!
