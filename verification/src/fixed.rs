//! Q16.16 fixed-point arithmetic: exact integer specifications for the
//! truncating multiply/divide that the rest of the library is built on, and a
//! verified integer square root.

use vstd::prelude::*;
use vstd::arithmetic::div_mod::lemma_fundamental_div_mod;
use vstd::arithmetic::div_mod::lemma_div_pos_is_pos;
use vstd::arithmetic::div_mod::lemma_div_nonincreasing;
use vstd::arithmetic::div_mod::lemma_div_is_ordered;
use vstd::arithmetic::div_mod::lemma_div_of0;
use vstd::arithmetic::div_mod::lemma_remainder_lower;
use vstd::arithmetic::div_mod::lemma_div_multiples_vanish;

verus! {

/// Scale of the Q16.16 representation: every scalar in this crate is an `i64`
/// counting 1/65536-ths of a unit.
pub const FP: i64 = 65536;

/// Largest magnitude accepted by `mul_q` (2^39): products then stay well
/// inside `i128` and quotients inside `i64`.
pub const MUL_LIM: i64 = 549755813888;

/// Largest dividend magnitude accepted by `div_q` (2^46).
pub const DIV_LIM: i64 = 70368744177664;

/// Largest component magnitude accepted by `norm3_q` (2^40).
pub const NORM_LIM: i64 = 1099511627776;

/// Magnitude of an integer.
pub open spec fn sabs(a: int) -> int {
    if a >= 0 {
        a
    } else {
        -a
    }
}

/// Truncating (round-toward-zero) division, the behaviour of `/` on Rust's
/// signed integers.  Spec-mode `/` alone is Euclidean, so the two differ on
/// negative dividends.
pub open spec fn tdiv(a: int, b: int) -> int {
    if (a >= 0) == (b >= 0) {
        sabs(a) / sabs(b)
    } else {
        -(sabs(a) / sabs(b))
    }
}

/// Product of two Q16.16 values, truncated toward zero.
pub open spec fn fmul(a: int, b: int) -> int {
    tdiv(a * b, FP as int)
}

/// Quotient of two Q16.16 values, truncated toward zero.
pub open spec fn fdiv(a: int, b: int) -> int {
    tdiv(a * FP, b)
}

/// Division rounding half away from zero, for a positive divisor.
pub open spec fn rdiv(a: int, b: int) -> int {
    if a >= 0 {
        (2 * a + b) / (2 * b)
    } else {
        -((2 * (-a) + b) / (2 * b))
    }
}

/// Saturate an integer into the `i32` range.
pub open spec fn clamp_i32(a: int) -> int {
    if a > i32::MAX {
        i32::MAX as int
    } else if a < i32::MIN {
        i32::MIN as int
    } else {
        a
    }
}

/// `r` is the integer square root of `n`.
pub open spec fn is_isqrt(n: int, r: int) -> bool {
    0 <= r && r * r <= n && n < (r + 1) * (r + 1)
}

/// The integer square root: the unique `r >= 0` with `r*r <= n < (r+1)*(r+1)`.
pub open spec fn isqrt(n: int) -> int {
    choose|r: int| is_isqrt(n, r)
}

/// A product of values bounded in magnitude is bounded by the product of the
/// bounds.
pub proof fn lemma_mul_abs_bound(c: int, t: int, cb: int, tb: int) by (nonlinear_arith)
    requires
        -cb <= c <= cb,
        -tb <= t <= tb,
    ensures
        -(cb * tb) <= c * t <= cb * tb,
{
}

/// Every nonnegative integer has an integer square root.
pub proof fn lemma_isqrt_exists(n: int)
    requires
        n >= 0,
    ensures
        is_isqrt(n, isqrt(n)),
    decreases n,
{
    if n == 0 {
        assert(is_isqrt(0, 0));
    } else {
        lemma_isqrt_exists(n - 1);
        let r = isqrt(n - 1);
        if (r + 1) * (r + 1) <= n {
            assert(n - 1 < (r + 1) * (r + 1));
            assert(n == (r + 1) * (r + 1));
            assert((r + 2) * (r + 2) > (r + 1) * (r + 1)) by (nonlinear_arith)
                requires
                    r >= 0,
            ;
            assert(is_isqrt(n, r + 1));
        } else {
            assert(is_isqrt(n, r));
        }
    }
}

/// The integer square root is unique.
pub proof fn lemma_isqrt_unique(n: int, r: int)
    requires
        is_isqrt(n, r),
    ensures
        r == isqrt(n),
{
    lemma_isqrt_exists(n);
    let s = isqrt(n);
    assert(r == s) by (nonlinear_arith)
        requires
            0 <= r,
            r * r <= n,
            n < (r + 1) * (r + 1),
            0 <= s,
            s * s <= n,
            n < (s + 1) * (s + 1),
    ;
}

/// Truncating division by a positive divisor shrinks magnitudes: the quotient
/// is no larger in magnitude than the dividend, and multiplying back never
/// overshoots.
pub proof fn lemma_tdiv_bound(a: int, b: int)
    requires
        b >= 1,
    ensures
        sabs(tdiv(a, b)) <= sabs(a),
        sabs(tdiv(a, b)) * b <= sabs(a),
{
    let n = sabs(a);
    lemma_div_pos_is_pos(n, b);
    lemma_div_nonincreasing(n, b);
    lemma_fundamental_div_mod(n, b);
    lemma_remainder_lower(n, b);
    assert(sabs(tdiv(a, b)) == n / b);
    assert((n / b) * b == b * (n / b)) by (nonlinear_arith);
}

/// Truncating division is odd in its dividend.
pub proof fn lemma_tdiv_neg(a: int, b: int)
    requires
        b != 0,
    ensures
        tdiv(-a, b) == -tdiv(a, b),
{
    lemma_div_of0(sabs(b));
}

/// Exact multiples divide out exactly under truncating division.
pub proof fn lemma_tdiv_exact(a: int, b: int)
    requires
        b >= 1,
    ensures
        tdiv(a * b, b) == a,
{
    if a >= 0 {
        lemma_div_multiples_vanish(a, b);
        assert(a * b >= 0 && sabs(a * b) == a * b && b * a == a * b) by (nonlinear_arith)
            requires
                a >= 0,
                b >= 1,
        ;
    } else {
        lemma_div_multiples_vanish(-a, b);
        assert(a * b < 0 && sabs(a * b) == (-a) * b && b * (-a) == (-a) * b) by (nonlinear_arith)
            requires
                a < 0,
                b >= 1,
        ;
    }
}

/// Multiplying by a coefficient of magnitude at most `FP` cannot grow a
/// Q16.16 value.
pub proof fn lemma_fmul_contract(c: int, t: int)
    requires
        sabs(c) <= FP,
    ensures
        sabs(fmul(c, t)) <= sabs(t),
{
    let s = sabs(t);
    lemma_mul_abs_bound(c, t, FP as int, s);
    lemma_tdiv_bound(c * t, FP as int);
    lemma_div_is_ordered(sabs(c * t), FP * s, FP as int);
    lemma_div_multiples_vanish(s, FP as int);
}

/// A Q16.16 product of bounded values is bounded by the scaled-down product
/// of the bounds.
pub proof fn lemma_fmul_range(a: int, b: int, ab: int, bb: int)
    requires
        sabs(a) <= ab,
        sabs(b) <= bb,
    ensures
        sabs(fmul(a, b)) <= (ab * bb) / (FP as int),
{
    lemma_mul_abs_bound(a, b, ab, bb);
    lemma_div_pos_is_pos(sabs(a * b), FP as int);
    lemma_div_is_ordered(sabs(a * b), ab * bb, FP as int);
}

/// Zero annihilates a Q16.16 product.
pub proof fn lemma_fmul_zero(x: int)
    ensures
        fmul(0, x) == 0,
        fmul(x, 0) == 0,
{
    lemma_div_of0(FP as int);
}

/// The Q16.16 product is commutative.
pub proof fn lemma_fmul_comm(a: int, b: int)
    ensures
        fmul(a, b) == fmul(b, a),
{
    vstd::arithmetic::mul::lemma_mul_is_commutative(a, b);
}

/// The Q16.16 product is odd in its left factor.
pub proof fn lemma_fmul_neg_left(a: int, b: int)
    ensures
        fmul(-a, b) == -fmul(a, b),
{
    vstd::arithmetic::mul::lemma_mul_unary_negation(a, b);
    lemma_tdiv_neg(a * b, FP as int);
}

/// `FP` is the multiplicative unit of the Q16.16 product, exactly, and
/// `-FP` negates exactly.
pub proof fn lemma_fmul_fp(x: int)
    ensures
        fmul(FP as int, x) == x,
        fmul(x, FP as int) == x,
        fmul(-(FP as int), x) == -x,
{
    lemma_tdiv_exact(x, FP as int);
    vstd::arithmetic::mul::lemma_mul_is_commutative(FP as int, x);
    lemma_fmul_neg_left(FP as int, x);
}

/// Truncating division leaves a remainder smaller in magnitude than the
/// divisor: `a - b * tdiv(a, b)` is the truncating remainder.
pub proof fn lemma_tdiv_identity(a: int, b: int)
    requires
        b != 0,
    ensures
        sabs(a - b * tdiv(a, b)) < sabs(b),
{
    let n = sabs(a);
    let m = sabs(b);
    let q0 = n / m;
    let r0 = n % m;
    let q = tdiv(a, b);
    lemma_fundamental_div_mod(n, m);
    vstd::arithmetic::div_mod::lemma_mod_division_less_than_divisor(n, m);
    lemma_div_pos_is_pos(n, m);
    if a >= 0 && b > 0 {
        assert(a - b * q == r0) by (nonlinear_arith)
            requires
                q == q0,
                a == n,
                b == m,
                n == m * q0 + r0,
        ;
    } else if a < 0 && b > 0 {
        assert(a - b * q == -r0) by (nonlinear_arith)
            requires
                q == -q0,
                a == -n,
                b == m,
                n == m * q0 + r0,
        ;
    } else if a >= 0 && b < 0 {
        assert(a - b * q == r0) by (nonlinear_arith)
            requires
                q == -q0,
                a == n,
                b == -m,
                n == m * q0 + r0,
        ;
    } else {
        assert(a - b * q == -r0) by (nonlinear_arith)
            requires
                q == q0,
                a == -n,
                b == -m,
                n == m * q0 + r0,
        ;
    }
}

/// Truncating multiply of two `i64` Q16.16 values, computed without overflow
/// through `i128`.
pub fn mul_q(a: i64, b: i64) -> (r: i64)
    requires
        sabs(a as int) <= MUL_LIM,
        sabs(b as int) <= MUL_LIM,
    ensures
        r == fmul(a as int, b as int),
{
    proof {
        lemma_mul_abs_bound(a as int, b as int, MUL_LIM as int, MUL_LIM as int);
    }
    let p: i128 = (a as i128) * (b as i128);
    let pm: i128 = if p < 0 {
        -p
    } else {
        p
    };
    let qm: i128 = pm / (FP as i128);
    proof {
        lemma_div_pos_is_pos(pm as int, FP as int);
        lemma_div_nonincreasing(pm as int, FP as int);
        lemma_div_is_ordered(pm as int, MUL_LIM * MUL_LIM, FP as int);
        assert(MUL_LIM * MUL_LIM / (FP as int) < i64::MAX);
    }
    if p < 0 {
        (-qm) as i64
    } else {
        qm as i64
    }
}

/// Truncating Q16.16 quotient `a / b` of two `i64` values, computed without
/// overflow through `i128`.
pub fn div_q(a: i64, b: i64) -> (r: i64)
    requires
        b != 0,
        sabs(a as int) <= DIV_LIM,
    ensures
        r == fdiv(a as int, b as int),
{
    proof {
        lemma_mul_abs_bound(a as int, FP as int, DIV_LIM as int, FP as int);
    }
    let p: i128 = (a as i128) * (FP as i128);
    let pm: i128 = if p < 0 {
        -p
    } else {
        p
    };
    let bm: i128 = if b < 0 {
        -(b as i128)
    } else {
        b as i128
    };
    let qm: i128 = pm / bm;
    proof {
        lemma_div_pos_is_pos(pm as int, bm as int);
        lemma_div_nonincreasing(pm as int, bm as int);
        if pm == 0 {
            lemma_div_of0(bm as int);
        }
    }
    if (p < 0) == (b < 0) {
        qm as i64
    } else {
        (-qm) as i64
    }
}

/// Truncating division on `i128`, by explicit sign splitting.
pub fn tdiv_i128(p: i128, b: i128) -> (q: i128)
    requires
        b != 0,
        p > i128::MIN,
        b > i128::MIN,
    ensures
        q as int == tdiv(p as int, b as int),
        sabs(q as int) <= sabs(p as int),
{
    let pm: i128 = if p < 0 {
        -p
    } else {
        p
    };
    let bm: i128 = if b < 0 {
        -b
    } else {
        b
    };
    let qm: i128 = pm / bm;
    proof {
        lemma_div_pos_is_pos(pm as int, bm as int);
        lemma_div_nonincreasing(pm as int, bm as int);
        if pm == 0 {
            lemma_div_of0(bm as int);
        }
    }
    if (p < 0) == (b < 0) {
        qm
    } else {
        -qm
    }
}

/// Integer square root by binary search.
pub fn isqrt_u128(n: u128) -> (r: u64)
    requires
        n < 85070591730234615865843651857942052864,  // 2^126
    ensures
        is_isqrt(n as int, r as int),
        r as int == isqrt(n as int),
{
    let mut lo: u128 = 0;
    let mut hi: u128 = 9223372036854775808;  // 2^63
    while hi - lo > 1
        invariant
            lo < hi <= 9223372036854775808,
            (lo as int) * (lo as int) <= n as int,
            (n as int) < (hi as int) * (hi as int),
            n < 85070591730234615865843651857942052864,
        decreases hi - lo,
    {
        let mid = lo + (hi - lo) / 2;
        proof {
            assert(lo < mid < hi);
            lemma_mul_abs_bound(mid as int, mid as int, 9223372036854775808, 9223372036854775808);
        }
        if mid * mid <= n {
            lo = mid;
        } else {
            hi = mid;
        }
    }
    proof {
        assert(hi == lo + 1);
        assert(is_isqrt(n as int, lo as int));
        lemma_isqrt_unique(n as int, lo as int);
    }
    lo as u64
}

/// Integer square root of `x*x + y*y + z*z` for three Q16.16 components: the
/// Euclidean length of the vector `(x, y, z)`, still at Q16.16 scale.
pub fn norm3_q(x: i64, y: i64, z: i64) -> (r: i64)
    requires
        sabs(x as int) <= NORM_LIM,
        sabs(y as int) <= NORM_LIM,
        sabs(z as int) <= NORM_LIM,
    ensures
        r == isqrt((x as int) * (x as int) + (y as int) * (y as int) + (z as int) * (z as int)),
        is_isqrt((x as int) * (x as int) + (y as int) * (y as int) + (z as int) * (z as int), r as int),
        0 <= r <= 2199023255552,  // 2^41
{
    proof {
        lemma_mul_abs_bound(x as int, x as int, NORM_LIM as int, NORM_LIM as int);
        lemma_mul_abs_bound(y as int, y as int, NORM_LIM as int, NORM_LIM as int);
        lemma_mul_abs_bound(z as int, z as int, NORM_LIM as int, NORM_LIM as int);
        assert((x as int) * (x as int) >= 0) by (nonlinear_arith);
        assert((y as int) * (y as int) >= 0) by (nonlinear_arith);
        assert((z as int) * (z as int) >= 0) by (nonlinear_arith);
    }
    let xx: i128 = (x as i128) * (x as i128);
    let yy: i128 = (y as i128) * (y as i128);
    let zz: i128 = (z as i128) * (z as i128);
    let s: i128 = xx + yy + zz;
    let n: u128 = s as u128;
    let r = isqrt_u128(n);
    proof {
        let ni = n as int;
        let ri = r as int;
        assert(ri <= 2199023255552) by (nonlinear_arith)
            requires
                0 <= ri,
                ri * ri <= ni,
                ni <= 3 * (1099511627776 * 1099511627776),
        ;
    }
    r as i64
}

} // verus!
