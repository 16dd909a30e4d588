//! 3x3 matrices over Q16.16 scalars, and the three elementary rotation
//! factories.  A rotation matrix carries its cosines and sines scaled by
//! `FP`, so applying it divides each product back down by `FP`.

use vstd::prelude::*;
use crate::fixed::FP;
use crate::fixed::MUL_LIM;
use crate::fixed::sabs;
use crate::fixed::fmul;
use crate::fixed::mul_q;
use crate::fixed::lemma_fmul_range;
use crate::fixed::lemma_fmul_contract;
use crate::fixed::lemma_fmul_zero;
use crate::fixed::lemma_fmul_comm;
use crate::fixed::lemma_fmul_neg_left;
use crate::fixed::lemma_fmul_fp;
use crate::vec3::Vec3;
use crate::trig::sin_q_s;
use crate::trig::cos_q_s;
use crate::trig::sin_q;
use crate::trig::cos_q;
use crate::trig::PI_Q;
use crate::trig::lemma_sin_q_zero;
use crate::trig::lemma_cos_q_zero;
use crate::trig::lemma_sin_q_pi;
use crate::trig::lemma_cos_q_pi;
use crate::trig::lemma_sin_q_odd;
use crate::trig::lemma_cos_q_even;
use crate::trig::lemma_sin_cos_q_pyth;
use vstd::arithmetic::div_mod::lemma_fundamental_div_mod;
use vstd::arithmetic::div_mod::lemma_mod_division_less_than_divisor;

verus! {

/// Largest entry magnitude accepted by the matrix products (2 FP): rotation
/// matrices stay within `FP`.
pub const MAT_LIM: i64 = 131072;

/// One row of a matrix applied to a column of Q16.16 values.
pub open spec fn row_apply(a: int, b: int, c: int, x: int, y: int, z: int) -> int {
    fmul(a, x) + fmul(b, y) + fmul(c, z)
}

/// A 3x3 matrix of Q16.16 entries, row-major: `wij` is row `i`, column `j`.
#[derive(Clone, Copy, Debug, PartialEq, Eq, Structural)]
pub struct Matrix3x3 {
    pub w11: i64,
    pub w12: i64,
    pub w13: i64,
    pub w21: i64,
    pub w22: i64,
    pub w23: i64,
    pub w31: i64,
    pub w32: i64,
    pub w33: i64,
}

/// `m` is the right-handed rotation about the Z axis by `a` Q16.16 radians.
pub open spec fn is_rot_z(m: Matrix3x3, a: int) -> bool {
    m.w11 == cos_q_s(a) && m.w12 == -sin_q_s(a) && m.w13 == 0 && m.w21 == sin_q_s(a) && m.w22
        == cos_q_s(a) && m.w23 == 0 && m.w31 == 0 && m.w32 == 0 && m.w33 == FP
}

/// `m` is the right-handed rotation about the X axis by `a` Q16.16 radians.
pub open spec fn is_rot_x(m: Matrix3x3, a: int) -> bool {
    m.w11 == FP && m.w12 == 0 && m.w13 == 0 && m.w21 == 0 && m.w22 == cos_q_s(a) && m.w23
        == -sin_q_s(a) && m.w31 == 0 && m.w32 == sin_q_s(a) && m.w33 == cos_q_s(a)
}

/// `m` is the right-handed rotation about the Y axis by `a` Q16.16 radians.
pub open spec fn is_rot_y(m: Matrix3x3, a: int) -> bool {
    m.w11 == cos_q_s(a) && m.w12 == 0 && m.w13 == sin_q_s(a) && m.w21 == 0 && m.w22 == FP && m.w23
        == 0 && m.w31 == -sin_q_s(a) && m.w32 == 0 && m.w33 == cos_q_s(a)
}

/// `p` is the matrix product `a * b`, entry by entry.
pub open spec fn product_of(p: Matrix3x3, a: Matrix3x3, b: Matrix3x3) -> bool {
    &&& p.w11 == row_apply(a.w11 as int, a.w12 as int, a.w13 as int, b.w11 as int, b.w21 as int, b.w31 as int)
    &&& p.w12 == row_apply(a.w11 as int, a.w12 as int, a.w13 as int, b.w12 as int, b.w22 as int, b.w32 as int)
    &&& p.w13 == row_apply(a.w11 as int, a.w12 as int, a.w13 as int, b.w13 as int, b.w23 as int, b.w33 as int)
    &&& p.w21 == row_apply(a.w21 as int, a.w22 as int, a.w23 as int, b.w11 as int, b.w21 as int, b.w31 as int)
    &&& p.w22 == row_apply(a.w21 as int, a.w22 as int, a.w23 as int, b.w12 as int, b.w22 as int, b.w32 as int)
    &&& p.w23 == row_apply(a.w21 as int, a.w22 as int, a.w23 as int, b.w13 as int, b.w23 as int, b.w33 as int)
    &&& p.w31 == row_apply(a.w31 as int, a.w32 as int, a.w33 as int, b.w11 as int, b.w21 as int, b.w31 as int)
    &&& p.w32 == row_apply(a.w31 as int, a.w32 as int, a.w33 as int, b.w12 as int, b.w22 as int, b.w32 as int)
    &&& p.w33 == row_apply(a.w31 as int, a.w32 as int, a.w33 as int, b.w13 as int, b.w23 as int, b.w33 as int)
}

impl Matrix3x3 {
    /// All nine entries have magnitude at most `b`.
    pub open spec fn bounded(self, b: int) -> bool {
        &&& sabs(self.w11 as int) <= b
        &&& sabs(self.w12 as int) <= b
        &&& sabs(self.w13 as int) <= b
        &&& sabs(self.w21 as int) <= b
        &&& sabs(self.w22 as int) <= b
        &&& sabs(self.w23 as int) <= b
        &&& sabs(self.w31 as int) <= b
        &&& sabs(self.w32 as int) <= b
        &&& sabs(self.w33 as int) <= b
    }

    /// The matrix applied to a column vector, row by row.
    pub open spec fn apply_spec(self, x: int, y: int, z: int) -> (int, int, int) {
        (
            row_apply(self.w11 as int, self.w12 as int, self.w13 as int, x, y, z),
            row_apply(self.w21 as int, self.w22 as int, self.w23 as int, x, y, z),
            row_apply(self.w31 as int, self.w32 as int, self.w33 as int, x, y, z),
        )
    }

    pub fn new(
        w11: i64,
        w12: i64,
        w13: i64,
        w21: i64,
        w22: i64,
        w23: i64,
        w31: i64,
        w32: i64,
        w33: i64,
    ) -> (r: Self)
        ensures
            r == (Matrix3x3 { w11, w12, w13, w21, w22, w23, w31, w32, w33 }),
    {
        Self { w11, w12, w13, w21, w22, w23, w31, w32, w33 }
    }

    /// Matrix times vector.
    pub fn mul_vec(&self, v: &Vec3) -> (r: Vec3)
        requires
            self.bounded(MAT_LIM as int),
            v.bounded(MUL_LIM as int),
        ensures
            (r.x as int, r.y as int, r.z as int) == self.apply_spec(
                v.x as int,
                v.y as int,
                v.z as int,
            ),
            self.bounded(FP as int) ==> sabs(r.x as int) <= sabs(v.x as int) + sabs(v.y as int)
                + sabs(v.z as int) && sabs(r.y as int) <= sabs(v.x as int) + sabs(v.y as int)
                + sabs(v.z as int) && sabs(r.z as int) <= sabs(v.x as int) + sabs(v.y as int)
                + sabs(v.z as int),
    {
        proof {
            lemma_fmul_range(self.w11 as int, v.x as int, MAT_LIM as int, MUL_LIM as int);
            lemma_fmul_range(self.w12 as int, v.y as int, MAT_LIM as int, MUL_LIM as int);
            lemma_fmul_range(self.w13 as int, v.z as int, MAT_LIM as int, MUL_LIM as int);
            lemma_fmul_range(self.w21 as int, v.x as int, MAT_LIM as int, MUL_LIM as int);
            lemma_fmul_range(self.w22 as int, v.y as int, MAT_LIM as int, MUL_LIM as int);
            lemma_fmul_range(self.w23 as int, v.z as int, MAT_LIM as int, MUL_LIM as int);
            lemma_fmul_range(self.w31 as int, v.x as int, MAT_LIM as int, MUL_LIM as int);
            lemma_fmul_range(self.w32 as int, v.y as int, MAT_LIM as int, MUL_LIM as int);
            lemma_fmul_range(self.w33 as int, v.z as int, MAT_LIM as int, MUL_LIM as int);
            if self.bounded(FP as int) {
                lemma_fmul_contract(self.w11 as int, v.x as int);
                lemma_fmul_contract(self.w12 as int, v.y as int);
                lemma_fmul_contract(self.w13 as int, v.z as int);
                lemma_fmul_contract(self.w21 as int, v.x as int);
                lemma_fmul_contract(self.w22 as int, v.y as int);
                lemma_fmul_contract(self.w23 as int, v.z as int);
                lemma_fmul_contract(self.w31 as int, v.x as int);
                lemma_fmul_contract(self.w32 as int, v.y as int);
                lemma_fmul_contract(self.w33 as int, v.z as int);
            }
        }
        Vec3 {
            x: mul_q(self.w11, v.x) + mul_q(self.w12, v.y) + mul_q(self.w13, v.z),
            y: mul_q(self.w21, v.x) + mul_q(self.w22, v.y) + mul_q(self.w23, v.z),
            z: mul_q(self.w31, v.x) + mul_q(self.w32, v.y) + mul_q(self.w33, v.z),
        }
    }

    /// Matrix times matrix.
    pub fn mul_mat(&self, rhs: &Self) -> (r: Self)
        requires
            self.bounded(MAT_LIM as int),
            rhs.bounded(MAT_LIM as int),
        ensures
            product_of(r, *self, *rhs),
    {
        proof {
            lemma_fmul_range(self.w11 as int, rhs.w11 as int, MAT_LIM as int, MAT_LIM as int);
            lemma_fmul_range(self.w11 as int, rhs.w12 as int, MAT_LIM as int, MAT_LIM as int);
            lemma_fmul_range(self.w11 as int, rhs.w13 as int, MAT_LIM as int, MAT_LIM as int);
            lemma_fmul_range(self.w12 as int, rhs.w21 as int, MAT_LIM as int, MAT_LIM as int);
            lemma_fmul_range(self.w12 as int, rhs.w22 as int, MAT_LIM as int, MAT_LIM as int);
            lemma_fmul_range(self.w12 as int, rhs.w23 as int, MAT_LIM as int, MAT_LIM as int);
            lemma_fmul_range(self.w13 as int, rhs.w31 as int, MAT_LIM as int, MAT_LIM as int);
            lemma_fmul_range(self.w13 as int, rhs.w32 as int, MAT_LIM as int, MAT_LIM as int);
            lemma_fmul_range(self.w13 as int, rhs.w33 as int, MAT_LIM as int, MAT_LIM as int);
            lemma_fmul_range(self.w21 as int, rhs.w11 as int, MAT_LIM as int, MAT_LIM as int);
            lemma_fmul_range(self.w21 as int, rhs.w12 as int, MAT_LIM as int, MAT_LIM as int);
            lemma_fmul_range(self.w21 as int, rhs.w13 as int, MAT_LIM as int, MAT_LIM as int);
            lemma_fmul_range(self.w22 as int, rhs.w21 as int, MAT_LIM as int, MAT_LIM as int);
            lemma_fmul_range(self.w22 as int, rhs.w22 as int, MAT_LIM as int, MAT_LIM as int);
            lemma_fmul_range(self.w22 as int, rhs.w23 as int, MAT_LIM as int, MAT_LIM as int);
            lemma_fmul_range(self.w23 as int, rhs.w31 as int, MAT_LIM as int, MAT_LIM as int);
            lemma_fmul_range(self.w23 as int, rhs.w32 as int, MAT_LIM as int, MAT_LIM as int);
            lemma_fmul_range(self.w23 as int, rhs.w33 as int, MAT_LIM as int, MAT_LIM as int);
            lemma_fmul_range(self.w31 as int, rhs.w11 as int, MAT_LIM as int, MAT_LIM as int);
            lemma_fmul_range(self.w31 as int, rhs.w12 as int, MAT_LIM as int, MAT_LIM as int);
            lemma_fmul_range(self.w31 as int, rhs.w13 as int, MAT_LIM as int, MAT_LIM as int);
            lemma_fmul_range(self.w32 as int, rhs.w21 as int, MAT_LIM as int, MAT_LIM as int);
            lemma_fmul_range(self.w32 as int, rhs.w22 as int, MAT_LIM as int, MAT_LIM as int);
            lemma_fmul_range(self.w32 as int, rhs.w23 as int, MAT_LIM as int, MAT_LIM as int);
            lemma_fmul_range(self.w33 as int, rhs.w31 as int, MAT_LIM as int, MAT_LIM as int);
            lemma_fmul_range(self.w33 as int, rhs.w32 as int, MAT_LIM as int, MAT_LIM as int);
            lemma_fmul_range(self.w33 as int, rhs.w33 as int, MAT_LIM as int, MAT_LIM as int);
        }
        Self {
            w11: mul_q(self.w11, rhs.w11) + mul_q(self.w12, rhs.w21) + mul_q(self.w13, rhs.w31),
            w12: mul_q(self.w11, rhs.w12) + mul_q(self.w12, rhs.w22) + mul_q(self.w13, rhs.w32),
            w13: mul_q(self.w11, rhs.w13) + mul_q(self.w12, rhs.w23) + mul_q(self.w13, rhs.w33),
            w21: mul_q(self.w21, rhs.w11) + mul_q(self.w22, rhs.w21) + mul_q(self.w23, rhs.w31),
            w22: mul_q(self.w21, rhs.w12) + mul_q(self.w22, rhs.w22) + mul_q(self.w23, rhs.w32),
            w23: mul_q(self.w21, rhs.w13) + mul_q(self.w22, rhs.w23) + mul_q(self.w23, rhs.w33),
            w31: mul_q(self.w31, rhs.w11) + mul_q(self.w32, rhs.w21) + mul_q(self.w33, rhs.w31),
            w32: mul_q(self.w31, rhs.w12) + mul_q(self.w32, rhs.w22) + mul_q(self.w33, rhs.w32),
            w33: mul_q(self.w31, rhs.w13) + mul_q(self.w32, rhs.w23) + mul_q(self.w33, rhs.w33),
        }
    }
}

/// The rotation about the Z axis by `alpha` Q16.16 radians:
/// `rot_z * (1,0,0) = (cos alpha, sin alpha, 0)`.
pub fn get_rot_z(alpha: i64) -> (r: Matrix3x3)
    requires
        alpha > i64::MIN,
    ensures
        is_rot_z(r, alpha as int),
        r.bounded(FP as int),
{
    let c = cos_q(alpha);
    let s = sin_q(alpha);
    Matrix3x3::new(c, -s, 0, s, c, 0, 0, 0, FP)
}

/// The rotation about the X axis by `alpha` Q16.16 radians.
pub fn get_rot_x(alpha: i64) -> (r: Matrix3x3)
    requires
        alpha > i64::MIN,
    ensures
        is_rot_x(r, alpha as int),
        r.bounded(FP as int),
{
    let c = cos_q(alpha);
    let s = sin_q(alpha);
    Matrix3x3::new(FP, 0, 0, 0, c, -s, 0, s, c)
}

/// The rotation about the Y axis by `alpha` Q16.16 radians.
pub fn get_rot_y(alpha: i64) -> (r: Matrix3x3)
    requires
        alpha > i64::MIN,
    ensures
        is_rot_y(r, alpha as int),
        r.bounded(FP as int),
{
    let c = cos_q(alpha);
    let s = sin_q(alpha);
    Matrix3x3::new(c, 0, s, 0, FP, 0, -s, 0, c)
}

/// The rotation about Z by a zero angle is the identity, exactly: applying it
/// returns every vector unchanged.
pub proof fn lemma_rot_z_zero_identity(m: Matrix3x3, x: int, y: int, z: int)
    requires
        is_rot_z(m, 0),
    ensures
        m.apply_spec(x, y, z) == (x, y, z),
{
    lemma_sin_q_zero();
    lemma_cos_q_zero();
    lemma_fmul_fp(x);
    lemma_fmul_fp(y);
    lemma_fmul_fp(z);
    lemma_fmul_zero(x);
    lemma_fmul_zero(y);
    lemma_fmul_zero(z);
}

/// The rotation about Z by a half turn negates the X and Y coordinates,
/// exactly, and keeps Z.
pub proof fn lemma_rot_z_pi_negates(m: Matrix3x3, x: int, y: int, z: int)
    requires
        is_rot_z(m, PI_Q as int),
    ensures
        m.apply_spec(x, y, z) == (-x, -y, z),
{
    lemma_sin_q_pi();
    lemma_cos_q_pi();
    lemma_fmul_fp(x);
    lemma_fmul_fp(y);
    lemma_fmul_fp(z);
    lemma_fmul_zero(x);
    lemma_fmul_zero(y);
    lemma_fmul_zero(z);
}

/// Rotating about Y by an angle and then by its negation is the identity up
/// to one integer-rounding step: the product matrix is exactly diagonal, its
/// middle entry is exactly `FP`, and its outer diagonal entries agree and lie
/// within four rounding units below `FP`.
pub proof fn lemma_rot_y_round_trip(p: Matrix3x3, m1: Matrix3x3, m2: Matrix3x3, a: int)
    requires
        is_rot_y(m1, a),
        is_rot_y(m2, -a),
        product_of(p, m1, m2),
    ensures
        p.w12 == 0 && p.w13 == 0 && p.w21 == 0 && p.w23 == 0 && p.w31 == 0 && p.w32 == 0,
        p.w22 == FP,
        p.w11 == p.w33,
        FP - 4 <= p.w11 <= FP,
{
    let c = cos_q_s(a);
    let s = sin_q_s(a);
    lemma_sin_q_odd(a);
    lemma_cos_q_even(a);
    lemma_sin_cos_q_pyth(a);
    // m1 = [c, 0, s; 0, FP, 0; -s, 0, c],  m2 = [c, 0, -s; 0, FP, 0; s, 0, c]
    lemma_fmul_zero(c);
    lemma_fmul_zero(s);
    lemma_fmul_zero(-s);
    lemma_fmul_zero(0);
    lemma_fmul_zero(FP as int);
    lemma_fmul_fp(FP as int);
    lemma_fmul_comm(s, c);
    lemma_fmul_neg_left(c, s);
    lemma_fmul_comm(c, -s);
    lemma_fmul_neg_left(s, c);
    lemma_fmul_comm(s, -c);
    lemma_fmul_neg_left(s, s);
    lemma_fmul_neg_left(s, -s);
    assert(fmul(-s, -s) == fmul(s, s)) by {
        lemma_fmul_neg_left(s, -s);
        lemma_fmul_comm(s, -s);
        lemma_fmul_neg_left(s, s);
    }
    // the diagonal entry d = fmul(c, c) + fmul(s, s)
    let d = fmul(c, c) + fmul(s, s);
    assert(p.w11 == d);
    assert(p.w33 == d);
    assert(FP - 4 <= d <= FP) by {
        assert(c * c >= 0 && s * s >= 0) by (nonlinear_arith);
        lemma_fundamental_div_mod(c * c, FP as int);
        lemma_fundamental_div_mod(s * s, FP as int);
        lemma_mod_division_less_than_divisor(c * c, FP as int);
        lemma_mod_division_less_than_divisor(s * s, FP as int);
        assert(fmul(c, c) == (c * c) / (FP as int));
        assert(fmul(s, s) == (s * s) / (FP as int));
    }
}

} // verus!
