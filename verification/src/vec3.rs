//! 3D vectors over Q16.16 scalars: the value type every other component of
//! the library is built from.

use vstd::prelude::*;
use crate::fixed::FP;
use crate::fixed::MUL_LIM;
use crate::fixed::sabs;
use crate::fixed::tdiv;
use crate::fixed::fmul;
use crate::fixed::isqrt;
use crate::fixed::is_isqrt;
use crate::fixed::mul_q;
use crate::fixed::tdiv_i128;
use crate::fixed::norm3_q;
use crate::fixed::fdiv;
use crate::fixed::div_q;
use crate::fixed::lemma_mul_abs_bound;
use crate::trig::acos_q;
use crate::trig::acos_q_s;
use vstd::arithmetic::div_mod::lemma_div_is_ordered;
use vstd::arithmetic::div_mod::lemma_div_pos_is_pos;
use vstd::arithmetic::div_mod::lemma_div_of0;

verus! {

/// Largest coordinate magnitude accepted by the multiplying vector
/// operations (2^38): sums of Q16.16 products then stay inside `i64`.
pub const VEC_LIM: i64 = 274877906944;

/// Largest coordinate magnitude accepted where a dot product is further
/// divided by a length product (2^30, about 16000 world units): the scaled
/// ratio then stays inside `i64` even against a unit divisor.
pub const COORD_LIM: i64 = 1073741824;

/// Largest coordinate magnitude accepted by the purely additive vector
/// operations (2^60).
pub const ADD_LIM: i64 = 1152921504606846976;

/// A 3D vector of Q16.16 coordinates.  An immutable value type: every
/// operation returns a new vector.
#[derive(Clone, Copy, Debug, PartialEq, Eq, Structural)]
pub struct Vec3 {
    pub x: i64,
    pub y: i64,
    pub z: i64,
}

impl Vec3 {
    /// All three coordinates have magnitude at most `b`.
    pub open spec fn bounded(self, b: int) -> bool {
        sabs(self.x as int) <= b && sabs(self.y as int) <= b && sabs(self.z as int) <= b
    }

    /// The dot product at Q16.16 scale: the full-precision sum of coordinate
    /// products, scaled back down with one truncating division.
    pub open spec fn dot_spec(self, other: Vec3) -> int {
        tdiv(
            (self.x as int) * (other.x as int) + (self.y as int) * (other.y as int) + (self.z
                as int) * (other.z as int),
            FP as int,
        )
    }

    /// The Euclidean length at Q16.16 scale, rounded down to an integer.
    pub open spec fn norm_spec(self) -> int {
        isqrt(
            (self.x as int) * (self.x as int) + (self.y as int) * (self.y as int) + (self.z
                as int) * (self.z as int),
        )
    }

    pub fn new(x: i64, y: i64, z: i64) -> (r: Self)
        ensures
            r == (Vec3 { x, y, z }),
    {
        Self { x, y, z }
    }

    /// The vector from `one` to `two`.
    pub fn from_points(one: &Vec3, two: &Vec3) -> (r: Self)
        requires
            one.bounded(ADD_LIM as int),
            two.bounded(ADD_LIM as int),
        ensures
            r.x == two.x - one.x,
            r.y == two.y - one.y,
            r.z == two.z - one.z,
    {
        Self { x: two.x - one.x, y: two.y - one.y, z: two.z - one.z }
    }

    pub fn dot_product(&self, other: &Self) -> (r: i64)
        requires
            self.bounded(VEC_LIM as int),
            other.bounded(VEC_LIM as int),
        ensures
            r == self.dot_spec(*other),
    {
        proof {
            lemma_mul_abs_bound(self.x as int, other.x as int, VEC_LIM as int, VEC_LIM as int);
            lemma_mul_abs_bound(self.y as int, other.y as int, VEC_LIM as int, VEC_LIM as int);
            lemma_mul_abs_bound(self.z as int, other.z as int, VEC_LIM as int, VEC_LIM as int);
        }
        let s: i128 = (self.x as i128) * (other.x as i128) + (self.y as i128) * (other.y as i128)
            + (self.z as i128) * (other.z as i128);
        let q = tdiv_i128(s, FP as i128);
        proof {
            crate::fixed::lemma_tdiv_bound(s as int, FP as int);
            assert(sabs(q as int) * (FP as int) <= 3 * (274877906944 * 274877906944));
        }
        q as i64
    }

    /// The Euclidean length.  A zero vector has no direction, and callers
    /// divide by the length, so zero is reported as "no length" rather than
    /// as the number `0`.
    pub fn len(&self) -> (r: Option<i64>)
        requires
            self.bounded(VEC_LIM as int),
        ensures
            match r {
                None => self.x == 0 && self.y == 0 && self.z == 0,
                Some(l) => (self.x != 0 || self.y != 0 || self.z != 0) && l == self.norm_spec()
                    && 1 <= l <= 2199023255552,
            },
    {
        let s = norm3_q(self.x, self.y, self.z);
        if s == 0 {
            proof {
                let xi = self.x as int;
                let yi = self.y as int;
                let zi = self.z as int;
                assert(xi * xi >= 0 && yi * yi >= 0 && zi * zi >= 0) by (nonlinear_arith);
                assert(is_isqrt(xi * xi + yi * yi + zi * zi, 0));
                assert(xi == 0 && yi == 0 && zi == 0) by (nonlinear_arith)
                    requires
                        xi * xi >= 0,
                        yi * yi >= 0,
                        zi * zi >= 0,
                        xi * xi + yi * yi + zi * zi < 1,
                ;
            }
            None
        } else {
            proof {
                if self.x == 0 && self.y == 0 && self.z == 0 {
                    assert((s as int) * (s as int) <= 0);
                    assert(false) by (nonlinear_arith)
                        requires
                            s as int >= 1,
                            (s as int) * (s as int) <= 0,
                    ;
                }
            }
            Some(s)
        }
    }

    /// The cosine of the angle between two vectors: their dot product divided
    /// by the product of their lengths, saturated into `[-FP, FP]` so that
    /// integer rounding can never push it outside the arccosine's domain.
    pub open spec fn cross_ratio_spec(self, other: Vec3) -> int {
        let raw = fdiv(self.dot_spec(other), fmul(self.norm_spec(), other.norm_spec()));
        if raw > FP {
            FP as int
        } else if raw < -FP {
            -FP as int
        } else {
            raw
        }
    }

    /// The angle between two vectors, in Q16.16 radians.
    pub open spec fn cross_angle_spec(self, other: Vec3) -> int {
        acos_q_s(self.cross_ratio_spec(other))
    }

    /// The angle between two vectors.  A vector of zero (or Q16.16-subunit)
    /// length has no direction, so the length product is required to be
    /// nonzero; with a zero divisor the ratio is undefined and a caller could
    /// not trust any returned angle.
    pub fn cross_angle(&self, other: &Self) -> (r: i64)
        requires
            self.bounded(COORD_LIM as int),
            other.bounded(COORD_LIM as int),
            fmul(self.norm_spec(), other.norm_spec()) >= 1,
        ensures
            r == self.cross_angle_spec(*other),
            0 <= r <= crate::trig::PI_Q,
    {
        let dot = self.dot_product(other);
        let la = norm3_q(self.x, self.y, self.z);
        let lb = norm3_q(other.x, other.y, other.z);
        proof {
            lemma_mul_abs_bound(self.x as int, self.x as int, COORD_LIM as int, COORD_LIM as int);
            lemma_mul_abs_bound(self.y as int, self.y as int, COORD_LIM as int, COORD_LIM as int);
            lemma_mul_abs_bound(self.z as int, self.z as int, COORD_LIM as int, COORD_LIM as int);
            lemma_mul_abs_bound(other.x as int, other.x as int, COORD_LIM as int, COORD_LIM as int);
            lemma_mul_abs_bound(other.y as int, other.y as int, COORD_LIM as int, COORD_LIM as int);
            lemma_mul_abs_bound(other.z as int, other.z as int, COORD_LIM as int, COORD_LIM as int);
            assert(la as int <= 2147483648) by (nonlinear_arith)
                requires
                    0 <= la as int,
                    (la as int) * (la as int) <= 3int * (1073741824int * 1073741824int),
            ;
            assert(lb as int <= 2147483648) by (nonlinear_arith)
                requires
                    0 <= lb as int,
                    (lb as int) * (lb as int) <= 3int * (1073741824int * 1073741824int),
            ;
        }
        let denom = mul_q(la, lb);
        proof {
            lemma_mul_abs_bound(self.x as int, other.x as int, COORD_LIM as int, COORD_LIM as int);
            lemma_mul_abs_bound(self.y as int, other.y as int, COORD_LIM as int, COORD_LIM as int);
            lemma_mul_abs_bound(self.z as int, other.z as int, COORD_LIM as int, COORD_LIM as int);
            crate::fixed::lemma_tdiv_bound(
                (self.x as int) * (other.x as int) + (self.y as int) * (other.y as int) + (self.z
                    as int) * (other.z as int),
                FP as int,
            );
            lemma_div_is_ordered(
                sabs(
                    (self.x as int) * (other.x as int) + (self.y as int) * (other.y as int) + (
                    self.z as int) * (other.z as int),
                ),
                3int * (1073741824int * 1073741824int),
                FP as int,
            );
        }
        proof {
            lemma_div_pos_is_pos(
                sabs(
                    (self.x as int) * (other.x as int) + (self.y as int) * (other.y as int) + (
                    self.z as int) * (other.z as int),
                ),
                FP as int,
            );
        }
        let ratio = div_q(dot, denom);
        let clamped = if ratio > FP {
            FP
        } else if ratio < -FP {
            -FP
        } else {
            ratio
        };
        acos_q(clamped)
    }

    /// Perpendicular vectors (dot product exactly zero) of nonzero length
    /// make an angle of exactly a quarter turn: integer rounding cannot
    /// perturb a zero ratio, and the library's arccosine is exact at zero.
    pub proof fn lemma_cross_angle_perpendicular(self, other: Vec3)
        requires
            self.dot_spec(other) == 0,
            fmul(self.norm_spec(), other.norm_spec()) >= 1,
        ensures
            self.cross_angle_spec(other) == crate::trig::HALF_PI_Q,
    {
        lemma_div_of0(fmul(self.norm_spec(), other.norm_spec()));
        assert(self.cross_ratio_spec(other) == 0);
        crate::trig::lemma_acos_q_zero();
    }

    /// Component-wise sum.
    pub fn add(&self, rhs: &Self) -> (r: Self)
        requires
            self.bounded(ADD_LIM as int),
            rhs.bounded(ADD_LIM as int),
        ensures
            r.x == self.x + rhs.x,
            r.y == self.y + rhs.y,
            r.z == self.z + rhs.z,
    {
        Self { x: self.x + rhs.x, y: self.y + rhs.y, z: self.z + rhs.z }
    }

    /// Component-wise difference.
    pub fn sub(&self, rhs: &Self) -> (r: Self)
        requires
            self.bounded(ADD_LIM as int),
            rhs.bounded(ADD_LIM as int),
        ensures
            r.x == self.x - rhs.x,
            r.y == self.y - rhs.y,
            r.z == self.z - rhs.z,
    {
        Self { x: self.x - rhs.x, y: self.y - rhs.y, z: self.z - rhs.z }
    }

    /// Component-wise negation.
    pub fn neg(&self) -> (r: Self)
        requires
            self.bounded(ADD_LIM as int),
        ensures
            r.x == -self.x,
            r.y == -self.y,
            r.z == -self.z,
    {
        Self { x: -self.x, y: -self.y, z: -self.z }
    }

    /// The vector scaled by a Q16.16 factor.
    pub fn scale(&self, factor: i64) -> (r: Self)
        requires
            self.bounded(MUL_LIM as int),
            sabs(factor as int) <= MUL_LIM,
        ensures
            r.x == fmul(factor as int, self.x as int),
            r.y == fmul(factor as int, self.y as int),
            r.z == fmul(factor as int, self.z as int),
    {
        Self {
            x: mul_q(factor, self.x),
            y: mul_q(factor, self.y),
            z: mul_q(factor, self.z),
        }
    }
}

} // verus!
