//! 2D vectors over Q16.16 scalars: the plane-geometry counterpart of the 3D
//! vector type, with the same length policy and angle formula.

use vstd::prelude::*;
use crate::fixed::FP;
use crate::fixed::MUL_LIM;
use crate::fixed::sabs;
use crate::fixed::tdiv;
use crate::fixed::fmul;
use crate::fixed::fdiv;
use crate::fixed::isqrt;
use crate::fixed::mul_q;
use crate::fixed::div_q;
use crate::fixed::tdiv_i128;
use crate::fixed::norm3_q;
use crate::fixed::lemma_mul_abs_bound;
use crate::fixed::lemma_tdiv_bound;
use crate::vec3::VEC_LIM;
use crate::vec3::COORD_LIM;
use crate::trig::acos_q;
use crate::trig::acos_q_s;
use crate::trig::PI_Q;
use vstd::arithmetic::div_mod::lemma_div_is_ordered;
use vstd::arithmetic::div_mod::lemma_div_pos_is_pos;

verus! {

/// A 2D vector of Q16.16 coordinates.
#[derive(Clone, Copy, Debug, PartialEq, Eq, Structural)]
pub struct Vec2 {
    pub x: i64,
    pub y: i64,
}

impl Vec2 {
    /// Both coordinates have magnitude at most `b`.
    pub open spec fn bounded(self, b: int) -> bool {
        sabs(self.x as int) <= b && sabs(self.y as int) <= b
    }

    /// The dot product at Q16.16 scale.
    pub open spec fn dot_spec(self, other: Vec2) -> int {
        tdiv((self.x as int) * (other.x as int) + (self.y as int) * (other.y as int), FP as int)
    }

    /// The Euclidean length at Q16.16 scale, rounded down to an integer.
    pub open spec fn norm_spec(self) -> int {
        isqrt((self.x as int) * (self.x as int) + (self.y as int) * (self.y as int))
    }

    /// The cosine of the angle between two vectors, saturated into
    /// `[-FP, FP]`.
    pub open spec fn cross_ratio_spec(self, other: Vec2) -> int {
        let raw = fdiv(self.dot_spec(other), fmul(self.norm_spec(), other.norm_spec()));
        if raw > FP {
            FP as int
        } else if raw < -FP {
            -FP as int
        } else {
            raw
        }
    }

    /// The angle between two vectors, in Q16.16 radians.
    pub open spec fn cross_angle_spec(self, other: Vec2) -> int {
        acos_q_s(self.cross_ratio_spec(other))
    }

    pub fn dot_product(&self, other: &Self) -> (r: i64)
        requires
            self.bounded(VEC_LIM as int),
            other.bounded(VEC_LIM as int),
        ensures
            r == self.dot_spec(*other),
    {
        proof {
            lemma_mul_abs_bound(self.x as int, other.x as int, VEC_LIM as int, VEC_LIM as int);
            lemma_mul_abs_bound(self.y as int, other.y as int, VEC_LIM as int, VEC_LIM as int);
        }
        let s: i128 = (self.x as i128) * (other.x as i128) + (self.y as i128) * (other.y as i128);
        let q = tdiv_i128(s, FP as i128);
        proof {
            lemma_tdiv_bound(s as int, FP as int);
            assert(sabs(q as int) * (FP as int) <= 2 * (274877906944 * 274877906944));
        }
        q as i64
    }

    /// The Euclidean length, with the same zero policy as the 3D vector: a
    /// zero vector reports "no length" rather than the number `0`.
    pub fn len(&self) -> (r: Option<i64>)
        requires
            self.bounded(VEC_LIM as int),
        ensures
            match r {
                None => self.x == 0 && self.y == 0,
                Some(l) => (self.x != 0 || self.y != 0) && l == self.norm_spec() && 1 <= l
                    <= 2199023255552,
            },
    {
        let s = norm3_q(self.x, self.y, 0);
        if s == 0 {
            proof {
                let xi = self.x as int;
                let yi = self.y as int;
                assert(xi * xi >= 0 && yi * yi >= 0) by (nonlinear_arith);
                assert(xi == 0 && yi == 0) by (nonlinear_arith)
                    requires
                        xi * xi >= 0,
                        yi * yi >= 0,
                        xi * xi + yi * yi < 1,
                ;
            }
            None
        } else {
            proof {
                if self.x == 0 && self.y == 0 {
                    assert((s as int) * (s as int) <= 0);
                    assert(false) by (nonlinear_arith)
                        requires
                            s as int >= 1,
                            (s as int) * (s as int) <= 0,
                    ;
                }
            }
            Some(s)
        }
    }

    /// The angle between two vectors of nonzero length.
    pub fn cross_angle(&self, other: &Self) -> (r: i64)
        requires
            self.bounded(COORD_LIM as int),
            other.bounded(COORD_LIM as int),
            fmul(self.norm_spec(), other.norm_spec()) >= 1,
        ensures
            r == self.cross_angle_spec(*other),
            0 <= r <= PI_Q,
    {
        let dot = self.dot_product(other);
        let la = norm3_q(self.x, self.y, 0);
        let lb = norm3_q(other.x, other.y, 0);
        proof {
            lemma_mul_abs_bound(self.x as int, other.x as int, COORD_LIM as int, COORD_LIM as int);
            lemma_mul_abs_bound(self.y as int, other.y as int, COORD_LIM as int, COORD_LIM as int);
            lemma_tdiv_bound(
                (self.x as int) * (other.x as int) + (self.y as int) * (other.y as int),
                FP as int,
            );
            lemma_div_pos_is_pos(
                sabs((self.x as int) * (other.x as int) + (self.y as int) * (other.y as int)),
                FP as int,
            );
            lemma_div_is_ordered(
                sabs((self.x as int) * (other.x as int) + (self.y as int) * (other.y as int)),
                2int * (1073741824int * 1073741824int),
                FP as int,
            );
            lemma_mul_abs_bound(self.x as int, self.x as int, COORD_LIM as int, COORD_LIM as int);
            lemma_mul_abs_bound(self.y as int, self.y as int, COORD_LIM as int, COORD_LIM as int);
            lemma_mul_abs_bound(other.x as int, other.x as int, COORD_LIM as int, COORD_LIM as int);
            lemma_mul_abs_bound(other.y as int, other.y as int, COORD_LIM as int, COORD_LIM as int);
            assert(la as int <= 2147483648) by (nonlinear_arith)
                requires
                    0 <= la as int,
                    (la as int) * (la as int) <= 2int * (1073741824int * 1073741824int),
            ;
            assert(lb as int <= 2147483648) by (nonlinear_arith)
                requires
                    0 <= lb as int,
                    (lb as int) * (lb as int) <= 2int * (1073741824int * 1073741824int),
            ;
        }
        let denom = mul_q(la, lb);
        let ratio = div_q(dot, denom);
        let clamped = if ratio > FP {
            FP
        } else if ratio < -FP {
            -FP
        } else {
            ratio
        };
        acos_q(clamped)
    }

    /// The vector scaled by a Q16.16 factor.
    pub fn scale(&self, factor: i64) -> (r: Self)
        requires
            self.bounded(MUL_LIM as int),
            sabs(factor as int) <= MUL_LIM,
        ensures
            r.x == fmul(self.x as int, factor as int),
            r.y == fmul(self.y as int, factor as int),
    {
        Self { x: mul_q(self.x, factor), y: mul_q(self.y, factor) }
    }
}

} // verus!
