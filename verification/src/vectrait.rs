//! Behaviour shared by the vector types: scaling, length with the zero
//! policy, stretching to a desired length, dot product and angle, specified
//! once over a sequence-of-coordinates model.

use vstd::prelude::*;
use crate::fixed::FP;
use crate::fixed::MUL_LIM;
use crate::fixed::sabs;
use crate::fixed::tdiv;
use crate::fixed::fmul;
use crate::fixed::fdiv;
use crate::fixed::isqrt;
use crate::fixed::div_q;
use crate::fixed::lemma_tdiv_bound;
use crate::vec3::Vec3;
use crate::vec3::VEC_LIM;
use crate::vec3::COORD_LIM;
use crate::vec2::Vec2;
use crate::trig::acos_q_s;

verus! {

/// Every coordinate has magnitude at most `b`.
pub open spec fn seq_bounded(s: Seq<int>, b: int) -> bool {
    forall|i: int| 0 <= i < s.len() ==> -b <= #[trigger] s[i] <= b
}

/// The sum of the squares of a sequence of coordinates.
pub open spec fn sum_sq(s: Seq<int>) -> int
    decreases s.len(),
{
    if s.len() == 0 {
        0
    } else {
        s[0] * s[0] + sum_sq(s.drop_first())
    }
}

/// The raw (unscaled) sum of coordinate products of two sequences.
pub open spec fn sum_prod(a: Seq<int>, b: Seq<int>) -> int
    decreases a.len(),
{
    if a.len() == 0 || b.len() == 0 {
        0
    } else {
        a[0] * b[0] + sum_prod(a.drop_first(), b.drop_first())
    }
}

/// The sum of squares of a three-coordinate sequence, written out.
pub proof fn lemma_sum_sq3(x: int, y: int, z: int)
    ensures
        sum_sq(seq![x, y, z]) == x * x + y * y + z * z,
{
    reveal_with_fuel(sum_sq, 4);
    assert(seq![x, y, z].drop_first() =~= seq![y, z]);
    assert(seq![y, z].drop_first() =~= seq![z]);
    assert(seq![z].drop_first() =~= Seq::<int>::empty());
}

/// The sum of squares of a two-coordinate sequence, written out.
pub proof fn lemma_sum_sq2(x: int, y: int)
    ensures
        sum_sq(seq![x, y]) == x * x + y * y,
{
    reveal_with_fuel(sum_sq, 3);
    assert(seq![x, y].drop_first() =~= seq![y]);
    assert(seq![y].drop_first() =~= Seq::<int>::empty());
}

/// The coordinate-product sum of three-coordinate sequences, written out.
pub proof fn lemma_sum_prod3(x: int, y: int, z: int, a: int, b: int, c: int)
    ensures
        sum_prod(seq![x, y, z], seq![a, b, c]) == x * a + y * b + z * c,
{
    reveal_with_fuel(sum_prod, 4);
    assert(seq![x, y, z].drop_first() =~= seq![y, z]);
    assert(seq![a, b, c].drop_first() =~= seq![b, c]);
    assert(seq![y, z].drop_first() =~= seq![z]);
    assert(seq![b, c].drop_first() =~= seq![c]);
    assert(seq![z].drop_first() =~= Seq::<int>::empty());
    assert(seq![c].drop_first() =~= Seq::<int>::empty());
}

/// The coordinate-product sum of two-coordinate sequences, written out.
pub proof fn lemma_sum_prod2(x: int, y: int, a: int, b: int)
    ensures
        sum_prod(seq![x, y], seq![a, b]) == x * a + y * b,
{
    reveal_with_fuel(sum_prod, 3);
    assert(seq![x, y].drop_first() =~= seq![y]);
    assert(seq![a, b].drop_first() =~= seq![b]);
    assert(seq![y].drop_first() =~= Seq::<int>::empty());
    assert(seq![b].drop_first() =~= Seq::<int>::empty());
}

/// Shared behaviour of the vector types.
pub trait Vector: Sized {
    /// The coordinates, as mathematical integers.
    spec fn model(&self) -> Seq<int>;

    /// Scale every coordinate by a Q16.16 factor.
    fn multiply(&mut self, factor: i64)
        requires
            seq_bounded(old(self).model(), MUL_LIM as int),
            sabs(factor as int) <= MUL_LIM,
        ensures
            final(self).model() == old(self).model().map(
                (|i: int, c: int| fmul(factor as int, c)),
            ),
    ;

    /// The Euclidean length at Q16.16 scale; `None` for the zero vector,
    /// which has no direction.
    fn len(&self) -> (r: Option<i64>)
        requires
            seq_bounded(self.model(), VEC_LIM as int),
        ensures
            match r {
                None => sum_sq(self.model()) == 0,
                Some(l) => sum_sq(self.model()) >= 1 && l == isqrt(sum_sq(self.model())) && l >= 1,
            },
    ;

    /// The dot product at Q16.16 scale.
    fn dot_product(&self, other: &Self) -> (r: i64)
        requires
            seq_bounded(self.model(), VEC_LIM as int),
            seq_bounded(other.model(), VEC_LIM as int),
        ensures
            r == tdiv(sum_prod(self.model(), other.model()), FP as int),
    ;

    /// The angle against another vector of nonzero length, in Q16.16
    /// radians.
    fn cross_angle(&self, other: &Self) -> (r: i64)
        requires
            seq_bounded(self.model(), COORD_LIM as int),
            seq_bounded(other.model(), COORD_LIM as int),
            fmul(isqrt(sum_sq(self.model())), isqrt(sum_sq(other.model()))) >= 1,
        ensures
            ({
                let raw = fdiv(
                    tdiv(sum_prod(self.model(), other.model()), FP as int),
                    fmul(isqrt(sum_sq(self.model())), isqrt(sum_sq(other.model()))),
                );
                let cl = if raw > FP {
                    FP as int
                } else if raw < -FP {
                    -FP as int
                } else {
                    raw
                };
                r == acos_q_s(cl)
            }),
    ;

    /// Rescale the vector so that its length becomes `desired_len` (up to
    /// the rounding of one division): scale by `desired_len / len`.
    fn stretch(&mut self, desired_len: i64)
        requires
            seq_bounded(old(self).model(), VEC_LIM as int),
            sum_sq(old(self).model()) >= 1,
            sabs(desired_len as int) <= 8388608,
        ensures
            final(self).model() == old(self).model().map(
                (|i: int, c: int| fmul(
                    fdiv(desired_len as int, isqrt(sum_sq(old(self).model()))),
                    c,
                )),
            ),
    {
        let l = match self.len() {
            Some(l) => l,
            None => 1,  // unreachable: the vector has a nonzero square sum
        };
        let r = div_q(desired_len, l);
        proof {
            lemma_tdiv_bound((desired_len as int) * FP, l as int);
        }
        self.multiply(r);
        proof {
            let m0 = old(self).model();
            assert(self.model() =~= m0.map(
                (|i: int, c: int| fmul(fdiv(desired_len as int, isqrt(sum_sq(m0))), c)),
            ));
        }
    }

    /// Rescale the vector to unit length.
    fn normalize(&mut self)
        requires
            seq_bounded(old(self).model(), VEC_LIM as int),
            sum_sq(old(self).model()) >= 1,
        ensures
            final(self).model() == old(self).model().map(
                (|i: int, c: int| fmul(
                    fdiv(FP as int, isqrt(sum_sq(old(self).model()))),
                    c,
                )),
            ),
    {
        self.stretch(FP);
        proof {
            let m0 = old(self).model();
            assert(self.model() =~= m0.map(
                (|i: int, c: int| fmul(fdiv(FP as int, isqrt(sum_sq(m0))), c)),
            ));
        }
    }
}

impl Vector for Vec3 {
    open spec fn model(&self) -> Seq<int> {
        seq![self.x as int, self.y as int, self.z as int]
    }

    fn multiply(&mut self, factor: i64) {
        proof {
            assert(old(self).model()[0] == old(self).x as int);
            assert(old(self).model()[1] == old(self).y as int);
            assert(old(self).model()[2] == old(self).z as int);
        }
        let v = self.scale(factor);
        self.x = v.x;
        self.y = v.y;
        self.z = v.z;
        proof {
            let m0 = old(self).model();
            assert(self.model() =~= m0.map((|i: int, c: int| fmul(factor as int, c))));
        }
    }

    fn len(&self) -> (r: Option<i64>) {
        proof {
            assert(self.model()[0] == self.x as int);
            assert(self.model()[1] == self.y as int);
            assert(self.model()[2] == self.z as int);
            lemma_sum_sq3(self.x as int, self.y as int, self.z as int);
            if self.x != 0 || self.y != 0 || self.z != 0 {
                assert(sum_sq(self.model()) >= 1) by (nonlinear_arith)
                    requires
                        sum_sq(self.model()) == (self.x as int) * (self.x as int) + (self.y
                            as int) * (self.y as int) + (self.z as int) * (self.z as int),
                        self.x != 0 || self.y != 0 || self.z != 0,
                ;
            }
        }
        Vec3::len(self)
    }

    fn dot_product(&self, other: &Self) -> (r: i64) {
        proof {
            assert(self.model()[0] == self.x as int);
            assert(self.model()[1] == self.y as int);
            assert(self.model()[2] == self.z as int);
            assert(other.model()[0] == other.x as int);
            assert(other.model()[1] == other.y as int);
            assert(other.model()[2] == other.z as int);
            lemma_sum_prod3(
                self.x as int,
                self.y as int,
                self.z as int,
                other.x as int,
                other.y as int,
                other.z as int,
            );
        }
        Vec3::dot_product(self, other)
    }

    fn cross_angle(&self, other: &Self) -> (r: i64) {
        proof {
            assert(self.model()[0] == self.x as int);
            assert(self.model()[1] == self.y as int);
            assert(self.model()[2] == self.z as int);
            assert(other.model()[0] == other.x as int);
            assert(other.model()[1] == other.y as int);
            assert(other.model()[2] == other.z as int);
            lemma_sum_sq3(self.x as int, self.y as int, self.z as int);
            lemma_sum_sq3(other.x as int, other.y as int, other.z as int);
            lemma_sum_prod3(
                self.x as int,
                self.y as int,
                self.z as int,
                other.x as int,
                other.y as int,
                other.z as int,
            );
        }
        Vec3::cross_angle(self, other)
    }
}

impl Vector for Vec2 {
    open spec fn model(&self) -> Seq<int> {
        seq![self.x as int, self.y as int]
    }

    fn multiply(&mut self, factor: i64) {
        proof {
            assert(old(self).model()[0] == old(self).x as int);
            assert(old(self).model()[1] == old(self).y as int);
        }
        let v = self.scale(factor);
        self.x = v.x;
        self.y = v.y;
        proof {
            let m0 = old(self).model();
            crate::fixed::lemma_fmul_comm(old(self).x as int, factor as int);
            crate::fixed::lemma_fmul_comm(old(self).y as int, factor as int);
            assert(self.model() =~= m0.map((|i: int, c: int| fmul(factor as int, c))));
        }
    }

    fn len(&self) -> (r: Option<i64>) {
        proof {
            assert(self.model()[0] == self.x as int);
            assert(self.model()[1] == self.y as int);
            lemma_sum_sq2(self.x as int, self.y as int);
            if self.x != 0 || self.y != 0 {
                assert(sum_sq(self.model()) >= 1) by (nonlinear_arith)
                    requires
                        sum_sq(self.model()) == (self.x as int) * (self.x as int) + (self.y
                            as int) * (self.y as int),
                        self.x != 0 || self.y != 0,
                ;
            }
        }
        Vec2::len(self)
    }

    fn dot_product(&self, other: &Self) -> (r: i64) {
        proof {
            assert(self.model()[0] == self.x as int);
            assert(self.model()[1] == self.y as int);
            assert(other.model()[0] == other.x as int);
            assert(other.model()[1] == other.y as int);
            lemma_sum_prod2(self.x as int, self.y as int, other.x as int, other.y as int);
        }
        Vec2::dot_product(self, other)
    }

    fn cross_angle(&self, other: &Self) -> (r: i64) {
        proof {
            assert(self.model()[0] == self.x as int);
            assert(self.model()[1] == self.y as int);
            assert(other.model()[0] == other.x as int);
            assert(other.model()[1] == other.y as int);
            lemma_sum_sq2(self.x as int, self.y as int);
            lemma_sum_sq2(other.x as int, other.y as int);
            lemma_sum_prod2(self.x as int, self.y as int, other.x as int, other.y as int);
        }
        Vec2::cross_angle(self, other)
    }
}

} // verus!
