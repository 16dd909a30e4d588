//! The perspective camera: position, look-at target, up hint, and frustum
//! parameters, all in Q16.16.

use vstd::prelude::*;
use crate::fixed::sabs;
use crate::fixed::tdiv;
use crate::fixed::tdiv_i128;
use crate::fixed::lemma_mul_abs_bound;
use crate::fixed::lemma_tdiv_identity;
use crate::vec3::Vec3;
use crate::vec3::COORD_LIM;
use crate::trig::PI_Q;

verus! {

/// Largest coordinate magnitude accepted by `calc_up` (2^29): the solved
/// component, a quotient of summed squares, then stays inside `i64` even
/// against a Q16.16-unit divisor.
pub const CALC_UP_LIM: i64 = 536870912;

/// A perspective camera.  `pos` is the eye, `target` the look-at point, `up`
/// the roll hint; `fovy` is the vertical field of view in Q16.16 radians,
/// and `near`/`far` bound the visible depth range.
#[derive(Clone, Copy, Debug, PartialEq, Eq, Structural)]
pub struct PerspectiveCamera {
    pub fovy: i64,
    pub aspect_ratio: i64,
    pub near: i64,
    pub far: i64,
    pub pos: Vec3,
    pub target: Vec3,
    pub up: Vec3,
}

/// The up vector derived from the view direction `n = target - pos`: two
/// components are copied from `n` and the third is solved from
/// `n . up == 0`, branching on a nonzero component of `n` to avoid a zero
/// divisor.  The solved component makes the dot product vanish only up to
/// the division's rounding; its sign (up versus down) is arbitrary.
pub open spec fn calc_up_spec(pos: Vec3, target: Vec3) -> (int, int, int) {
    let nx = target.x - pos.x;
    let ny = target.y - pos.y;
    let nz = target.z - pos.z;
    if nz != 0 {
        (nx, ny, tdiv(-(nx * nx + ny * ny), nz))
    } else if ny != 0 {
        (nx, tdiv(-(nx * nx + nz * nz), ny), nz)
    } else {
        (tdiv(-(nz * nz + ny * ny), nx), ny, nz)
    }
}

impl PerspectiveCamera {
    /// A well-formed camera: positive near plane, far plane beyond it,
    /// positive aspect ratio, a field of view strictly between zero and a
    /// half turn, and coordinates small enough for exact fixed-point
    /// arithmetic.
    pub open spec fn wf(self) -> bool {
        &&& 1 <= self.near < self.far <= COORD_LIM
        &&& 1 <= self.aspect_ratio <= 16777216
        &&& 0 < self.fovy < PI_Q
        &&& self.pos.bounded(COORD_LIM as int)
        &&& self.target.bounded(COORD_LIM as int)
        &&& self.up.bounded(COORD_LIM as int)
    }

    /// Move the eye.  The projection pipeline recomputes every frame, so no
    /// other state needs refreshing.
    pub fn set_pos(&mut self, p: Vec3)
        ensures
            final(self).pos == p,
            final(self).target == old(self).target,
            final(self).up == old(self).up,
            final(self).fovy == old(self).fovy,
            final(self).aspect_ratio == old(self).aspect_ratio,
            final(self).near == old(self).near,
            final(self).far == old(self).far,
    {
        self.pos = p;
    }

    /// Move the look-at target.
    pub fn set_target(&mut self, t: Vec3)
        ensures
            final(self).target == t,
            final(self).pos == old(self).pos,
            final(self).up == old(self).up,
            final(self).fovy == old(self).fovy,
            final(self).aspect_ratio == old(self).aspect_ratio,
            final(self).near == old(self).near,
            final(self).far == old(self).far,
    {
        self.target = t;
    }

    /// Derive an up vector orthogonal to the view direction, overwriting the
    /// stored hint.  Which way it points (up or down) is unspecified: callers
    /// that care must correct the sign themselves.
    pub fn calc_up(&mut self)
        requires
            old(self).pos.bounded(CALC_UP_LIM as int),
            old(self).target.bounded(CALC_UP_LIM as int),
            old(self).pos != old(self).target,
        ensures
            (final(self).up.x as int, final(self).up.y as int, final(self).up.z as int)
                == calc_up_spec(old(self).pos, old(self).target),
            final(self).pos == old(self).pos,
            final(self).target == old(self).target,
            final(self).fovy == old(self).fovy,
            final(self).aspect_ratio == old(self).aspect_ratio,
            final(self).near == old(self).near,
            final(self).far == old(self).far,
    {
        let nx = self.target.x - self.pos.x;
        let ny = self.target.y - self.pos.y;
        let nz = self.target.z - self.pos.z;
        proof {
            lemma_mul_abs_bound(nx as int, nx as int, 1073741824, 1073741824);
            lemma_mul_abs_bound(ny as int, ny as int, 1073741824, 1073741824);
            lemma_mul_abs_bound(nz as int, nz as int, 1073741824, 1073741824);
        }
        if nz != 0 {
            let num: i128 = -((nx as i128) * (nx as i128) + (ny as i128) * (ny as i128));
            let q = tdiv_i128(num, nz as i128);
            self.up = Vec3 { x: nx, y: ny, z: q as i64 };
        } else if ny != 0 {
            let num: i128 = -((nx as i128) * (nx as i128) + (nz as i128) * (nz as i128));
            let q = tdiv_i128(num, ny as i128);
            self.up = Vec3 { x: nx, y: q as i64, z: nz };
        } else {
            let num: i128 = -((nz as i128) * (nz as i128) + (ny as i128) * (ny as i128));
            let q = tdiv_i128(num, nx as i128);
            self.up = Vec3 { x: q as i64, y: ny, z: nz };
        }
    }
}

/// The up vector derived by `calc_up` is orthogonal to the view direction up
/// to the one truncating division it performs: the un-scaled dot product of
/// `n = target - pos` with the derived up vector is smaller in magnitude
/// than the component of `n` that was divided by.
pub proof fn lemma_calc_up_orthogonal(pos: Vec3, target: Vec3)
    requires
        pos != target,
    ensures
        ({
            let nx = target.x - pos.x;
            let ny = target.y - pos.y;
            let nz = target.z - pos.z;
            let u = calc_up_spec(pos, target);
            sabs(nx * u.0 + ny * u.1 + nz * u.2) < if nz != 0 {
                sabs(nz as int)
            } else if ny != 0 {
                sabs(ny as int)
            } else {
                sabs(nx as int)
            }
        }),
{
    let nx = target.x - pos.x;
    let ny = target.y - pos.y;
    let nz = target.z - pos.z;
    if nz != 0 {
        let a = -(nx * nx + ny * ny);
        let q = tdiv(a, nz as int);
        lemma_tdiv_identity(a, nz as int);
        assert(nx * nx + ny * ny + nz * q == -(a - nz * q));
    } else if ny != 0 {
        let a = -(nx * nx + nz * nz);
        let q = tdiv(a, ny as int);
        lemma_tdiv_identity(a, ny as int);
        assert(nx * nx + ny * q + nz * nz == -(a - ny * q));
    } else {
        let a = -(nz * nz + ny * ny);
        let q = tdiv(a, nx as int);
        lemma_tdiv_identity(a, nx as int);
        assert(nx * q + ny * ny + nz * nz == -(a - nx * q));
    }
}

/// A placeholder for a parallel-projection camera; the perspective pipeline
/// is the one this library defines.
pub struct OrthographicCamera {}

} // verus!
