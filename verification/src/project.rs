//! The camera projection pipeline: world-space point to pixel coordinates.
//!
//! The camera-aligned frame is re-derived each call through three sequential
//! elementary rotations computed from the camera's own basis vectors — first
//! about Y to eliminate the eye's X coordinate, then about X to put the eye
//! on the Z axis, then about Z to align the up hint with +Y — rather than
//! through a combined look-at/projection matrix.
//!
//! Each rotation angle is an arctangent (or an angle against +Y) of
//! coordinates of the evolving eye frame, and is immediately consumed by its
//! own rotation matrix, so the matrix entries are computed algebraically:
//! `cos(atan(x/z)) = |z|/r` and `sin(atan(x/z)) = x*sign(z)/r` with
//! `r = sqrt(x^2 + z^2)`.  The defining property of each angle is that the
//! rotation carries the eye frame exactly onto the next axis plane, so the
//! pipeline carries that exact image (`(0, y, sign(z)*r)`) rather than the
//! rounded matrix product — the matrices themselves are applied to the
//! projected point and to the up helper.

use vstd::prelude::*;
use crate::fixed::FP;
use crate::fixed::sabs;
use crate::fixed::tdiv;
use crate::fixed::fmul;
use crate::fixed::fdiv;
use crate::fixed::rdiv;
use crate::fixed::clamp_i32;
use crate::fixed::isqrt;
use crate::fixed::is_isqrt;
use crate::fixed::mul_q;
use crate::fixed::div_q;
use crate::fixed::norm3_q;
use crate::fixed::isqrt_u128;
use crate::fixed::lemma_mul_abs_bound;
use crate::fixed::lemma_tdiv_bound;
use crate::fixed::lemma_tdiv_identity;
use crate::fixed::lemma_fmul_zero;
use crate::fixed::lemma_fmul_fp;
use crate::fixed::lemma_isqrt_exists;
use vstd::arithmetic::div_mod::lemma_div_of0;
use vstd::arithmetic::div_mod::lemma_div_multiples_vanish_quotient;
use crate::vec3::Vec3;
use crate::vec3::COORD_LIM;
use crate::mat3x3::Matrix3x3;
use crate::mat3x3::row_apply;
use crate::camera::PerspectiveCamera;
use crate::trig::sin_q_s;
use crate::trig::cos_q_s;
use crate::trig::sin_q;
use crate::trig::cos_q;
use vstd::arithmetic::div_mod::lemma_div_is_ordered;
use vstd::arithmetic::div_mod::lemma_div_pos_is_pos;
use vstd::arithmetic::div_mod::lemma_div_multiples_vanish;

verus! {

/// Largest Q16.16 frustum extent accepted before the projection reports a
/// degenerate frustum (2^38).
pub const DIM_LIM: i64 = 274877906944;

/// A pixel position on screen, the pipeline's sole output.
#[derive(Clone, Copy, Debug, PartialEq, Eq, Structural)]
pub struct ScreenPoint {
    pub x: i32,
    pub y: i32,
}

/// Why a projection was refused.
#[derive(Clone, Copy, Debug, PartialEq, Eq, Structural)]
pub enum ProjectError {
    /// The camera cannot define a view frame: the eye coincides with the
    /// target, or the up hint is parallel to the view direction.
    DegenerateCamera,
    /// The field of view, near plane or aspect ratio give the viewing volume
    /// no usable width or height.
    DegenerateFrustum,
}

/// Cosine and sine of the Y-rotation that eliminates the X coordinate of an
/// eye frame at `(x, _, z)`: the rotation by `-atan(x/z)`, or by zero when
/// `z == 0`.
pub open spec fn yaw_coeffs(x: int, z: int) -> (int, int) {
    if z == 0 {
        (FP as int, 0)
    } else {
        let r = isqrt(x * x + z * z);
        (tdiv(sabs(z) * FP, r), if z > 0 {
            tdiv((-x) * FP, r)
        } else {
            tdiv(x * FP, r)
        })
    }
}

/// Cosine and sine of the X-rotation that eliminates the Y coordinate of an
/// eye frame at `(_, y, z)`: the rotation by `atan(y/z)`, or by zero when
/// `z == 0`.
pub open spec fn pitch_coeffs(y: int, z: int) -> (int, int) {
    if z == 0 {
        (FP as int, 0)
    } else {
        let r = isqrt(y * y + z * z);
        (tdiv(sabs(z) * FP, r), if z > 0 {
            tdiv(y * FP, r)
        } else {
            tdiv((-y) * FP, r)
        })
    }
}

/// Cosine and sine of the Z-rotation that aligns the up helper `(ux, uy, uz)`
/// with +Y: the rotation by the angle between the helper and +Y, signed by
/// the helper's X coordinate.  Defined for a helper of nonzero length.
pub open spec fn roll_coeffs(ux: int, uy: int, uz: int) -> (int, int) {
    let r = isqrt(ux * ux + uy * uy + uz * uz);
    let c = tdiv(uy * FP, r);
    let sm = isqrt(FP * FP - c * c);
    (c, if ux >= 0 {
        sm
    } else {
        -sm
    })
}

/// The Y-rotation with cosine `c` and sine `s` applied to a column vector.
pub open spec fn yaw_apply(c: int, s: int, v: (int, int, int)) -> (int, int, int) {
    (
        row_apply(c, 0, s, v.0, v.1, v.2),
        row_apply(0, FP as int, 0, v.0, v.1, v.2),
        row_apply(-s, 0, c, v.0, v.1, v.2),
    )
}

/// The X-rotation with cosine `c` and sine `s` applied to a column vector.
pub open spec fn pitch_apply(c: int, s: int, v: (int, int, int)) -> (int, int, int) {
    (
        row_apply(FP as int, 0, 0, v.0, v.1, v.2),
        row_apply(0, c, -s, v.0, v.1, v.2),
        row_apply(0, s, c, v.0, v.1, v.2),
    )
}

/// The Z-rotation with cosine `c` and sine `s` applied to a column vector.
pub open spec fn roll_apply(c: int, s: int, v: (int, int, int)) -> (int, int, int) {
    (
        row_apply(c, -s, 0, v.0, v.1, v.2),
        row_apply(s, c, 0, v.0, v.1, v.2),
        row_apply(0, 0, FP as int, v.0, v.1, v.2),
    )
}

/// The frustum's width and height at the near plane:
/// `height = 2 * near * tan(fovy / 2)` and `width = aspect * height`, or a
/// `DegenerateFrustum` error when the tangent's divisor or either extent
/// vanishes (or overflows all bounds).
pub open spec fn frustum_spec(cam: PerspectiveCamera) -> Result<(int, int), ProjectError> {
    let tc = cos_q_s(cam.fovy as int / 2);
    let ts = sin_q_s(cam.fovy as int / 2);
    if tc < 1 {
        Err(ProjectError::DegenerateFrustum)
    } else {
        let th = fdiv(ts, tc);
        let height = fmul(2 * cam.near, th);
        let width = fmul(cam.aspect_ratio as int, height);
        if height < 1 || height > DIM_LIM || width < 1 || width > DIM_LIM {
            Err(ProjectError::DegenerateFrustum)
        } else {
            Ok((width, height))
        }
    }
}

/// The Y-rotation step: rotate the point, the up helper and the eye frame so
/// that the eye frame's X coordinate vanishes.  The rotation angle is chosen
/// exactly for that purpose, so the eye frame is carried onto its exact
/// image `(0, y, sign(z) * r)`.
pub open spec fn yaw_stage(p0: (int, int, int), u0: (int, int, int), e0: (int, int, int)) -> (
    (int, int, int),
    (int, int, int),
    (int, int, int),
) {
    let ys = yaw_coeffs(e0.0, e0.2);
    let e1 = if e0.2 == 0 {
        e0
    } else {
        (0, e0.1, if e0.2 > 0 {
            isqrt(e0.0 * e0.0 + e0.2 * e0.2)
        } else {
            -isqrt(e0.0 * e0.0 + e0.2 * e0.2)
        })
    };
    (yaw_apply(ys.0, ys.1, p0), yaw_apply(ys.0, ys.1, u0), e1)
}

/// The X-rotation step: rotate everything so that the eye frame lands on the
/// Z axis, at `(x, 0, sign(z) * r)` exactly.
pub open spec fn pitch_stage(p1: (int, int, int), u1: (int, int, int), e1: (int, int, int)) -> (
    (int, int, int),
    (int, int, int),
    (int, int, int),
) {
    let xs = pitch_coeffs(e1.1, e1.2);
    let e2 = if e1.2 == 0 {
        e1
    } else {
        (e1.0, 0, if e1.2 > 0 {
            isqrt(e1.1 * e1.1 + e1.2 * e1.2)
        } else {
            -isqrt(e1.1 * e1.1 + e1.2 * e1.2)
        })
    };
    (pitch_apply(xs.0, xs.1, p1), pitch_apply(xs.0, xs.1, u1), e2)
}

/// The Z-rotation step: align the rotated up helper with +Y, apply the same
/// rotation to the point and the eye frame, and recenter on the eye.  Fails
/// with `DegenerateCamera` when the rotated up helper lies on the view axis
/// (up parallel to the view direction, or a zero up hint): no roll angle is
/// defined there.
pub open spec fn roll_stage(p2: (int, int, int), u2: (int, int, int), e2: (int, int, int)) -> Result<
    (int, int, int),
    ProjectError,
> {
    let ua = (u2.0 - e2.0, u2.1 - e2.1, u2.2 - e2.2);
    if ua.0 == 0 && ua.1 == 0 {
        Err(ProjectError::DegenerateCamera)
    } else {
        let zs = roll_coeffs(ua.0, ua.1, ua.2);
        let p3 = roll_apply(zs.0, zs.1, p2);
        let e3 = roll_apply(zs.0, zs.1, e2);
        Ok((p3.0 - e3.0, p3.1 - e3.1, p3.2 - e3.2))
    }
}

/// Steps one to five of the pipeline: recenter on the target, eliminate the
/// eye's X by a Y-rotation, put the eye on the Z axis by an X-rotation,
/// align the up helper with +Y by a Z-rotation, and recenter on the eye.
/// Returns the camera-frame position of the point.
pub open spec fn view_spec(cam: PerspectiveCamera, p: Vec3) -> Result<(int, int, int), ProjectError,
> {
    let p0 = (p.x - cam.target.x, p.y - cam.target.y, p.z - cam.target.z);
    let e0 = (cam.pos.x - cam.target.x, cam.pos.y - cam.target.y, cam.pos.z - cam.target.z);
    let u0 = (e0.0 + cam.up.x, e0.1 + cam.up.y, e0.2 + cam.up.z);
    let s1 = yaw_stage(p0, u0, e0);
    let s2 = pitch_stage(s1.0, s1.1, s1.2);
    roll_stage(s2.0, s2.1, s2.2)
}

/// Steps seven to nine: normalize the camera-frame point against the
/// frustum extents, remap `[-1,1]` to `[0,1]` with the vertical flip, and
/// scale to (saturated, half-away-rounded) pixels.
pub open spec fn raster_spec(pf: (int, int, int), width: int, height: int, w: int, h: int)
    -> ScreenPoint {
    let nx = fdiv(pf.0, width);
    let ny = fdiv(pf.1, height);
    let u = tdiv(nx + FP, 2);
    let v = tdiv(FP - ny, 2);
    ScreenPoint {
        x: clamp_i32(rdiv(u * w, FP as int)) as i32,
        y: clamp_i32(rdiv(v * h, FP as int)) as i32,
    }
}

/// The exact value of the projection pipeline: what `get_projected` returns,
/// stated over the mathematical integers.  The screen point's depth
/// coordinate plays no part in the returned pixel, so it is not computed.
pub open spec fn project_spec(cam: PerspectiveCamera, p: Vec3, w: int, h: int) -> Result<
    ScreenPoint,
    ProjectError,
> {
    if cam.pos == cam.target {
        Err(ProjectError::DegenerateCamera)
    } else {
        match frustum_spec(cam) {
            Err(e) => Err(e),
            Ok(dims) => match view_spec(cam, p) {
                Err(e) => Err(e),
                Ok(pf) => Ok(raster_spec(pf, dims.0, dims.1, w, h)),
            },
        }
    }
}

/// A ratio of a component against a norm at least as large stays within
/// `FP` after scaling.
proof fn lemma_coeff_le_fp(n: int, r: int)
    requires
        r >= 1,
        sabs(n) <= r,
    ensures
        sabs(fdiv(n, r)) <= FP,
{
    lemma_div_pos_is_pos(sabs(n * FP), r);
    lemma_div_is_ordered(sabs(n) * FP, r * FP, r);
    lemma_div_multiples_vanish(FP as int, r);
}

/// A component is no longer than the integer square root of a sum of squares
/// it contributes to.
proof fn lemma_component_le_norm(x: int, n: int, r: int)
    requires
        is_isqrt(n, r),
        x * x <= n,
    ensures
        sabs(x) <= r,
{
    assert(sabs(x) <= r) by (nonlinear_arith)
        requires
            0 <= r,
            x * x <= n,
            n < (r + 1) * (r + 1),
    ;
}

/// Round a normalized `[0, FP]` coordinate up to a pixel position, saturated
/// into the `i32` range.
fn px_from_unit(u: i64, dim: u32) -> (r: i32)
    requires
        sabs(u as int) <= 9007199254740992,  // 2^53
    ensures
        r as int == clamp_i32(rdiv((u as int) * (dim as int), FP as int)),
{
    proof {
        lemma_mul_abs_bound(u as int, dim as int, 9007199254740992, 4294967296);
    }
    let p: i128 = (u as i128) * (dim as i128);
    let pm: i128 = if p < 0 {
        -p
    } else {
        p
    };
    let qm: i128 = (2 * pm + FP as i128) / (2 * (FP as i128));
    proof {
        lemma_div_pos_is_pos(2 * (pm as int) + FP, 2 * (FP as int));
        vstd::arithmetic::div_mod::lemma_div_nonincreasing(
            2 * (pm as int) + FP,
            2 * (FP as int),
        );
    }
    let q: i128 = if p < 0 {
        -qm
    } else {
        qm
    };
    if q > i32::MAX as i128 {
        i32::MAX
    } else if q < i32::MIN as i128 {
        i32::MIN
    } else {
        q as i32
    }
}

/// Compute the frustum's width and height at the near plane.
fn frustum_dims(cam: &PerspectiveCamera) -> (r: Result<(i64, i64), ProjectError>)
    requires
        cam.wf(),
    ensures
        match r {
            Ok(dims) => frustum_spec(*cam) == Ok::<(int, int), ProjectError>(
                (dims.0 as int, dims.1 as int),
            ) && 1 <= dims.0 <= DIM_LIM && 1 <= dims.1 <= DIM_LIM,
            Err(e) => frustum_spec(*cam) == Err::<(int, int), ProjectError>(e),
        },
{
    let t = cam.fovy / 2;
    let tc = cos_q(t);
    let ts = sin_q(t);
    if tc < 1 {
        return Err(ProjectError::DegenerateFrustum);
    }
    let th = div_q(ts, tc);
    proof {
        lemma_tdiv_bound((ts as int) * FP, tc as int);
    }
    let height = mul_q(2 * cam.near, th);
    if height < 1 || height > DIM_LIM {
        return Err(ProjectError::DegenerateFrustum);
    }
    let width = mul_q(cam.aspect_ratio, height);
    if width < 1 || width > DIM_LIM {
        return Err(ProjectError::DegenerateFrustum);
    }
    Ok((width, height))
}

/// Rotate the point, the up helper and the eye frame about Y so that the eye
/// frame's X coordinate vanishes.
#[verifier::rlimit(100)]
fn yaw_step(p0: &Vec3, u0: &Vec3, e0: &Vec3) -> (r: (Vec3, Vec3, Vec3))
    requires
        p0.bounded(2147483648),
        u0.bounded(3221225472),
        e0.bounded(2147483648),
    ensures
        ({
            let s = yaw_stage(
                (p0.x as int, p0.y as int, p0.z as int),
                (u0.x as int, u0.y as int, u0.z as int),
                (e0.x as int, e0.y as int, e0.z as int),
            );
            (r.0.x as int, r.0.y as int, r.0.z as int) == s.0 && (
            r.1.x as int,
            r.1.y as int,
            r.1.z as int,
            ) == s.1 && (r.2.x as int, r.2.y as int, r.2.z as int) == s.2
        }),
        r.0.bounded(6442450944),
        r.1.bounded(9663676416),
        r.2.bounded(4294967296),
{
    let (cy, sy, e1) = if e0.z == 0 {
        (FP, 0i64, *e0)
    } else {
        let r2 = norm3_q(e0.x, 0, e0.z);
        proof {
            if r2 == 0 {
                assert((e0.z as int) * (e0.z as int) >= 1) by (nonlinear_arith)
                    requires
                        e0.z != 0,
                ;
                assert((e0.x as int) * (e0.x as int) >= 0) by (nonlinear_arith);
            }
            assert((e0.x as int) * (e0.x as int) >= 0) by (nonlinear_arith);
            assert((e0.z as int) * (e0.z as int) >= 0) by (nonlinear_arith);
            lemma_mul_abs_bound(e0.x as int, e0.x as int, 2147483648, 2147483648);
            lemma_mul_abs_bound(e0.z as int, e0.z as int, 2147483648, 2147483648);
            assert(r2 as int <= 4294967296) by (nonlinear_arith)
                requires
                    0 <= r2 as int,
                    (r2 as int) * (r2 as int) <= 2 * (2147483648 * 2147483648),
            ;
            lemma_component_le_norm(
                e0.z as int,
                (e0.x as int) * (e0.x as int) + (e0.z as int) * (e0.z as int),
                r2 as int,
            );
            lemma_component_le_norm(
                e0.x as int,
                (e0.x as int) * (e0.x as int) + (e0.z as int) * (e0.z as int),
                r2 as int,
            );
            lemma_coeff_le_fp(sabs(e0.z as int), r2 as int);
            lemma_coeff_le_fp(e0.x as int, r2 as int);
            lemma_coeff_le_fp(-(e0.x as int), r2 as int);
        }
        let zm = if e0.z < 0 {
            -e0.z
        } else {
            e0.z
        };
        let num = if e0.z > 0 {
            -e0.x
        } else {
            e0.x
        };
        let c = div_q(zm, r2);
        let s = div_q(num, r2);
        let ez = if e0.z > 0 {
            r2
        } else {
            -r2
        };
        (c, s, Vec3 { x: 0, y: e0.y, z: ez })
    };
    let rot_y = Matrix3x3::new(cy, 0, sy, 0, FP, 0, -sy, 0, cy);
    let p1 = rot_y.mul_vec(p0);
    let u1 = rot_y.mul_vec(u0);
    (p1, u1, e1)
}

/// Rotate the point, the up helper and the eye frame about X so that the eye
/// frame lands on the Z axis.
#[verifier::rlimit(100)]
fn pitch_step(p1: &Vec3, u1: &Vec3, e1: &Vec3) -> (r: (Vec3, Vec3, Vec3))
    requires
        p1.bounded(6442450944),
        u1.bounded(9663676416),
        e1.bounded(4294967296),
    ensures
        ({
            let s = pitch_stage(
                (p1.x as int, p1.y as int, p1.z as int),
                (u1.x as int, u1.y as int, u1.z as int),
                (e1.x as int, e1.y as int, e1.z as int),
            );
            (r.0.x as int, r.0.y as int, r.0.z as int) == s.0 && (
            r.1.x as int,
            r.1.y as int,
            r.1.z as int,
            ) == s.1 && (r.2.x as int, r.2.y as int, r.2.z as int) == s.2
        }),
        r.0.bounded(19327352832),
        r.1.bounded(28991029248),
        r.2.bounded(6442450944),
{
    let (cx, sx, e2) = if e1.z == 0 {
        (FP, 0i64, *e1)
    } else {
        let r3 = norm3_q(0, e1.y, e1.z);
        proof {
            if r3 == 0 {
                assert((e1.z as int) * (e1.z as int) >= 1) by (nonlinear_arith)
                    requires
                        e1.z != 0,
                ;
                assert((e1.y as int) * (e1.y as int) >= 0) by (nonlinear_arith);
            }
            assert((e1.y as int) * (e1.y as int) >= 0) by (nonlinear_arith);
            assert((e1.z as int) * (e1.z as int) >= 0) by (nonlinear_arith);
            lemma_mul_abs_bound(e1.y as int, e1.y as int, 4294967296, 4294967296);
            lemma_mul_abs_bound(e1.z as int, e1.z as int, 4294967296, 4294967296);
            assert(r3 as int <= 6442450944) by (nonlinear_arith)
                requires
                    0 <= r3 as int,
                    (r3 as int) * (r3 as int) <= 2 * (4294967296 * 4294967296),
            ;
            lemma_component_le_norm(
                e1.z as int,
                (e1.y as int) * (e1.y as int) + (e1.z as int) * (e1.z as int),
                r3 as int,
            );
            lemma_component_le_norm(
                e1.y as int,
                (e1.y as int) * (e1.y as int) + (e1.z as int) * (e1.z as int),
                r3 as int,
            );
            lemma_coeff_le_fp(sabs(e1.z as int), r3 as int);
            lemma_coeff_le_fp(e1.y as int, r3 as int);
            lemma_coeff_le_fp(-(e1.y as int), r3 as int);
        }
        let zm = if e1.z < 0 {
            -e1.z
        } else {
            e1.z
        };
        let num = if e1.z > 0 {
            e1.y
        } else {
            -e1.y
        };
        let c = div_q(zm, r3);
        let s = div_q(num, r3);
        let ez = if e1.z > 0 {
            r3
        } else {
            -r3
        };
        (c, s, Vec3 { x: e1.x, y: 0, z: ez })
    };
    let rot_x = Matrix3x3::new(FP, 0, 0, 0, cx, -sx, 0, sx, cx);
    let p2 = rot_x.mul_vec(p1);
    let u2 = rot_x.mul_vec(u1);
    (p2, u2, e2)
}

/// Rotate the point and the eye frame about Z so that the up helper aligns
/// with +Y, and recenter on the eye.  Fails when the rotated up helper lies
/// on the view axis, where no roll angle is defined.
#[verifier::rlimit(100)]
fn roll_step(p2: &Vec3, u2: &Vec3, e2: &Vec3) -> (r: Result<Vec3, ProjectError>)
    requires
        p2.bounded(19327352832),
        u2.bounded(28991029248),
        e2.bounded(6442450944),
    ensures
        match r {
            Ok(pf) => roll_stage(
                (p2.x as int, p2.y as int, p2.z as int),
                (u2.x as int, u2.y as int, u2.z as int),
                (e2.x as int, e2.y as int, e2.z as int),
            ) == Ok::<(int, int, int), ProjectError>((pf.x as int, pf.y as int, pf.z as int))
                && pf.bounded(137438953472),
            Err(e) => roll_stage(
                (p2.x as int, p2.y as int, p2.z as int),
                (u2.x as int, u2.y as int, u2.z as int),
                (e2.x as int, e2.y as int, e2.z as int),
            ) == Err::<(int, int, int), ProjectError>(e),
        },
{
    let ua = u2.sub(e2);
    if ua.x == 0 && ua.y == 0 {
        return Err(ProjectError::DegenerateCamera);
    }
    let ru = norm3_q(ua.x, ua.y, ua.z);
    proof {
        assert((ua.x as int) * (ua.x as int) >= 0) by (nonlinear_arith);
        assert((ua.y as int) * (ua.y as int) >= 0) by (nonlinear_arith);
        assert((ua.z as int) * (ua.z as int) >= 0) by (nonlinear_arith);
        assert((ua.x as int) * (ua.x as int) >= 1 || (ua.y as int) * (ua.y as int) >= 1)
            by (nonlinear_arith)
            requires
                ua.x != 0 || ua.y != 0,
        ;
        assert(ru as int >= 1) by (nonlinear_arith)
            requires
                0 <= ru as int,
                (ua.x as int) * (ua.x as int) + (ua.y as int) * (ua.y as int) + (ua.z as int) * (
                ua.z as int) < (ru as int + 1) * (ru as int + 1),
                (ua.x as int) * (ua.x as int) + (ua.y as int) * (ua.y as int) + (ua.z as int) * (
                ua.z as int) >= 1,
        ;
        lemma_component_le_norm(
            ua.y as int,
            (ua.x as int) * (ua.x as int) + (ua.y as int) * (ua.y as int) + (ua.z as int) * (ua.z
                as int),
            ru as int,
        );
        lemma_coeff_le_fp(ua.y as int, ru as int);
    }
    let cz = div_q(ua.y, ru);
    proof {
        lemma_mul_abs_bound(cz as int, cz as int, FP as int, FP as int);
        assert((cz as int) * (cz as int) >= 0) by (nonlinear_arith);
    }
    let nsq: u128 = ((FP as i128) * (FP as i128) - (cz as i128) * (cz as i128)) as u128;
    let szm = isqrt_u128(nsq);
    proof {
        assert(nsq as int == FP * FP - (cz as int) * (cz as int));
        assert(szm as int <= FP) by (nonlinear_arith)
            requires
                0 <= szm as int,
                (szm as int) * (szm as int) <= FP * FP,
        ;
    }
    let szi = szm as i64;
    let sz = if ua.x >= 0 {
        szi
    } else {
        -szi
    };
    let rot_z = Matrix3x3::new(cz, -sz, 0, sz, cz, 0, 0, 0, FP);
    let p3 = rot_z.mul_vec(p2);
    let e3 = rot_z.mul_vec(e2);
    Ok(p3.sub(&e3))
}

/// Carry the point through the three frame rotations into camera
/// coordinates: eye at the origin, view along the Z axis, up along +Y.
fn view_point(cam: &PerspectiveCamera, original: &Vec3) -> (r: Result<Vec3, ProjectError>)
    requires
        cam.wf(),
        original.bounded(COORD_LIM as int),
    ensures
        match r {
            Ok(pf) => view_spec(*cam, *original) == Ok::<(int, int, int), ProjectError>(
                (pf.x as int, pf.y as int, pf.z as int),
            ) && pf.bounded(137438953472),
            Err(e) => view_spec(*cam, *original) == Err::<(int, int, int), ProjectError>(e),
        },
{
    let p0 = original.sub(&cam.target);
    let e0 = cam.pos.sub(&cam.target);
    let u0 = e0.add(&cam.up);
    let s1 = yaw_step(&p0, &u0, &e0);
    let s2 = pitch_step(&s1.0, &s1.1, &s1.2);
    roll_step(&s2.0, &s2.1, &s2.2)
}

/// Project a world-space point through the camera onto the viewport,
/// returning its pixel position.
///
/// A camera whose eye coincides with its target, or whose up hint is carried
/// onto the view axis (up parallel to the view direction), cannot define a
/// view frame: the projection fails fast with `DegenerateCamera` rather than
/// silently returning a made-up point.  A frustum whose computed width or
/// height vanishes (or overflows all bounds) fails with `DegenerateFrustum`.
/// When the eye frame's Z coordinate vanishes at the first two rotation
/// steps, the angle is taken as zero (no rotation) by convention.
pub fn get_projected(cam: &PerspectiveCamera, original: &Vec3, window_size: (u32, u32)) -> (r:
    Result<ScreenPoint, ProjectError>)
    requires
        cam.wf(),
        original.bounded(COORD_LIM as int),
    ensures
        r == project_spec(*cam, *original, window_size.0 as int, window_size.1 as int),
        cam.pos == cam.target ==> r == Err::<ScreenPoint, ProjectError>(
            ProjectError::DegenerateCamera,
        ),
{
    if cam.pos == cam.target {
        return Err(ProjectError::DegenerateCamera);
    }
    let dims = match frustum_dims(cam) {
        Ok(d) => d,
        Err(e) => {
            return Err(e);
        },
    };
    let pf = match view_point(cam, original) {
        Ok(v) => v,
        Err(e) => {
            return Err(e);
        },
    };
    // normalize to the frustum, remap and scale to pixels
    let nx = div_q(pf.x, dims.0);
    let ny = div_q(pf.y, dims.1);
    proof {
        lemma_tdiv_bound((pf.x as int) * FP, dims.0 as int);
        lemma_tdiv_bound((pf.y as int) * FP, dims.1 as int);
    }
    let u = (nx + FP) / 2;
    let v = (FP - ny) / 2;
    let px = px_from_unit(u, window_size.0);
    let py = px_from_unit(v, window_size.1);
    Ok(ScreenPoint { x: px, y: py })
}

/// The eliminating rotations really eliminate: scaling the cosine/sine pair
/// of a Givens rotation back onto the coordinates it was derived from leaves
/// a residual of at most two units beyond the scaled-down coordinate sum.
/// With `r = isqrt(a^2 + b^2)`, `c = |b|*FP/r` and `s = -sign(b)*a*FP/r`,
/// the rotated first coordinate `fmul(c, a) + fmul(s, b)` is exactly zero in
/// real arithmetic; here it is bounded by the integer roundings involved.
pub proof fn lemma_givens_residual(a: int, b: int)
    requires
        b != 0,
    ensures
        ({
            let r = isqrt(a * a + b * b);
            let c = tdiv(sabs(b) * FP, r);
            let s = if b > 0 {
                tdiv((-a) * FP, r)
            } else {
                tdiv(a * FP, r)
            };
            sabs(fmul(c, a) + fmul(s, b)) <= (sabs(a) + sabs(b)) / (FP as int) + 2
        }),
{
    let n = a * a + b * b;
    assert(b * b >= 1) by (nonlinear_arith)
        requires
            b != 0,
    ;
    assert(a * a >= 0) by (nonlinear_arith);
    lemma_isqrt_exists(n);
    let r = isqrt(n);
    assert(r >= 1) by (nonlinear_arith)
        requires
            0 <= r,
            n < (r + 1) * (r + 1),
            n >= 1,
    ;
    lemma_component_le_norm(a, n, r);
    lemma_component_le_norm(b, n, r);
    let c = tdiv(sabs(b) * FP, r);
    let s = if b > 0 {
        tdiv((-a) * FP, r)
    } else {
        tdiv(a * FP, r)
    };
    let a2 = if b > 0 {
        (-a) * FP
    } else {
        a * FP
    };
    lemma_tdiv_identity(sabs(b) * FP, r);
    lemma_tdiv_identity(a2, r);
    let rho1 = sabs(b) * FP - r * c;
    let rho2 = a2 - r * s;
    // the exact parts cancel, leaving only the two division remainders
    if b > 0 {
        assert(r * (c * a + s * b) == -(rho1 * a + rho2 * b)) by (nonlinear_arith)
            requires
                r * c == b * FP - rho1,
                r * s == (-a) * FP - rho2,
        ;
    } else {
        assert(r * (c * a + s * b) == -(rho1 * a + rho2 * b)) by (nonlinear_arith)
            requires
                r * c == (-b) * FP - rho1,
                r * s == a * FP - rho2,
        ;
    }
    lemma_mul_abs_bound(rho1, a, r, sabs(a));
    lemma_mul_abs_bound(rho2, b, r, sabs(b));
    let cs = c * a + s * b;
    assert(sabs(cs) <= sabs(a) + sabs(b)) by (nonlinear_arith)
        requires
            r >= 1,
            -(r * sabs(a) + r * sabs(b)) <= r * cs <= r * sabs(a) + r * sabs(b),
    ;
    // the two Q16.16 truncations cost at most one unit each
    lemma_tdiv_identity(c * a, FP as int);
    lemma_tdiv_identity(s * b, FP as int);
    let m = fmul(c, a) + fmul(s, b);
    assert(FP * sabs(m) <= sabs(a) + sabs(b) + 2 * FP);
    let k = sabs(m) - 2;
    if k >= 0 {
        lemma_div_is_ordered(FP * k, sabs(a) + sabs(b), FP as int);
        lemma_div_multiples_vanish(k, FP as int);
    } else {
        lemma_div_pos_is_pos(sabs(a) + sabs(b), FP as int);
    }
}

/// The Y-rotation of the pipeline carries a frame at `(x, y, z)`, `z != 0`,
/// to an X coordinate within two units of the scaled-down coordinate sum:
/// the eye frame really lands (up to rounding) on the `x = 0` plane.
pub proof fn lemma_yaw_eliminates(x: int, y: int, z: int)
    requires
        z != 0,
    ensures
        ({
            let ys = yaw_coeffs(x, z);
            sabs(yaw_apply(ys.0, ys.1, (x, y, z)).0) <= (sabs(x) + sabs(z)) / (FP as int) + 2
        }),
{
    lemma_givens_residual(x, z);
    lemma_fmul_zero(y);
}

/// The X-rotation of the pipeline carries a frame at `(x, y, z)`, `z != 0`,
/// to a Y coordinate within two units of the scaled-down coordinate sum:
/// after it, the eye frame really lies (up to rounding) on the Z axis.
pub proof fn lemma_pitch_eliminates(x: int, y: int, z: int)
    requires
        z != 0,
    ensures
        ({
            let xs = pitch_coeffs(y, z);
            sabs(pitch_apply(xs.0, xs.1, (x, y, z)).1) <= (sabs(y) + sabs(z)) / (FP as int) + 2
        }),
{
    lemma_givens_residual(y, z);
    let n = y * y + z * z;
    assert(z * z >= 1) by (nonlinear_arith)
        requires
            z != 0,
    ;
    assert(y * y >= 0) by (nonlinear_arith);
    lemma_isqrt_exists(n);
    let r = isqrt(n);
    assert(r >= 1) by (nonlinear_arith)
        requires
            0 <= r,
            n < (r + 1) * (r + 1),
            n >= 1,
    ;
    // the pitch sine is the negation of the generic eliminating sine
    if z > 0 {
        crate::fixed::lemma_tdiv_neg(y * FP, r);
        assert((-y) * FP == -(y * FP)) by (nonlinear_arith);
    } else {
        crate::fixed::lemma_tdiv_neg((-y) * FP, r);
        assert((-y) * FP == -(y * FP)) by (nonlinear_arith);
    }
    crate::fixed::lemma_fmul_neg_left(pitch_coeffs(y, z).1, z);
    lemma_fmul_zero(x);
}

/// The projection is a pure function of its inputs: two results obtained
/// from the same camera, point and viewport are identical, bit for bit.
pub proof fn lemma_project_pure(
    cam: PerspectiveCamera,
    p: Vec3,
    w: int,
    h: int,
    r1: Result<ScreenPoint, ProjectError>,
    r2: Result<ScreenPoint, ProjectError>,
)
    requires
        r1 == project_spec(cam, p, w, h),
        r2 == project_spec(cam, p, w, h),
    ensures
        r1 == r2,
{
}

/// Projecting the camera's own target lands exactly at the centre of the
/// viewport, for every camera whose view direction has a Z component and for
/// which the projection succeeds at all: the recentered target is the
/// origin, every rotation fixes the origin exactly, and the normalized
/// origin maps to the middle pixel.
pub proof fn lemma_project_target_center(cam: PerspectiveCamera, w: int, h: int)
    requires
        cam.wf(),
        cam.pos.z != cam.target.z,
        0 <= w,
        0 <= h,
        project_spec(cam, cam.target, w, h) is Ok,
    ensures
        project_spec(cam, cam.target, w, h) == Ok::<ScreenPoint, ProjectError>(
            ScreenPoint { x: clamp_i32((w + 1) / 2) as i32, y: clamp_i32((h + 1) / 2) as i32 },
        ),
{
    let p = cam.target;
    let p0 = (0int, 0int, 0int);
    let e0 = (
        cam.pos.x - cam.target.x as int,
        cam.pos.y - cam.target.y as int,
        cam.pos.z - cam.target.z as int,
    );
    let u0 = (e0.0 + cam.up.x, e0.1 + cam.up.y, e0.2 + cam.up.z);
    // the yaw rotation fixes the origin
    let ys = yaw_coeffs(e0.0, e0.2);
    lemma_fmul_zero(ys.0);
    lemma_fmul_zero(ys.1);
    lemma_fmul_zero(-ys.1);
    lemma_fmul_zero(FP as int);
    lemma_fmul_zero(0);
    let s1 = yaw_stage(p0, u0, e0);
    assert(s1.0 == (0int, 0int, 0int));
    // the eye frame lands on the x = 0 plane with a nonzero z
    assert(e0.2 != 0);
    let n1 = e0.0 * e0.0 + e0.2 * e0.2;
    assert(e0.2 * e0.2 >= 1) by (nonlinear_arith)
        requires
            e0.2 != 0,
    ;
    assert(e0.0 * e0.0 >= 0) by (nonlinear_arith);
    lemma_isqrt_exists(n1);
    let z1 = isqrt(n1);
    assert(z1 >= 1) by (nonlinear_arith)
        requires
            0 <= z1,
            n1 < (z1 + 1) * (z1 + 1),
            1 <= n1,
    ;
    let e1 = s1.2;
    assert(e1.0 == 0 && e1.1 == e0.1 && e1.2 != 0);
    // the pitch rotation fixes the origin
    let xs = pitch_coeffs(e1.1, e1.2);
    lemma_fmul_zero(xs.0);
    lemma_fmul_zero(xs.1);
    lemma_fmul_zero(-xs.1);
    let s2 = pitch_stage(s1.0, s1.1, s1.2);
    assert(s2.0 == (0int, 0int, 0int));
    let n2 = e1.1 * e1.1 + e1.2 * e1.2;
    assert(e1.2 * e1.2 >= 1) by (nonlinear_arith)
        requires
            e1.2 != 0,
    ;
    assert(e1.1 * e1.1 >= 0) by (nonlinear_arith);
    lemma_isqrt_exists(n2);
    let z2 = isqrt(n2);
    assert(z2 >= 1) by (nonlinear_arith)
        requires
            0 <= z2,
            n2 < (z2 + 1) * (z2 + 1),
            1 <= n2,
    ;
    let e2 = s2.2;
    assert(e2.0 == 0 && e2.1 == 0);
    // the roll rotation fixes the origin and carries the eye frame exactly
    let u2 = s2.1;
    let ua = (u2.0 - e2.0, u2.1 - e2.1, u2.2 - e2.2);
    let zs = roll_coeffs(ua.0, ua.1, ua.2);
    lemma_fmul_zero(zs.0);
    lemma_fmul_zero(zs.1);
    lemma_fmul_zero(-zs.1);
    lemma_fmul_zero(e2.2);
    lemma_fmul_fp(e2.2);
    let rs = roll_stage(s2.0, s2.1, s2.2);
    assert(view_spec(cam, p) == rs);
    assert(rs is Ok);
    assert(rs == Ok::<(int, int, int), ProjectError>((0int, 0int, -e2.2)));
    // the frustum extents are positive when the projection succeeds
    let dims = match frustum_spec(cam) {
        Ok(d) => d,
        Err(_) => (0int, 0int),
    };
    assert(frustum_spec(cam) is Ok);
    assert(1 <= dims.0 && 1 <= dims.1);
    // the origin normalizes to the exact middle of the unit square
    lemma_div_of0(dims.0);
    lemma_div_of0(dims.1);
    let pf = (0int, 0int, -e2.2);
    assert(fdiv(pf.0, dims.0) == 0);
    assert(fdiv(pf.1, dims.1) == 0);
    let sp = raster_spec(pf, dims.0, dims.1, w, h);
    vstd::arithmetic::div_mod::lemma_fundamental_div_mod_converse_div(65536, 2, 32768, 0);
    assert(tdiv(0 + FP, 2) == 32768);
    assert(tdiv(FP - 0, 2) == 32768);
    // the middle of the unit square scales to the middle pixel
    assert(2 * (32768 * w) + FP == 65536 * (w + 1));
    lemma_div_multiples_vanish_quotient(65536, w + 1, 2);
    assert(rdiv(32768 * w, FP as int) == (w + 1) / 2);
    assert(2 * (32768 * h) + FP == 65536 * (h + 1));
    lemma_div_multiples_vanish_quotient(65536, h + 1, 2);
    assert(rdiv(32768 * h, FP as int) == (h + 1) / 2);
    assert(sp == (ScreenPoint {
        x: clamp_i32((w + 1) / 2) as i32,
        y: clamp_i32((h + 1) / 2) as i32,
    }));
}

} // verus!
