//! Rotation matrices: conventions, identities and round trips.

use wireframe::Matrix3x3;
use wireframe::Vec3;
use wireframe::get_rot_x;
use wireframe::get_rot_y;
use wireframe::get_rot_z;
use wireframe::sin_q;
use wireframe::cos_q;
use wireframe::FP;
use wireframe::PI_Q;

fn rad_q(deg: f64) -> i64 {
    (deg.to_radians() * 65536.0).round() as i64
}

#[test]
fn rot_z_of_zero_is_the_identity() {
    for v in [Vec3::new(FP, 0, 0), Vec3::new(123, -456, 789), Vec3::new(-5 * FP, 3 * FP, 99)] {
        assert_eq!(get_rot_z(0).mul_vec(&v), v);
        assert_eq!(get_rot_x(0).mul_vec(&v), v);
        assert_eq!(get_rot_y(0).mul_vec(&v), v);
    }
}

#[test]
fn rot_z_of_half_turn_negates_x_and_y() {
    for v in [Vec3::new(FP, 2 * FP, 3 * FP), Vec3::new(-17, 23, -99)] {
        assert_eq!(get_rot_z(PI_Q).mul_vec(&v), Vec3::new(-v.x, -v.y, v.z));
    }
}

#[test]
fn rot_z_sign_convention() {
    // rotationZ(alpha) * (1,0,0) = (cos alpha, sin alpha, 0)
    for deg in [0, 30, 45, 90, 133, 270] {
        let a = rad_q(deg as f64);
        let r = get_rot_z(a).mul_vec(&Vec3::new(FP, 0, 0));
        assert_eq!(r, Vec3::new(cos_q(a), sin_q(a), 0));
    }
}

#[test]
fn rot_y_round_trip_is_the_identity_up_to_rounding() {
    for deg in [1, 13, 45, 90, 120, 179, 213, 333] {
        let a = rad_q(deg as f64);
        let p = get_rot_y(a).mul_mat(&get_rot_y(-a));
        let d = p.w11;
        assert_eq!(p.w12, 0);
        assert_eq!(p.w13, 0);
        assert_eq!(p.w21, 0);
        assert_eq!(p.w23, 0);
        assert_eq!(p.w31, 0);
        assert_eq!(p.w32, 0);
        assert_eq!(p.w22, FP);
        assert_eq!(p.w33, d);
        assert!(FP - 4 <= d && d <= FP, "diagonal at {deg}: {d}");
    }
}

#[test]
fn matrix_vector_product_small_case() {
    // entries in Q16.16: the identity doubled
    let m = Matrix3x3::new(2 * FP, 0, 0, 0, 2 * FP, 0, 0, 0, 2 * FP);
    let v = Vec3::new(10 * FP, -20 * FP, 30 * FP);
    assert_eq!(m.mul_vec(&v), Vec3::new(20 * FP, -40 * FP, 60 * FP));
}

#[test]
fn matrix_matrix_product_small_case() {
    let a = Matrix3x3::new(FP, 0, 0, 0, 2 * FP, 0, 0, 0, 3 * FP);
    let b = Matrix3x3::new(4 * FP, 0, 0, 0, 5 * FP, 0, 0, 0, 6 * FP);
    let p = a.mul_mat(&b);
    assert_eq!(p.w11, 4 * FP);
    assert_eq!(p.w22, 10 * FP);
    assert_eq!(p.w33, 18 * FP);
    assert_eq!(p.w12, 0);
    assert_eq!(p.w21, 0);
}

#[test]
fn rotation_follows_the_real_rotation() {
    let a = rad_q(37.0);
    let v = Vec3::new(3 * FP, -2 * FP, 5 * FP);
    let r = get_rot_x(a).mul_vec(&v);
    let (s, c) = (37.0f64.to_radians().sin(), 37.0f64.to_radians().cos());
    let want_y = c * -2.0 - s * 5.0;
    let want_z = s * -2.0 + c * 5.0;
    assert!((r.x as f64 / 65536.0 - 3.0).abs() < 0.01);
    assert!((r.y as f64 / 65536.0 - want_y).abs() < 0.01);
    assert!((r.z as f64 / 65536.0 - want_z).abs() < 0.01);
}
