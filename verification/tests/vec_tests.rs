//! Vector algebra: lengths, angles and component arithmetic.

use wireframe::Vec3;
use wireframe::Vec2;
use wireframe::HALF_PI_Q;
use wireframe::FP;

#[test]
fn vec3_test_cross_angle() {
    let vec1 = Vec3 { x: 0, y: FP, z: 0 };
    let vec2 = Vec3 { x: 0, y: 0, z: FP };
    assert_eq!(vec1.cross_angle(&vec2), HALF_PI_Q);
    // the library's quarter turn is pi/2 within its Q16.16 resolution
    assert!((HALF_PI_Q as f64 / 65536.0 - std::f64::consts::FRAC_PI_2).abs() < 1.0 / 65536.0);
}

#[test]
fn vec3_test_length() {
    let vec1 = Vec3 { x: 3 * FP, y: 3 * FP, z: 3 * FP };
    assert_eq!(vec1.len(), Some(((27.0f64).sqrt() * 65536.0) as i64));
    assert_eq!(vec1.len(), Some(340535));
}

#[test]
fn vector_test_cross_angle() {
    let vec1 = Vec3 { x: 0, y: FP, z: 0 };
    let vec2 = Vec3 { x: 0, y: 0, z: FP };
    assert_eq!(vec1.cross_angle(&vec2), HALF_PI_Q);
}

#[test]
fn vector_test_length() {
    let vec1 = Vec3 { x: 3 * FP, y: 3 * FP, z: 3 * FP };
    assert_eq!(vec1.len().unwrap(), ((27.0f64).sqrt() * 65536.0) as i64);
}

#[test]
fn zero_vector_has_no_length() {
    let zero = Vec3::new(0, 0, 0);
    assert_eq!(zero.len(), None);
    let zero2 = Vec2 { x: 0, y: 0 };
    assert_eq!(zero2.len(), None);
}

#[test]
fn length_exact_on_integer_triples() {
    // a 3-4-5 triangle in the XY plane
    let v = Vec3::new(3 * FP, 4 * FP, 0);
    assert_eq!(v.len(), Some(5 * FP));
    let v2 = Vec2 { x: 3 * FP, y: 4 * FP };
    assert_eq!(v2.len(), Some(5 * FP));
}

#[test]
fn dot_product_is_exact() {
    let a = Vec3::new(FP, 2 * FP, 3 * FP);
    let b = Vec3::new(4 * FP, -5 * FP, 6 * FP);
    // 4 - 10 + 18 = 12
    assert_eq!(a.dot_product(&b), 12 * FP);
    let c = Vec2 { x: 2 * FP, y: 3 * FP };
    let d = Vec2 { x: -4 * FP, y: 5 * FP };
    assert_eq!(c.dot_product(&d), 7 * FP);
}

#[test]
fn component_arithmetic() {
    let a = Vec3::new(FP, 2 * FP, 3 * FP);
    let b = Vec3::new(10, 20, 30);
    assert_eq!(a.add(&b), Vec3::new(FP + 10, 2 * FP + 20, 3 * FP + 30));
    assert_eq!(a.sub(&b), Vec3::new(FP - 10, 2 * FP - 20, 3 * FP - 30));
    assert_eq!(a.neg(), Vec3::new(-FP, -2 * FP, -3 * FP));
    assert_eq!(Vec3::from_points(&b, &a), a.sub(&b));
    assert_eq!(a.scale(2 * FP), Vec3::new(2 * FP, 4 * FP, 6 * FP));
    let c = Vec2 { x: 3 * FP, y: -2 * FP };
    assert_eq!(c.scale(2 * FP), Vec2 { x: 6 * FP, y: -4 * FP });
}

#[test]
fn cross_angle_of_parallel_and_opposite_vectors() {
    let a = Vec3::new(FP, FP, FP);
    assert_eq!(a.cross_angle(&a), 0);
    let b = Vec3::new(-FP, -FP, -FP);
    assert_eq!(a.cross_angle(&b), wireframe::PI_Q);
}

#[test]
fn cross_angle_matches_float_evaluation() {
    let a = Vec3::new(3 * FP, 0, 0);
    let b = Vec3::new(2 * FP, 2 * FP, 0);
    let got = a.cross_angle(&b) as f64 / 65536.0;
    let want = std::f64::consts::FRAC_PI_4;
    assert!((got - want).abs() < 0.002, "got {got}, want {want}");
    let c = Vec2 { x: 3 * FP, y: 0 };
    let d = Vec2 { x: 2 * FP, y: 2 * FP };
    let got2 = c.cross_angle(&d) as f64 / 65536.0;
    assert!((got2 - want).abs() < 0.002, "got {got2}, want {want}");
}
