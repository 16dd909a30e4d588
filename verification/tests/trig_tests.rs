//! Fixed-point trigonometry against double-precision references.

use wireframe::sin_q;
use wireframe::cos_q;
use wireframe::asin_q;
use wireframe::acos_q;
use wireframe::to_grad;
use wireframe::FP;
use wireframe::HALF_PI_Q;
use wireframe::PI_Q;
use wireframe::TWO_PI_Q;

fn rad_q(deg: f64) -> i64 {
    (deg.to_radians() * 65536.0).round() as i64
}

#[test]
fn sin_cos_exact_at_zero_and_half_turn() {
    assert_eq!(sin_q(0), 0);
    assert_eq!(cos_q(0), FP);
    assert_eq!(sin_q(PI_Q), 0);
    assert_eq!(cos_q(PI_Q), -FP);
    assert_eq!(sin_q(TWO_PI_Q), 0);
    assert_eq!(cos_q(TWO_PI_Q), FP);
}

#[test]
fn sin_cos_follow_the_real_functions() {
    for deg in [-720, -400, -180, -90, -45, -1, 1, 30, 45, 60, 89, 91, 120, 179, 181, 270, 359,
        400, 719] {
        let a = rad_q(deg as f64);
        let s = sin_q(a) as f64 / 65536.0;
        let c = cos_q(a) as f64 / 65536.0;
        let sr = (deg as f64).to_radians().sin();
        let cr = (deg as f64).to_radians().cos();
        // the first-quadrant cosine is recovered from the sine through a
        // square root, so its error peaks near the quarter turns
        assert!((s - sr).abs() < 0.02, "sin at {deg}: {s} vs {sr}");
        assert!((c - cr).abs() < 0.02, "cos at {deg}: {c} vs {cr}");
    }
}

#[test]
fn sine_is_odd_and_cosine_is_even() {
    for deg in [1, 17, 45, 90, 133, 180, 250, 359, 500] {
        let a = rad_q(deg as f64);
        assert_eq!(sin_q(-a), -sin_q(a));
        assert_eq!(cos_q(-a), cos_q(a));
    }
}

#[test]
fn sin_cos_square_to_one() {
    for deg in [0, 10, 45, 77, 90, 140, 180, 200, 290, 350] {
        let a = rad_q(deg as f64);
        let s = sin_q(a);
        let c = cos_q(a);
        let d = (c * c + s * s) - FP * FP;
        assert!(-2 * FP - 1 < d && d <= 0, "pythagoras at {deg}: {d}");
    }
}

#[test]
fn arc_functions_exact_at_the_corners() {
    assert_eq!(asin_q(0), 0);
    assert_eq!(acos_q(0), HALF_PI_Q);
    assert_eq!(acos_q(FP), 0);
    assert_eq!(acos_q(-FP), PI_Q);
    assert_eq!(asin_q(FP), HALF_PI_Q);
    assert_eq!(asin_q(-FP), -HALF_PI_Q);
}

#[test]
fn arc_cosine_follows_the_real_function() {
    for v in [-0.99, -0.7, -0.5, -0.1, 0.1, 0.3, 0.5, 0.7071, 0.9, 0.99] {
        let x = (v * 65536.0f64).round() as i64;
        let got = acos_q(x) as f64 / 65536.0;
        let want = (v as f64).acos();
        assert!((got - want).abs() < 0.005, "acos at {v}: {got} vs {want}");
    }
}

#[test]
fn to_grad_converts_radians_to_degrees() {
    assert_eq!(to_grad(PI_Q), 180 * FP);
    assert_eq!(to_grad(HALF_PI_Q), 90 * FP);
    assert_eq!(to_grad(0), 0);
    assert_eq!(to_grad(-PI_Q), -180 * FP);
}
