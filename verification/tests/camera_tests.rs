//! Camera state: setters, the derived up vector, and the vector trait.

use wireframe::PerspectiveCamera;
use wireframe::OrthographicCamera;
use wireframe::Vec3;
use wireframe::Vec2;
use wireframe::Vector;
use wireframe::FP;

fn camera() -> PerspectiveCamera {
    PerspectiveCamera {
        fovy: 102944,
        aspect_ratio: 98304,
        near: 2 * FP,
        far: 10 * FP,
        pos: Vec3::new(-2 * FP, 2 * FP, 5 * FP),
        target: Vec3::new(4 * FP, 4 * FP, 4 * FP),
        up: Vec3::new(0, FP, 0),
    }
}

#[test]
fn setters_replace_only_their_field() {
    let mut cam = camera();
    cam.set_pos(Vec3::new(1, 2, 3));
    assert_eq!(cam.pos, Vec3::new(1, 2, 3));
    assert_eq!(cam.target, Vec3::new(4 * FP, 4 * FP, 4 * FP));
    cam.set_target(Vec3::new(7, 8, 9));
    assert_eq!(cam.target, Vec3::new(7, 8, 9));
    assert_eq!(cam.pos, Vec3::new(1, 2, 3));
    assert_eq!(cam.near, 2 * FP);
}

#[test]
fn calc_up_solves_for_an_orthogonal_vector() {
    let mut cam = camera();
    cam.calc_up();
    // n = target - pos = (6, 2, -1); up = (6, 2, -(36+4)/-1) = (6, 2, 40)
    assert_eq!(cam.up, Vec3::new(6 * FP, 2 * FP, 40 * FP));
    // and it is orthogonal to the view direction
    let n = Vec3::from_points(&cam.pos, &cam.target);
    assert_eq!(n.dot_product(&cam.up), 0);
}

#[test]
fn calc_up_branches_on_the_nonzero_axis() {
    // view direction with no Z component: the Y branch solves instead
    let mut cam = camera();
    cam.pos = Vec3::new(0, 0, 0);
    cam.target = Vec3::new(3 * FP, 2 * FP, 0);
    cam.calc_up();
    // n = (3, 2, 0); up = (3, -(9+0)/2, 0)
    assert_eq!(cam.up, Vec3::new(3 * FP, (-9 * FP) / 2, 0));
    let n = Vec3::from_points(&cam.pos, &cam.target);
    // orthogonal up to the rounding of one division
    let d = n.dot_product(&cam.up);
    assert!(d.abs() < 2 * FP, "dot {d}");
}

#[test]
fn orthographic_camera_exists() {
    let _cam = OrthographicCamera {};
}

#[test]
fn trait_multiply_scales_in_place() {
    let mut v = Vec3::new(FP, 2 * FP, 3 * FP);
    v.multiply(2 * FP);
    assert_eq!(v, Vec3::new(2 * FP, 4 * FP, 6 * FP));
    let mut w = Vec2 { x: 3 * FP, y: -2 * FP };
    w.multiply(FP / 2);
    assert_eq!(w, Vec2 { x: 3 * FP / 2, y: -FP });
}

#[test]
fn trait_normalize_gives_unit_length() {
    let mut v = Vec3::new(3 * FP, 0, 0);
    v.normalize();
    assert_eq!(v, Vec3::new(65535, 0, 0));
    let l = v.len().unwrap();
    assert!((l - FP).abs() <= 2, "length {l}");
}

#[test]
fn trait_stretch_rescales_to_the_desired_length() {
    let mut v = Vec3::new(3 * FP, 4 * FP, 0);
    v.stretch(10 * FP);
    let l = v.len().unwrap();
    assert!((l - 10 * FP).abs() <= 8, "length {l}");
    let mut w = Vec2 { x: 0, y: -2 * FP };
    w.stretch(FP);
    let l2 = w.len().unwrap();
    assert!((l2 - FP).abs() <= 2, "length {l2}");
}

#[test]
fn trait_len_and_dot_agree_with_the_inherent_forms() {
    let a = Vec3::new(3 * FP, 3 * FP, 3 * FP);
    assert_eq!(Vector::len(&a), a.len());
    let b = Vec3::new(FP, -FP, 2 * FP);
    assert_eq!(Vector::dot_product(&a, &b), a.dot_product(&b));
    let c = Vec2 { x: 0, y: FP };
    let d = Vec2 { x: FP, y: 0 };
    assert_eq!(Vector::cross_angle(&c, &d), c.cross_angle(&d));
}
