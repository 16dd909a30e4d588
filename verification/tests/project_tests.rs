//! The projection pipeline end to end.

use wireframe::PerspectiveCamera;
use wireframe::Vec3;
use wireframe::ScreenPoint;
use wireframe::ProjectError;
use wireframe::get_projected;
use wireframe::FP;

fn rad_q(deg: f64) -> i64 {
    (deg.to_radians() * 65536.0).round() as i64
}

fn world(x: f64, y: f64, z: f64) -> Vec3 {
    Vec3::new((x * 65536.0).round() as i64, (y * 65536.0).round() as i64, (z * 65536.0).round()
        as i64)
}

fn camera_at_z5() -> PerspectiveCamera {
    PerspectiveCamera {
        fovy: rad_q(90.0),
        aspect_ratio: (1.5f64 * 65536.0).round() as i64,
        near: 2 * FP,
        far: 10 * FP,
        pos: world(0.0, 0.0, 5.0),
        target: world(0.0, 0.0, 0.0),
        up: world(0.0, 1.0, 0.0),
    }
}

#[test]
fn projecting_the_target_hits_the_viewport_centre() {
    let cam = camera_at_z5();
    let r = get_projected(&cam, &cam.target, (900, 600));
    assert_eq!(r, Ok(ScreenPoint { x: 450, y: 300 }));
}

#[test]
fn a_point_above_the_target_lands_in_the_upper_half() {
    let cam = camera_at_z5();
    let r = get_projected(&cam, &world(0.0, 1.0, 0.0), (900, 600)).unwrap();
    assert!(r.y < 300, "screen y grows downward, got {}", r.y);
    assert_eq!(r, ScreenPoint { x: 450, y: 225 });
}

#[test]
fn projecting_with_eye_on_target_fails() {
    let mut cam = camera_at_z5();
    cam.pos = cam.target;
    let r = get_projected(&cam, &world(1.0, 2.0, 3.0), (900, 600));
    assert_eq!(r, Err(ProjectError::DegenerateCamera));
}

#[test]
fn projecting_with_up_along_the_view_direction_fails() {
    let mut cam = camera_at_z5();
    cam.up = world(0.0, 0.0, 1.0);
    let r = get_projected(&cam, &world(1.0, 0.0, 0.0), (900, 600));
    assert_eq!(r, Err(ProjectError::DegenerateCamera));
}

#[test]
fn a_vanishing_field_of_view_fails() {
    let mut cam = camera_at_z5();
    cam.fovy = 1;
    let r = get_projected(&cam, &world(1.0, 0.0, 0.0), (900, 600));
    assert_eq!(r, Err(ProjectError::DegenerateFrustum));
}

#[test]
fn projecting_twice_gives_bit_identical_results() {
    let cam = PerspectiveCamera {
        fovy: rad_q(100.0),
        aspect_ratio: ((16.0f64 / 9.0) * 65536.0).round() as i64,
        near: 2 * FP,
        far: 10 * FP,
        pos: world(5.0, 5.0, 5.0),
        target: world(0.0, 0.0, 0.0),
        up: world(-1.0, -1.0, 2.0),
    };
    let p = world(3.3, -1.7, 0.9);
    let first = get_projected(&cam, &p, (900, 600));
    let second = get_projected(&cam, &p, (900, 600));
    assert_eq!(first, second);
}

#[test]
fn diagonal_camera_scenario() {
    // camera on the cube diagonal, up hint orthogonal to the view direction
    let cam = PerspectiveCamera {
        fovy: rad_q(100.0),
        aspect_ratio: ((16.0f64 / 9.0) * 65536.0).round() as i64,
        near: 2 * FP,
        far: 10 * FP,
        pos: world(5.0, 5.0, 5.0),
        target: world(0.0, 0.0, 0.0),
        up: world(-1.0, -1.0, 2.0),
    };
    let x_axis = get_projected(&cam, &world(10.0, 0.0, 0.0), (900, 600)).unwrap();
    let y_axis = get_projected(&cam, &world(0.0, 10.0, 0.0), (900, 600)).unwrap();
    let z_axis = get_projected(&cam, &world(0.0, 0.0, 10.0), (900, 600)).unwrap();
    // the X and Y axis endpoints land inside the viewport, mirrored about
    // its vertical midline
    assert_eq!(x_axis, ScreenPoint { x: 75, y: 557 });
    assert_eq!(y_axis, ScreenPoint { x: 825, y: 557 });
    assert!(0 <= x_axis.x && x_axis.x <= 900 && 0 <= x_axis.y && x_axis.y <= 600);
    assert!(0 <= y_axis.x && y_axis.x <= 900 && 0 <= y_axis.y && y_axis.y <= 600);
    // the Z axis endpoint projects above the viewport's top edge; a plain
    // floating-point evaluation of the same rotation sequence puts it at
    // (450.0, -213.8), so the fixed-point pipeline agrees to the pixel
    assert_eq!(z_axis, ScreenPoint { x: 450, y: -214 });
}

#[test]
fn off_centre_points_move_as_expected() {
    let cam = camera_at_z5();
    // a point to the right of the target lands right of the centre
    let right = get_projected(&cam, &world(1.0, 0.0, 0.0), (900, 600)).unwrap();
    assert!(right.x > 450, "got {}", right.x);
    assert_eq!(right.y, 300);
    // and a point to the left lands left, symmetrically
    let left = get_projected(&cam, &world(-1.0, 0.0, 0.0), (900, 600)).unwrap();
    assert_eq!(left.y, 300);
    assert_eq!(left.x + right.x, 900);
}

#[test]
fn far_off_axis_points_saturate_instead_of_wrapping() {
    // a nearly-degenerate frustum (tiny field of view, quarter aspect) blows
    // the normalized coordinate of a far off-axis point past the pixel range
    let cam = PerspectiveCamera {
        fovy: 2,
        aspect_ratio: 16384,
        near: 2 * FP,
        far: 10 * FP,
        pos: world(0.0, 0.0, 5.0),
        target: world(0.0, 0.0, 0.0),
        up: world(0.0, 1.0, 0.0),
    };
    let right = get_projected(&cam, &world(16000.0, 0.0, 0.0), (900, 600)).unwrap();
    assert_eq!(right, ScreenPoint { x: i32::MAX, y: 300 });
    let left = get_projected(&cam, &world(-16000.0, 0.0, 0.0), (900, 600)).unwrap();
    assert_eq!(left, ScreenPoint { x: i32::MIN, y: 300 });
}
