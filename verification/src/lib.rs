//! A small 3D wireframe-projection library.
//!
//! The library maintains a perspective camera (eye, look-at target, up hint,
//! field of view, aspect ratio, near/far planes) and projects world-space
//! points to pixel coordinates by composing elementary rotations derived from
//! the camera's own basis vectors, rather than a general view/projection
//! matrix.
//!
//! All scalar quantities are Q16.16 fixed-point numbers: an `i64` counting
//! 1/65536-ths of a unit.  Every operation is specified exactly over the
//! mathematical integers, so the whole projection pipeline has a precise,
//! machine-checked contract.

mod fixed;
mod trig;
mod vec3;
mod vec2;
mod vectrait;
mod mat3x3;
mod camera;
mod project;

pub use fixed::FP;
pub use fixed::sabs;
pub use fixed::tdiv;
pub use fixed::fmul;
pub use fixed::fdiv;
pub use fixed::rdiv;
pub use fixed::clamp_i32;
pub use fixed::is_isqrt;
pub use fixed::isqrt;

pub use trig::HALF_PI_Q;
pub use trig::PI_Q;
pub use trig::TWO_PI_Q;
pub use trig::sin_q_s;
pub use trig::cos_q_s;
pub use trig::asin_q_s;
pub use trig::acos_q_s;
pub use trig::sin_q;
pub use trig::cos_q;
pub use trig::asin_q;
pub use trig::acos_q;
pub use trig::to_grad;
pub use trig::lemma_sin_q_zero;
pub use trig::lemma_cos_q_zero;
pub use trig::lemma_sin_q_pi;
pub use trig::lemma_cos_q_pi;
pub use trig::lemma_sin_q_odd;
pub use trig::lemma_cos_q_even;
pub use trig::lemma_sin_cos_q_pyth;
pub use trig::lemma_acos_q_zero;
pub use trig::lemma_acos_q_one;

pub use vec3::Vec3;
pub use vec3::VEC_LIM;
pub use vec3::ADD_LIM;
pub use vec3::COORD_LIM;

pub use vec2::Vec2;

pub use vectrait::Vector;
pub use vectrait::seq_bounded;
pub use vectrait::sum_sq;
pub use vectrait::sum_prod;

pub use mat3x3::Matrix3x3;
pub use mat3x3::MAT_LIM;
pub use mat3x3::row_apply;
pub use mat3x3::is_rot_x;
pub use mat3x3::is_rot_y;
pub use mat3x3::is_rot_z;
pub use mat3x3::product_of;
pub use mat3x3::get_rot_x;
pub use mat3x3::get_rot_y;
pub use mat3x3::get_rot_z;
pub use mat3x3::lemma_rot_z_zero_identity;
pub use mat3x3::lemma_rot_z_pi_negates;
pub use mat3x3::lemma_rot_y_round_trip;

pub use camera::PerspectiveCamera;
pub use camera::OrthographicCamera;
pub use camera::CALC_UP_LIM;
pub use camera::calc_up_spec;
pub use camera::lemma_calc_up_orthogonal;

pub use project::ScreenPoint;
pub use project::ProjectError;
pub use project::DIM_LIM;
pub use project::frustum_spec;
pub use project::view_spec;
pub use project::raster_spec;
pub use project::project_spec;
pub use project::get_projected;
pub use project::lemma_givens_residual;
pub use project::lemma_yaw_eliminates;
pub use project::lemma_pitch_eliminates;
pub use project::lemma_project_pure;
pub use project::lemma_project_target_center;
