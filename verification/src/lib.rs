//! A small ray-tracing core with exact fixed-point arithmetic.
//!
//! All geometry is carried in fixed-point scalars (`SCALE` units per 1.0),
//! which keeps every computation deterministic and lets each stage of the
//! pipeline carry an exact contract: camera/viewport derivation, ray-sphere
//! intersection, nearest-hit scene aggregation, and per-pixel shading.

use vstd::prelude::*;

mod camera;
mod hit;
mod num;
mod ray;
mod scene;
mod tracer;
mod vec3;

pub use camera::Data;
pub use camera::camera_wf;
pub use camera::derived_ok;
pub use camera::lemma_viewport_symmetric;
pub use camera::llc_spec;
pub use camera::ASPECT_BOUND;
pub use hit::HitRecord;
pub use hit::lemma_hit_point_on_sphere_exact;
pub use hit::lemma_sphere_hit_monotonic;
pub use hit::lemma_sphere_hit_props;
pub use hit::lemma_sphere_misses;
pub use hit::NORMAL_BOUND;
pub use hit::HitV;
pub use hit::Sphere;
pub use hit::discriminant;
pub use hit::hit_rec_spec;
pub use hit::in_interval;
pub use hit::normal_spec;
pub use hit::opt_view;
pub use hit::quad_a;
pub use hit::quad_c;
pub use hit::quad_half_b;
pub use hit::root_high;
pub use hit::root_low;
pub use hit::sphere_hit_spec;
pub use hit::sphere_wf;
pub use num::SCALE;
pub use ray::dir_ok;
pub use ray::ray_vals_wf;
pub use ray::POINT_BOUND;
pub use scene::Scene;
pub use scene::lemma_scene_hit_monotonic;
pub use scene::lemma_scene_hit_props;
pub use scene::scene_hit_spec;
pub use scene::scene_wf;
pub use num::is_sqrt;
pub use num::sqrt_floor;
pub use ray::Ray;
pub use ray::at_spec;
pub use ray::ray_wf;
pub use ray::GEOM_BOUND;
pub use ray::T_BOUND;
pub use num::div_floor;
pub use num::fmul;
pub use num::isqrt;
pub use tracer::RayTracer;
pub use tracer::background_spec;
pub use tracer::bg_t;
pub use tracer::lemma_empty_scene_background;
pub use tracer::lemma_generate_image_deterministic;
pub use tracer::pixel_color;
pub use tracer::pixel_spec;
pub use tracer::ray_color;
pub use tracer::ray_color_spec;
pub use tracer::ray_dir_spec;
pub use tracer::shade_hit_spec;
pub use tracer::DIM_BOUND;
pub use vec3::V3;
pub use vec3::Vec3;
pub use vec3::bounded;
pub use vec3::v3_add;
pub use vec3::v3_dot;
pub use vec3::v3_scale;
pub use vec3::v3_sub;

verus! {

} // verus!
