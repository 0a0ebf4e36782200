//! Camera/viewport model: primary configuration and the derived viewport
//! vectors recomputed from it whenever the aspect ratio changes.

use vstd::prelude::*;
use vstd::arithmetic::div_mod::lemma_fundamental_div_mod;
use crate::num::{div_floor, fmul, SCALE};
use crate::vec3::{bounded, v3_add, Vec3, V3};

verus! {

/// Magnitude bound on camera origin components.
pub const ORIGIN_BOUND: i64 = 4 * SCALE;

/// Upper bound on the viewport height (8.0 geometric units).
pub const VH_BOUND: i64 = 8 * SCALE;

/// Upper bound on the focal length (8.0 geometric units).
pub const FOCAL_BOUND: i64 = 8 * SCALE;

/// Upper bound on the aspect ratio handed to `recalculate` (4.0).
pub const ASPECT_BOUND: i64 = 4 * SCALE;

/// Upper bound on the derived viewport width (32.0 geometric units).
pub const VW_BOUND: i64 = 32 * SCALE;

/// Camera/viewport state: primary fields (`origin`, `viewport_height`,
/// `focal_length`) and fields derived from them by `recalculate`.
pub struct Data {
    pub origin: Vec3,
    pub viewport_height: i64,
    pub viewport_width: i64,
    pub focal_length: i64,
    pub horizontal: Vec3,
    pub vertical: Vec3,
    pub lower_left_corner: Vec3,
}

/// The primary camera configuration is well formed: bounded origin,
/// positive bounded viewport height and focal length, and the origin in
/// front of the focal plane (so every generated ray points forward).
pub open spec fn camera_wf(d: Data) -> bool {
    &&& bounded(d.origin@, ORIGIN_BOUND as int)
    &&& 1 <= d.viewport_height <= VH_BOUND
    &&& 1 <= d.focal_length <= FOCAL_BOUND
    &&& d.origin.z < d.focal_length
}

/// Where `recalculate` puts the lower-left corner of the viewport:
/// `origin - horizontal / 2 - vertical / 2 - (0, 0, focal_length)`.
pub open spec fn llc_spec(d: Data) -> V3 {
    V3 {
        x: d.origin@.x - d.viewport_width as int / 2,
        y: d.origin@.y - d.viewport_height as int / 2,
        z: d.origin@.z - d.focal_length,
    }
}

/// The derived viewport fields agree with the recalculation formulas for
/// the primary fields they were computed from.
pub open spec fn derived_ok(d: Data) -> bool {
    &&& 0 <= d.viewport_width <= VW_BOUND
    &&& d.horizontal@ == (V3 { x: d.viewport_width as int, y: 0, z: 0 })
    &&& d.vertical@ == (V3 { x: 0, y: d.viewport_height as int, z: 0 })
    &&& d.lower_left_corner@ == llc_spec(d)
}

impl Data {
    /// Recomputes the derived viewport fields for a new aspect ratio:
    /// `viewport_width = viewport_height * aspect_ratio`, then
    /// `horizontal = (viewport_width, 0, 0)`,
    /// `vertical = (0, viewport_height, 0)`, and the lower-left corner
    /// `origin - horizontal / 2 - vertical / 2 - (0, 0, focal_length)`.
    pub fn recalculate(&mut self, aspect_ratio: i64)
        requires
            camera_wf(*old(self)),
            1 <= aspect_ratio <= ASPECT_BOUND,
        ensures
            final(self).origin == old(self).origin,
            final(self).viewport_height == old(self).viewport_height,
            final(self).focal_length == old(self).focal_length,
            final(self).viewport_width
                == (old(self).viewport_height * aspect_ratio) / (SCALE as int),
            camera_wf(*final(self)),
            derived_ok(*final(self)),
    {
        proof {
            assert(1 <= self.viewport_height * aspect_ratio <= 32_000_000) by (nonlinear_arith)
                requires
                    1 <= self.viewport_height <= 8000,
                    1 <= aspect_ratio <= 4000,
            ;
        }
        self.viewport_width = fmul(self.viewport_height, aspect_ratio);
        self.horizontal = Vec3::new(self.viewport_width, 0, 0);
        self.vertical = Vec3::new(0, self.viewport_height, 0);
        let half_h = div_floor(self.viewport_width, 2);
        let half_v = div_floor(self.viewport_height, 2);
        self.lower_left_corner = Vec3::new(
            self.origin.x - half_h,
            self.origin.y - half_v,
            self.origin.z - self.focal_length,
        );
    }
}

impl Default for Data {
    /// The default camera: origin at zero, a viewport two units high,
    /// focal length one; derived vectors start at zero until the first
    /// `recalculate`.
    fn default() -> (d: Data)
        ensures
            d.origin@ == (V3 { x: 0int, y: 0int, z: 0int }),
            d.viewport_height == 2 * SCALE,
            d.viewport_width == 2 * SCALE,
            d.focal_length == SCALE,
            d.horizontal@ == (V3 { x: 0int, y: 0int, z: 0int }),
            d.vertical@ == (V3 { x: 0int, y: 0int, z: 0int }),
            d.lower_left_corner@ == (V3 { x: 0int, y: 0int, z: 0int }),
            camera_wf(d),
    {
        Data {
            origin: Vec3::zero(),
            viewport_height: 2 * SCALE,
            viewport_width: 2 * SCALE,
            focal_length: SCALE,
            horizontal: Vec3::zero(),
            vertical: Vec3::zero(),
            lower_left_corner: Vec3::zero(),
        }
    }
}

/// After `recalculate`, the viewport corners are symmetric about the
/// camera's forward axis: for an even viewport width and height, walking
/// from the lower-left corner by `horizontal + vertical` lands on the
/// upper-right corner `origin + (viewport_width / 2, viewport_height / 2,
/// -focal_length)`, so the two corners average to the viewport center
/// `origin - (0, 0, focal_length)`.
pub proof fn lemma_viewport_symmetric(d: Data)
    requires
        derived_ok(d),
        d.viewport_width % 2 == 0,
        d.viewport_height % 2 == 0,
    ensures
        v3_add(v3_add(d.lower_left_corner@, d.horizontal@), d.vertical@) == (V3 {
            x: d.origin@.x + d.viewport_width as int / 2,
            y: d.origin@.y + d.viewport_height as int / 2,
            z: d.origin@.z - d.focal_length,
        }),
        v3_add(
            d.lower_left_corner@,
            v3_add(v3_add(d.lower_left_corner@, d.horizontal@), d.vertical@),
        ) == (V3 {
            x: 2 * d.origin@.x,
            y: 2 * d.origin@.y,
            z: 2 * (d.origin@.z - d.focal_length),
        }),
{
    lemma_fundamental_div_mod(d.viewport_width as int, 2);
    lemma_fundamental_div_mod(d.viewport_height as int, 2);
}

} // verus!
