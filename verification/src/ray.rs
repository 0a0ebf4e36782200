//! Rays: a parametrized line `origin + t * dir` through the scene.

use vstd::prelude::*;
use crate::num::{lemma_div_mul_bound, SCALE};
use crate::vec3::{bounded, v3_add, v3_dot, v3_scale, Vec3, V3};

verus! {

/// Magnitude bound on coordinates fed to the intersection code
/// (about a thousand geometric units).
pub const GEOM_BOUND: i64 = 0x10_0000;

/// Magnitude bound on ray parameters (about a million geometric units).
pub const T_BOUND: i64 = 0x4000_0000;

/// Component bound on any point a well-formed ray can reach within
/// `T_BOUND`.
pub const POINT_BOUND: i64 = 0x400_0000_0000;

/// The direction is not the zero vector, so the intersection quadratic
/// has a positive leading coefficient.
pub open spec fn dir_ok(d: V3) -> bool {
    v3_dot(d, d) >= 1
}

/// Well-formed ray values: bounded components and a nonzero direction.
pub open spec fn ray_vals_wf(o: V3, d: V3) -> bool {
    &&& bounded(o, GEOM_BOUND as int)
    &&& bounded(d, GEOM_BOUND as int)
    &&& dir_ok(d)
}

/// A well-formed ray has well-formed origin and direction values.
pub open spec fn ray_wf(r: Ray) -> bool {
    ray_vals_wf(r.origin@, r.dir@)
}

/// The point `o + t * d` in fixed-point arithmetic.
pub open spec fn at_spec(o: V3, d: V3, t: int) -> V3 {
    v3_add(o, v3_scale(t, d))
}

/// A parametrized line: the point at parameter `t` is `origin + t * dir`.
#[derive(Clone, Copy, Debug, PartialEq, Eq, Structural)]
pub struct Ray {
    pub origin: Vec3,
    pub dir: Vec3,
}

impl Ray {
    pub fn new(origin: Vec3, dir: Vec3) -> (r: Ray)
        ensures
            r.origin == origin,
            r.dir == dir,
    {
        Ray { origin, dir }
    }

    /// The point the ray reaches at parameter `t`; valid for any `t` in
    /// range, including negative values behind the origin.
    pub fn at(&self, t: i64) -> (p: Vec3)
        requires
            -T_BOUND <= t <= T_BOUND,
            bounded(self.origin@, GEOM_BOUND as int),
            bounded(self.dir@, GEOM_BOUND as int),
        ensures
            p@ == at_spec(self.origin@, self.dir@, t as int),
            bounded(p@, POINT_BOUND as int),
    {
        proof {
            assert(-0x4_0000_0000_0000 <= t * self.dir@.x <= 0x4_0000_0000_0000) by (nonlinear_arith)
                requires
                    -0x4000_0000 <= t <= 0x4000_0000,
                    -0x10_0000 <= self.dir@.x <= 0x10_0000,
            ;
            assert(-0x4_0000_0000_0000 <= t * self.dir@.y <= 0x4_0000_0000_0000) by (nonlinear_arith)
                requires
                    -0x4000_0000 <= t <= 0x4000_0000,
                    -0x10_0000 <= self.dir@.y <= 0x10_0000,
            ;
            assert(-0x4_0000_0000_0000 <= t * self.dir@.z <= 0x4_0000_0000_0000) by (nonlinear_arith)
                requires
                    -0x4000_0000 <= t <= 0x4000_0000,
                    -0x10_0000 <= self.dir@.z <= 0x10_0000,
            ;
            lemma_div_mul_bound(t * self.dir@.x, SCALE as int);
            lemma_div_mul_bound(t * self.dir@.y, SCALE as int);
            lemma_div_mul_bound(t * self.dir@.z, SCALE as int);
        }
        self.origin.add(&self.dir.scale(t))
    }
}

} // verus!
