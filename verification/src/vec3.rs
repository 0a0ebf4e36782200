//! Three-component vectors over fixed-point scalars, with a mathematical
//! view (`V3`) over unbounded integers that the contracts speak of.

use vstd::prelude::*;
use crate::num::{div_floor, fmul, SCALE};

verus! {

/// Mathematical value of a `Vec3`: its components as unbounded integers.
pub ghost struct V3 {
    pub x: int,
    pub y: int,
    pub z: int,
}

/// A vector (or point, or color) with fixed-point components:
/// a component of `SCALE` stands for 1.0.
#[derive(Clone, Copy, Debug, PartialEq, Eq, Structural)]
pub struct Vec3 {
    pub x: i64,
    pub y: i64,
    pub z: i64,
}

impl View for Vec3 {
    type V = V3;

    open spec fn view(&self) -> V3 {
        V3 { x: self.x as int, y: self.y as int, z: self.z as int }
    }
}

/// Every component of `v` lies within `b` of zero.
pub open spec fn bounded(v: V3, b: int) -> bool {
    &&& -b <= v.x <= b
    &&& -b <= v.y <= b
    &&& -b <= v.z <= b
}

pub open spec fn v3_add(a: V3, b: V3) -> V3 {
    V3 { x: a.x + b.x, y: a.y + b.y, z: a.z + b.z }
}

pub open spec fn v3_sub(a: V3, b: V3) -> V3 {
    V3 { x: a.x - b.x, y: a.y - b.y, z: a.z - b.z }
}

/// Fixed-point scaling of a vector by the scalar `t`.
pub open spec fn v3_scale(t: int, v: V3) -> V3 {
    V3 { x: (t * v.x) / (SCALE as int), y: (t * v.y) / (SCALE as int), z: (t * v.z) / (SCALE as int) }
}

/// Dot product of the mathematical values; the result carries two factors
/// of `SCALE`.
pub open spec fn v3_dot(a: V3, b: V3) -> int {
    a.x * b.x + a.y * b.y + a.z * b.z
}

/// Component magnitude bound under which vector addition cannot overflow.
pub const ADD_BOUND: i64 = 0x2000_0000_0000_0000;

/// Component magnitude bound under which fixed-point scaling cannot overflow.
pub const SCALE_BOUND: i64 = 0x8000_0000;

/// Component magnitude bound under which a dot product cannot overflow.
pub const DOT_BOUND: i64 = 0x40_0000;

impl Vec3 {
    pub fn new(x: i64, y: i64, z: i64) -> (v: Vec3)
        ensures
            v@ == (V3 { x: x as int, y: y as int, z: z as int }),
    {
        Vec3 { x, y, z }
    }

    pub fn zero() -> (v: Vec3)
        ensures
            v@ == (V3 { x: 0int, y: 0int, z: 0int }),
    {
        Vec3 { x: 0, y: 0, z: 0 }
    }

    pub fn add(&self, o: &Vec3) -> (r: Vec3)
        requires
            bounded(self@, ADD_BOUND as int),
            bounded(o@, ADD_BOUND as int),
        ensures
            r@ == v3_add(self@, o@),
    {
        Vec3 { x: self.x + o.x, y: self.y + o.y, z: self.z + o.z }
    }

    pub fn sub(&self, o: &Vec3) -> (r: Vec3)
        requires
            bounded(self@, ADD_BOUND as int),
            bounded(o@, ADD_BOUND as int),
        ensures
            r@ == v3_sub(self@, o@),
    {
        Vec3 { x: self.x - o.x, y: self.y - o.y, z: self.z - o.z }
    }

    /// Fixed-point scaling: each component becomes `t * c / SCALE`.
    pub fn scale(&self, t: i64) -> (r: Vec3)
        requires
            -SCALE_BOUND <= t <= SCALE_BOUND,
            bounded(self@, SCALE_BOUND as int),
        ensures
            r@ == v3_scale(t as int, self@),
            bounded(r@, 0x20_0000_0000_0000),
    {
        proof {
            assert(-0x4000_0000_0000_0000 <= t * self@.x <= 0x4000_0000_0000_0000) by (nonlinear_arith)
                requires
                    -0x8000_0000 <= t <= 0x8000_0000,
                    -0x8000_0000 <= self@.x <= 0x8000_0000,
            ;
            assert(-0x4000_0000_0000_0000 <= t * self@.y <= 0x4000_0000_0000_0000) by (nonlinear_arith)
                requires
                    -0x8000_0000 <= t <= 0x8000_0000,
                    -0x8000_0000 <= self@.y <= 0x8000_0000,
            ;
            assert(-0x4000_0000_0000_0000 <= t * self@.z <= 0x4000_0000_0000_0000) by (nonlinear_arith)
                requires
                    -0x8000_0000 <= t <= 0x8000_0000,
                    -0x8000_0000 <= self@.z <= 0x8000_0000,
            ;
        }
        Vec3 { x: fmul(t, self.x), y: fmul(t, self.y), z: fmul(t, self.z) }
    }

    /// Dot product; exact, since no rescaling is involved.
    pub fn dot(&self, o: &Vec3) -> (r: i64)
        requires
            bounded(self@, DOT_BOUND as int),
            bounded(o@, DOT_BOUND as int),
        ensures
            r == v3_dot(self@, o@),
            -0x3000_0000_0000 <= r <= 0x3000_0000_0000,
    {
        proof {
            assert(-0x1000_0000_0000 <= self@.x * o@.x <= 0x1000_0000_0000) by (nonlinear_arith)
                requires
                    -0x40_0000 <= self@.x <= 0x40_0000,
                    -0x40_0000 <= o@.x <= 0x40_0000,
            ;
            assert(-0x1000_0000_0000 <= self@.y * o@.y <= 0x1000_0000_0000) by (nonlinear_arith)
                requires
                    -0x40_0000 <= self@.y <= 0x40_0000,
                    -0x40_0000 <= o@.y <= 0x40_0000,
            ;
            assert(-0x1000_0000_0000 <= self@.z * o@.z <= 0x1000_0000_0000) by (nonlinear_arith)
                requires
                    -0x40_0000 <= self@.z <= 0x40_0000,
                    -0x40_0000 <= o@.z <= 0x40_0000,
            ;
        }
        self.x * o.x + self.y * o.y + self.z * o.z
    }
}

} // verus!
