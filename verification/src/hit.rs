//! Ray-primitive intersection: hit records, the sphere primitive, and the
//! exact quadratic-root specification its `hit` method is proved against.

use vstd::prelude::*;
use vstd::arithmetic::div_mod::{lemma_div_is_ordered, lemma_fundamental_div_mod};
use crate::num::{div_floor, isqrt, lemma_div_mul_bound, lemma_sqrt_exists, sqrt_floor, SCALE};
use crate::ray::{at_spec, dir_ok, ray_wf, Ray, GEOM_BOUND, POINT_BOUND, T_BOUND};
use crate::vec3::{bounded, v3_dot, v3_sub, Vec3, V3};

verus! {

/// Mathematical view of a hit record.
pub ghost struct HitV {
    pub point: V3,
    pub normal: V3,
    pub t: int,
}

/// Result of a successful intersection: the point reached, the outward
/// surface normal there (not flipped toward the ray), and the ray
/// parameter of the hit.
#[derive(Clone, Copy, Debug, PartialEq, Eq, Structural)]
pub struct HitRecord {
    pub point: Vec3,
    pub normal: Vec3,
    pub t: i64,
}

impl View for HitRecord {
    type V = HitV;

    open spec fn view(&self) -> HitV {
        HitV { point: self.point@, normal: self.normal@, t: self.t as int }
    }
}

/// Mathematical view of an optional hit record.
pub open spec fn opt_view(o: Option<HitRecord>) -> Option<HitV> {
    match o {
        Option::None => Option::None,
        Option::Some(h) => Option::Some(h@),
    }
}

/// A sphere, the one primitive kind: fixed-point center and radius.
#[derive(Clone, Copy, Debug, PartialEq, Eq, Structural)]
pub struct Sphere {
    pub center: Vec3,
    pub radius: i64,
}

/// Well-formed sphere: bounded center and a strictly positive radius.
pub open spec fn sphere_wf(s: Sphere) -> bool {
    &&& bounded(s.center@, GEOM_BOUND as int)
    &&& 1 <= s.radius <= GEOM_BOUND
}

/// Offset from the sphere's center to the ray's origin.
pub open spec fn oc_of(s: Sphere, o: V3) -> V3 {
    v3_sub(o, s.center@)
}

/// Leading coefficient of the intersection quadratic: `dot(d, d)`.
pub open spec fn quad_a(d: V3) -> int {
    v3_dot(d, d)
}

/// Half the middle coefficient: `dot(oc, d)`.
pub open spec fn quad_half_b(s: Sphere, o: V3, d: V3) -> int {
    v3_dot(oc_of(s, o), d)
}

/// Constant coefficient: `dot(oc, oc) - radius^2`.
pub open spec fn quad_c(s: Sphere, o: V3) -> int {
    v3_dot(oc_of(s, o), oc_of(s, o)) - s.radius * s.radius
}

/// Discriminant of the intersection quadratic (with two `SCALE` factors
/// squared); negative exactly when the ray's line misses the sphere.
pub open spec fn discriminant(s: Sphere, o: V3, d: V3) -> int {
    quad_half_b(s, o, d) * quad_half_b(s, o, d) - quad_a(d) * quad_c(s, o)
}

/// The smaller root of the quadratic, as a fixed-point ray parameter.
pub open spec fn root_low(s: Sphere, o: V3, d: V3) -> int {
    ((-quad_half_b(s, o, d) - sqrt_floor(discriminant(s, o, d))) * (SCALE as int)) / quad_a(d)
}

/// The larger root of the quadratic, as a fixed-point ray parameter.
pub open spec fn root_high(s: Sphere, o: V3, d: V3) -> int {
    ((-quad_half_b(s, o, d) + sqrt_floor(discriminant(s, o, d))) * (SCALE as int)) / quad_a(d)
}

/// The accepted parameter interval: `t_min` exclusive (to avoid
/// self-intersection at the ray's own origin), `t_max` inclusive.
pub open spec fn in_interval(t: int, t_min: int, t_max: int) -> bool {
    t_min < t <= t_max
}

/// Outward unit normal (in fixed-point) at point `p` of sphere `s`:
/// `(p - center) * SCALE / radius`, componentwise.
pub open spec fn normal_spec(s: Sphere, p: V3) -> V3 {
    V3 {
        x: ((p.x - s.center@.x) * (SCALE as int)) / (s.radius as int),
        y: ((p.y - s.center@.y) * (SCALE as int)) / (s.radius as int),
        z: ((p.z - s.center@.z) * (SCALE as int)) / (s.radius as int),
    }
}

/// The record a sphere reports for a hit at parameter `t`.
pub open spec fn hit_rec_spec(s: Sphere, o: V3, d: V3, t: int) -> HitV {
    HitV { point: at_spec(o, d, t), normal: normal_spec(s, at_spec(o, d, t)), t }
}

/// What `Sphere::hit` returns: none when the discriminant is negative,
/// otherwise the smaller root if it lies in the interval, else the larger
/// root if it does, else none.
pub open spec fn sphere_hit_spec(s: Sphere, o: V3, d: V3, t_min: int, t_max: int) -> Option<HitV> {
    if discriminant(s, o, d) < 0 {
        Option::None
    } else if in_interval(root_low(s, o, d), t_min, t_max) {
        Option::Some(hit_rec_spec(s, o, d, root_low(s, o, d)))
    } else if in_interval(root_high(s, o, d), t_min, t_max) {
        Option::Some(hit_rec_spec(s, o, d, root_high(s, o, d)))
    } else {
        Option::None
    }
}

impl Sphere {
    pub fn new(center: Vec3, radius: i64) -> (s: Sphere)
        requires
            bounded(center@, GEOM_BOUND as int),
            1 <= radius <= GEOM_BOUND,
        ensures
            s.center == center,
            s.radius == radius,
            sphere_wf(s),
    {
        Sphere { center, radius }
    }

    /// Builds the record for a hit at parameter `t`.
    fn make_record(&self, ray: &Ray, t: i64) -> (h: HitRecord)
        requires
            sphere_wf(*self),
            ray_wf(*ray),
            -T_BOUND <= t <= T_BOUND,
        ensures
            h@ == hit_rec_spec(*self, ray.origin@, ray.dir@, t as int),
    {
        let point = ray.at(t);
        let pc = point.sub(&self.center);
        let nx = div_floor(pc.x * SCALE, self.radius);
        let ny = div_floor(pc.y * SCALE, self.radius);
        let nz = div_floor(pc.z * SCALE, self.radius);
        HitRecord { point, normal: Vec3 { x: nx, y: ny, z: nz }, t }
    }

    /// Nearest intersection whose parameter lies in `(t_min, t_max]`, or
    /// none.  The result is pinned exactly by `sphere_hit_spec`.
    pub fn hit(&self, ray: &Ray, t_min: i64, t_max: i64) -> (r: Option<HitRecord>)
        requires
            sphere_wf(*self),
            ray_wf(*ray),
            -T_BOUND <= t_min <= t_max <= T_BOUND,
        ensures
            opt_view(r) == sphere_hit_spec(*self, ray.origin@, ray.dir@, t_min as int, t_max as int),
    {
        let oc = ray.origin.sub(&self.center);
        let a = ray.dir.dot(&ray.dir);
        let half_b = oc.dot(&ray.dir);
        let oc_oc = oc.dot(&oc);
        proof {
            assert(0 <= self.radius * self.radius <= 0x100_0000_0000) by (nonlinear_arith)
                requires
                    1 <= self.radius <= 0x10_0000,
            ;
        }
        let rr = self.radius * self.radius;
        let c = oc_oc - rr;
        proof {
            let ox = oc.x as int;
            let oy = oc.y as int;
            let oz = oc.z as int;
            let dx = ray.dir.x as int;
            let dy = ray.dir.y as int;
            let dz = ray.dir.z as int;
            assert(-0x600_0000_0000 <= ox * dx + oy * dy + oz * dz <= 0x600_0000_0000)
                by (nonlinear_arith)
                requires
                    -0x20_0000 <= ox <= 0x20_0000,
                    -0x20_0000 <= oy <= 0x20_0000,
                    -0x20_0000 <= oz <= 0x20_0000,
                    -0x10_0000 <= dx <= 0x10_0000,
                    -0x10_0000 <= dy <= 0x10_0000,
                    -0x10_0000 <= dz <= 0x10_0000,
            ;
            assert(dx * dx + dy * dy + dz * dz <= 0x300_0000_0000) by (nonlinear_arith)
                requires
                    -0x10_0000 <= dx <= 0x10_0000,
                    -0x10_0000 <= dy <= 0x10_0000,
                    -0x10_0000 <= dz <= 0x10_0000,
            ;
            assert(-0xC00_0000_0000 <= ox * ox + oy * oy + oz * oz <= 0xC00_0000_0000)
                by (nonlinear_arith)
                requires
                    -0x20_0000 <= ox <= 0x20_0000,
                    -0x20_0000 <= oy <= 0x20_0000,
                    -0x20_0000 <= oz <= 0x20_0000,
            ;
            assert(half_b == quad_half_b(*self, ray.origin@, ray.dir@));
            assert(a == quad_a(ray.dir@));
            assert(c == quad_c(*self, ray.origin@));
        }
        let hb128: i128 = half_b as i128;
        let a128: i128 = a as i128;
        let c128: i128 = c as i128;
        proof {
            let hb = hb128 as int;
            let ai = a128 as int;
            let ci = c128 as int;
            assert(0 <= hb * hb <= 0x24_0000_0000_0000_0000_0000) by (nonlinear_arith)
                requires
                    -0x600_0000_0000 <= hb <= 0x600_0000_0000,
            ;
            assert(-0x27_0000_0000_0000_0000_0000 <= ai * ci <= 0x27_0000_0000_0000_0000_0000)
                by (nonlinear_arith)
                requires
                    0 <= ai <= 0x300_0000_0000,
                    -0xD00_0000_0000 <= ci <= 0xD00_0000_0000,
            ;
        }
        let disc: i128 = hb128 * hb128 - a128 * c128;
        proof {
            assert(disc as int == discriminant(*self, ray.origin@, ray.dir@));
        }
        if disc < 0 {
            return None;
        }
        let s_root: u64 = isqrt(disc as u128);
        let s64: i64 = s_root as i64;
        proof {
            assert(s64 == sqrt_floor(discriminant(*self, ray.origin@, ray.dir@)));
        }
        let t1 = div_floor((-half_b - s64) * SCALE, a);
        if t_min < t1 && t1 <= t_max {
            return Some(self.make_record(ray, t1));
        }
        let t2 = div_floor((-half_b + s64) * SCALE, a);
        if t_min < t2 && t2 <= t_max {
            return Some(self.make_record(ray, t2));
        }
        None
    }
}

/// Component bound on any normal a well-formed sphere can report.
pub const NORMAL_BOUND: i64 = 0x20_0000_0000_0000;

/// A point reached within the parameter bound has bounded components.
pub proof fn lemma_at_bounded(o: V3, d: V3, t: int)
    requires
        bounded(o, GEOM_BOUND as int),
        bounded(d, GEOM_BOUND as int),
        -T_BOUND <= t <= T_BOUND,
    ensures
        bounded(at_spec(o, d, t), POINT_BOUND as int),
{
    assert(-0x4_0000_0000_0000 <= t * d.x <= 0x4_0000_0000_0000) by (nonlinear_arith)
        requires
            -0x4000_0000 <= t <= 0x4000_0000,
            -0x10_0000 <= d.x <= 0x10_0000,
    ;
    assert(-0x4_0000_0000_0000 <= t * d.y <= 0x4_0000_0000_0000) by (nonlinear_arith)
        requires
            -0x4000_0000 <= t <= 0x4000_0000,
            -0x10_0000 <= d.y <= 0x10_0000,
    ;
    assert(-0x4_0000_0000_0000 <= t * d.z <= 0x4_0000_0000_0000) by (nonlinear_arith)
        requires
            -0x4000_0000 <= t <= 0x4000_0000,
            -0x10_0000 <= d.z <= 0x10_0000,
    ;
    lemma_div_mul_bound(t * d.x, SCALE as int);
    lemma_div_mul_bound(t * d.y, SCALE as int);
    lemma_div_mul_bound(t * d.z, SCALE as int);
}

/// The normal a well-formed sphere reports at a bounded point has
/// bounded components.
pub proof fn lemma_normal_bounded(s: Sphere, p: V3)
    requires
        sphere_wf(s),
        bounded(p, POINT_BOUND as int),
    ensures
        bounded(normal_spec(s, p), NORMAL_BOUND as int),
{
    let r = s.radius as int;
    let nx = (p.x - s.center@.x) * (SCALE as int);
    let ny = (p.y - s.center@.y) * (SCALE as int);
    let nz = (p.z - s.center@.z) * (SCALE as int);
    lemma_div_mul_bound(nx, r);
    lemma_div_mul_bound(ny, r);
    lemma_div_mul_bound(nz, r);
    assert(-0x20_0000_0000_0000 <= nx / r <= 0x20_0000_0000_0000) by (nonlinear_arith)
        requires
            1 <= r <= 0x10_0000,
            -0x10_0000_0000_0000 <= nx <= 0x10_0000_0000_0000,
            r * (nx / r) <= nx < r * (nx / r) + r,
    ;
    assert(-0x20_0000_0000_0000 <= ny / r <= 0x20_0000_0000_0000) by (nonlinear_arith)
        requires
            1 <= r <= 0x10_0000,
            -0x10_0000_0000_0000 <= ny <= 0x10_0000_0000_0000,
            r * (ny / r) <= ny < r * (ny / r) + r,
    ;
    assert(-0x20_0000_0000_0000 <= nz / r <= 0x20_0000_0000_0000) by (nonlinear_arith)
        requires
            1 <= r <= 0x10_0000,
            -0x10_0000_0000_0000 <= nz <= 0x10_0000_0000_0000,
            r * (nz / r) <= nz < r * (nz / r) + r,
    ;
}

/// With a nonnegative discriminant the smaller root really is the
/// smaller one.
pub proof fn lemma_root_order(s: Sphere, o: V3, d: V3)
    requires
        dir_ok(d),
        discriminant(s, o, d) >= 0,
    ensures
        root_low(s, o, d) <= root_high(s, o, d),
{
    lemma_sqrt_exists(discriminant(s, o, d));
    let sq = sqrt_floor(discriminant(s, o, d));
    let hb = quad_half_b(s, o, d);
    lemma_div_is_ordered(
        (-hb - sq) * (SCALE as int),
        (-hb + sq) * (SCALE as int),
        quad_a(d),
    );
}

/// Widening the upper end of the interval keeps any hit found in the
/// narrower one, record and all.
pub proof fn lemma_sphere_hit_widen(s: Sphere, o: V3, d: V3, t_min: int, cur: int, t_max: int)
    requires
        dir_ok(d),
        cur <= t_max,
    ensures
        (match sphere_hit_spec(s, o, d, t_min, cur) {
            Option::Some(h) => sphere_hit_spec(s, o, d, t_min, t_max) == Option::Some(h),
            Option::None => true,
        }),
{
    match sphere_hit_spec(s, o, d, t_min, cur) {
        Option::Some(h) => {
            lemma_root_order(s, o, d);
        },
        Option::None => {},
    }
}

/// Any record a sphere reports lies in the queried interval, is exactly
/// the record of one of the two quadratic roots, and has bounded point
/// and normal components.
pub proof fn lemma_sphere_hit_props(s: Sphere, o: V3, d: V3, t_min: int, t_max: int)
    requires
        sphere_wf(s),
        bounded(o, GEOM_BOUND as int),
        bounded(d, GEOM_BOUND as int),
        -T_BOUND <= t_min <= t_max <= T_BOUND,
    ensures
        (match sphere_hit_spec(s, o, d, t_min, t_max) {
            Option::Some(h) => {
                &&& in_interval(h.t, t_min, t_max)
                &&& h == hit_rec_spec(s, o, d, h.t)
                &&& (h.t == root_low(s, o, d) || h.t == root_high(s, o, d))
                &&& discriminant(s, o, d) >= 0
                &&& bounded(h.point, POINT_BOUND as int)
                &&& bounded(h.normal, NORMAL_BOUND as int)
            },
            Option::None => true,
        }),
{
    match sphere_hit_spec(s, o, d, t_min, t_max) {
        Option::Some(h) => {
            lemma_at_bounded(o, d, h.t);
            lemma_normal_bounded(s, at_spec(o, d, h.t));
        },
        Option::None => {},
    }
}

/// A ray whose line passes the center at more than the radius misses the
/// sphere entirely: for a nonzero direction, `a * c > half_b * half_b`
/// states exactly that the squared perpendicular distance from the
/// center to the line exceeds the squared radius, and no interval
/// contains a hit.
pub proof fn lemma_sphere_misses(s: Sphere, o: V3, d: V3, t_min: int, t_max: int)
    requires
        quad_a(d) * quad_c(s, o) > quad_half_b(s, o, d) * quad_half_b(s, o, d),
    ensures
        sphere_hit_spec(s, o, d, t_min, t_max) == Option::<HitV>::None,
{
}

/// Shrinking the interval can only drop a hit, never introduce one: a
/// hit found in the narrower interval lies in the wider one too, and the
/// wider query returns a hit at most as far along the ray.
pub proof fn lemma_sphere_hit_monotonic(
    s: Sphere,
    o: V3,
    d: V3,
    t_min: int,
    t_max: int,
    t_min2: int,
    t_max2: int,
)
    requires
        dir_ok(d),
        t_min <= t_min2,
        t_max2 <= t_max,
    ensures
        (match sphere_hit_spec(s, o, d, t_min2, t_max2) {
            Option::Some(h2) => {
                &&& in_interval(h2.t, t_min, t_max)
                &&& (match sphere_hit_spec(s, o, d, t_min, t_max) {
                    Option::Some(h1) => h1.t <= h2.t,
                    Option::None => false,
                })
            },
            Option::None => true,
        }),
{
    match sphere_hit_spec(s, o, d, t_min2, t_max2) {
        Option::Some(h2) => {
            lemma_root_order(s, o, d);
        },
        Option::None => {},
    }
}

/// A reported hit lies on the sphere's surface.  Fixed-point truncation
/// can move the point off the surface by a few units, so this states the
/// law on the inputs where the arithmetic is exact: the discriminant is
/// a perfect square, and the root and point evaluations divide without
/// remainder.  There, `|point - center|^2 == radius^2` exactly.
pub proof fn lemma_hit_point_on_sphere_exact(s: Sphere, o: V3, d: V3, t: int)
    requires
        quad_a(d) >= 1,
        discriminant(s, o, d) >= 0,
        sqrt_floor(discriminant(s, o, d)) * sqrt_floor(discriminant(s, o, d)) == discriminant(
            s,
            o,
            d,
        ),
        quad_a(d) * t == (-quad_half_b(s, o, d) - sqrt_floor(discriminant(s, o, d))) * (
        SCALE as int) || quad_a(d) * t == (-quad_half_b(s, o, d) + sqrt_floor(
            discriminant(s, o, d),
        )) * (SCALE as int),
        (t * d.x) % (SCALE as int) == 0,
        (t * d.y) % (SCALE as int) == 0,
        (t * d.z) % (SCALE as int) == 0,
    ensures
        v3_dot(
            v3_sub(at_spec(o, d, t), s.center@),
            v3_sub(at_spec(o, d, t), s.center@),
        ) == s.radius * s.radius,
{
    let ocx = o.x - s.center@.x;
    let ocy = o.y - s.center@.y;
    let ocz = o.z - s.center@.z;
    let dx = d.x as int;
    let dy = d.y as int;
    let dz = d.z as int;
    let rr = s.radius * s.radius;
    let a = quad_a(d);
    let hb = quad_half_b(s, o, d);
    let ococ = ocx * ocx + ocy * ocy + ocz * ocz;
    let dd = discriminant(s, o, d);
    let sq = sqrt_floor(dd);
    assert(a == dx * dx + dy * dy + dz * dz);
    assert(hb == ocx * dx + ocy * dy + ocz * dz);
    lemma_fundamental_div_mod(t * dx, SCALE as int);
    lemma_fundamental_div_mod(t * dy, SCALE as int);
    lemma_fundamental_div_mod(t * dz, SCALE as int);
    let qx = (t * dx) / (SCALE as int);
    let qy = (t * dy) / (SCALE as int);
    let qz = (t * dz) / (SCALE as int);
    assert(1000 * qx == t * dx);
    assert(1000 * qy == t * dy);
    assert(1000 * qz == t * dz);
    let ex = ocx + qx;
    let ey = ocy + qy;
    let ez = ocz + qz;
    let wx = 1000 * ocx + t * dx;
    let wy = 1000 * ocy + t * dy;
    let wz = 1000 * ocz + t * dz;
    let wsum = wx * wx + wy * wy + wz * wz;
    // Expand each squared component of w = 1000 * oc + t * d.
    assert(wx * wx == 1000000 * (ocx * ocx) + 2000 * (t * (ocx * dx)) + (t * t) * (dx * dx))
        by (nonlinear_arith)
        requires
            wx == 1000 * ocx + t * dx,
    ;
    assert(wy * wy == 1000000 * (ocy * ocy) + 2000 * (t * (ocy * dy)) + (t * t) * (dy * dy))
        by (nonlinear_arith)
        requires
            wy == 1000 * ocy + t * dy,
    ;
    assert(wz * wz == 1000000 * (ocz * ocz) + 2000 * (t * (ocz * dz)) + (t * t) * (dz * dz))
        by (nonlinear_arith)
        requires
            wz == 1000 * ocz + t * dz,
    ;
    // Gather the cross terms into t * half_b and the quadratic ones into
    // t^2 * a.
    assert(t * (ocx * dx) + t * (ocy * dy) + t * (ocz * dz) == t * hb) by (nonlinear_arith)
        requires
            hb == ocx * dx + ocy * dy + ocz * dz,
    ;
    assert((t * t) * (dx * dx) + (t * t) * (dy * dy) + (t * t) * (dz * dz) == (t * t) * a)
        by (nonlinear_arith)
        requires
            a == dx * dx + dy * dy + dz * dz,
    ;
    assert(wsum == 1000000 * ococ + 2000 * (t * hb) + (t * t) * a);
    // Multiply through by a and complete the square at n = a * t.
    let n = a * t;
    assert(a * wsum == 1000000 * (a * ococ) + 2000 * (a * (t * hb)) + a * ((t * t) * a))
        by (nonlinear_arith)
        requires
            wsum == 1000000 * ococ + 2000 * (t * hb) + (t * t) * a,
    ;
    assert(a * (t * hb) == hb * n) by (nonlinear_arith)
        requires
            n == a * t,
    ;
    assert(a * ((t * t) * a) == n * n) by (nonlinear_arith)
        requires
            n == a * t,
    ;
    assert((n + 1000 * hb) * (n + 1000 * hb) == n * n + 2000 * (hb * n) + 1000000 * (hb * hb))
        by (nonlinear_arith)
    ;
    // Either root makes the completed square equal 1000^2 * sq^2.
    if n == (-hb - sq) * 1000 {
        assert((n + 1000 * hb) * (n + 1000 * hb) == 1000000 * (sq * sq)) by (nonlinear_arith)
            requires
                n + 1000 * hb == -1000 * sq,
        ;
    } else {
        assert((n + 1000 * hb) * (n + 1000 * hb) == 1000000 * (sq * sq)) by (nonlinear_arith)
            requires
                n + 1000 * hb == 1000 * sq,
        ;
    }
    assert(a * ococ - a * rr == hb * hb - dd) by (nonlinear_arith)
        requires
            dd == hb * hb - a * (ococ - rr),
    ;
    // With sq * sq == dd the pieces cancel to a * wsum == 1000^2 * a * rr.
    assert(a * wsum == 1000000 * (a * rr));
    assert(wsum == 1000000 * rr) by (nonlinear_arith)
        requires
            a * wsum == 1000000 * (a * rr),
            a >= 1,
    ;
    // Fold the squares of w back into the integer point components.
    assert(wx == 1000 * ex);
    assert(wy == 1000 * ey);
    assert(wz == 1000 * ez);
    assert(wx * wx == 1000000 * (ex * ex)) by (nonlinear_arith)
        requires
            wx == 1000 * ex,
    ;
    assert(wy * wy == 1000000 * (ey * ey)) by (nonlinear_arith)
        requires
            wy == 1000 * ey,
    ;
    assert(wz * wz == 1000000 * (ez * ez)) by (nonlinear_arith)
        requires
            wz == 1000 * ez,
    ;
    assert(ex * ex + ey * ey + ez * ez == rr);
    assert(v3_sub(at_spec(o, d, t), s.center@) == (V3 { x: ex, y: ey, z: ez }));
}


} // verus!
