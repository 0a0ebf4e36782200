//! The render engine: builds one ray per pixel from the camera model,
//! queries the scene, shades, and fills the row-major pixel buffer.

use vstd::prelude::*;
use vstd::arithmetic::div_mod::{lemma_div_is_ordered, lemma_fundamental_div_mod_converse};
use crate::camera::{camera_wf, derived_ok, Data, ASPECT_BOUND};
use crate::hit::{HitV, Sphere, NORMAL_BOUND};
use crate::num::{div_floor, isqrt, lemma_div_mul_bound, sqrt_floor, SCALE};
use crate::ray::{dir_ok, ray_wf, Ray, GEOM_BOUND, T_BOUND};
use crate::scene::{lemma_scene_hit_props, scene_hit_spec, scene_wf, Scene};
use crate::vec3::{bounded, v3_add, v3_dot, v3_scale, Vec3, V3};

verus! {

/// Largest image dimension the engine accepts on either axis.
pub const DIM_BOUND: usize = 0x8000;

/// Pure white, in fixed-point color components.
pub open spec fn white_color() -> V3 {
    V3 { x: SCALE as int, y: SCALE as int, z: SCALE as int }
}

/// The light blue at the top of the background gradient (0.5, 0.7, 1.0).
pub open spec fn sky_color() -> V3 {
    V3 { x: 500, y: 700, z: SCALE as int }
}

/// Gradient parameter `0.5 * (unit_dir.y + 1)` in fixed point, where the
/// direction is normalized by its fixed-point length.
pub open spec fn bg_t(d: V3) -> int {
    ((d.y * (SCALE as int)) / sqrt_floor(v3_dot(d, d)) + SCALE) / 2
}

/// Background gradient: white at the horizon blending to `sky_color`
/// toward the zenith.
pub open spec fn background_spec(d: V3) -> V3 {
    v3_add(v3_scale(SCALE - bg_t(d), white_color()), v3_scale(bg_t(d), sky_color()))
}

/// Normal-based shading of a hit: maps each normal component from
/// [-1, 1] to [0, 1] by `0.5 * (n + 1)`.
pub open spec fn shade_hit_spec(h: HitV) -> V3 {
    V3 {
        x: (h.normal.x + SCALE) / 2,
        y: (h.normal.y + SCALE) / 2,
        z: (h.normal.z + SCALE) / 2,
    }
}

/// The color of a ray: the shaded nearest hit over `(0, T_BOUND]`, or
/// the background gradient when nothing is hit.
pub open spec fn ray_color_spec(spheres: Seq<Sphere>, o: V3, d: V3) -> V3 {
    match scene_hit_spec(spheres, o, d, 0, T_BOUND as int) {
        Option::Some(h) => shade_hit_spec(h),
        Option::None => background_spec(d),
    }
}

/// Vertical viewport coordinate of pixel `idx`, in fixed point: the row
/// is decoded as `h - idx / w - 1` so index 0 maps to the top row.
pub open spec fn pixel_u(h: int, w: int, idx: int) -> int {
    ((h - idx / w - 1) * (SCALE as int)) / (h - 1)
}

/// Horizontal viewport coordinate of pixel `idx`, in fixed point.
pub open spec fn pixel_v(w: int, idx: int) -> int {
    ((idx % w) * (SCALE as int)) / (w - 1)
}

/// Direction of the ray cast for pixel `idx` of a `w` by `h` image:
/// `lower_left_corner + u * vertical + v * horizontal`.
pub open spec fn ray_dir_spec(d: Data, w: int, h: int, idx: int) -> V3 {
    v3_add(
        d.lower_left_corner@,
        v3_add(
            v3_scale(pixel_u(h, w, idx), d.vertical@),
            v3_scale(pixel_v(w, idx), d.horizontal@),
        ),
    )
}

/// The color of pixel `idx` of a `w` by `h` image: the color of its ray,
/// cast from the camera origin.
pub open spec fn pixel_spec(d: Data, spheres: Seq<Sphere>, w: int, h: int, idx: int) -> V3 {
    ray_color_spec(spheres, d.origin@, ray_dir_spec(d, w, h, idx))
}

/// Colors one ray against the scene: normal-based shading on a hit, the
/// background gradient otherwise.
pub fn ray_color(scene: &Scene, ray: &Ray) -> (color: Vec3)
    requires
        scene_wf(scene.spheres@),
        ray_wf(*ray),
    ensures
        color@ == ray_color_spec(scene.spheres@, ray.origin@, ray.dir@),
{
    proof {
        lemma_scene_hit_props(scene.spheres@, ray.origin@, ray.dir@, 0, T_BOUND as int);
    }
    let res = scene.hit(ray, 0, T_BOUND);
    match res {
        Option::Some(h) => {
            let cx = div_floor(h.normal.x + SCALE, 2);
            let cy = div_floor(h.normal.y + SCALE, 2);
            let cz = div_floor(h.normal.z + SCALE, 2);
            Vec3 { x: cx, y: cy, z: cz }
        },
        Option::None => {
            let a = ray.dir.dot(&ray.dir);
            let len_u = isqrt(a as u128);
            let len = len_u as i64;
            proof {
                assert(len >= 1);
            }
            let uy = div_floor(ray.dir.y * SCALE, len);
            proof {
                assert(-0x4000_0000 <= uy <= 0x4000_0000) by (nonlinear_arith)
                    requires
                        1 <= len,
                        (len as int) * (uy as int) <= ray.dir.y * SCALE
                            < (len as int) * (uy as int) + len,
                        -0x4000_0000 <= ray.dir.y * SCALE <= 0x4000_0000,
                ;
            }
            let t = div_floor(uy + SCALE, 2);
            let st = SCALE - t;
            let white = Vec3::new(SCALE, SCALE, SCALE);
            let sky = Vec3::new(500, 700, SCALE);
            white.scale(st).add(&sky.scale(t))
        },
    }
}

/// Colors one pixel: decodes the row and column, builds the ray through
/// the viewport, and colors it against the scene.
pub fn pixel_color(data: &Data, scene: &Scene, width: usize, height: usize, idx: usize) -> (c:
    Vec3)
    requires
        camera_wf(*data),
        derived_ok(*data),
        scene_wf(scene.spheres@),
        2 <= width <= DIM_BOUND,
        2 <= height <= DIM_BOUND,
        idx < width * height,
    ensures
        c@ == pixel_spec(*data, scene.spheres@, width as int, height as int, idx as int),
{
    proof {
        let wi = width as int;
        let hi = height as int;
        assert(wi * hi - 1 == (hi - 1) * wi + (wi - 1)) by (nonlinear_arith);
        lemma_fundamental_div_mod_converse(wi * hi - 1, wi, hi - 1, wi - 1);
        lemma_div_is_ordered(idx as int, wi * hi - 1, wi);
    }
    let i: usize = height - idx / width - 1;
    let j: usize = idx % width;
    let u: i64 = div_floor((i as i64) * SCALE, (height as i64) - 1);
    let v: i64 = div_floor((j as i64) * SCALE, (width as i64) - 1);
    proof {
        let hi1 = height as int - 1;
        let wi1 = width as int - 1;
        assert(0 <= u <= SCALE) by (nonlinear_arith)
            requires
                1 <= hi1,
                0 <= i as int <= hi1,
                (hi1) * (u as int) <= (i as int) * (SCALE as int)
                    < (hi1) * (u as int) + hi1,
        ;
        assert(0 <= v <= SCALE) by (nonlinear_arith)
            requires
                1 <= wi1,
                0 <= j as int <= wi1,
                (wi1) * (v as int) <= (j as int) * (SCALE as int)
                    < (wi1) * (v as int) + wi1,
        ;
        let vh = data.viewport_height as int;
        let vw = data.viewport_width as int;
        assert(0 <= (u as int) * vh <= 8_000_000) by (nonlinear_arith)
            requires
                0 <= u <= 1000,
                1 <= vh <= 8000,
        ;
        assert(0 <= (v as int) * vw <= 32_000_000) by (nonlinear_arith)
            requires
                0 <= v <= 1000,
                0 <= vw <= 32000,
        ;
        lemma_div_mul_bound((u as int) * vh, SCALE as int);
        lemma_div_mul_bound((v as int) * vw, SCALE as int);
    }
    let su = data.vertical.scale(u);
    let sv = data.horizontal.scale(v);
    let dir = data.lower_left_corner.add(&su.add(&sv));
    proof {
        assert(bounded(dir@, GEOM_BOUND as int));
        let ddx = dir@.x;
        let ddy = dir@.y;
        let ddz = dir@.z;
        assert(ddz <= -1);
        assert(ddx * ddx + ddy * ddy + ddz * ddz >= 1) by (nonlinear_arith)
            requires
                ddz <= -1,
        ;
        assert(dir_ok(dir@));
    }
    let ray = Ray::new(data.origin, dir);
    ray_color(scene, &ray)
}

/// The render core: camera state and the scene it draws.
pub struct RayTracer {
    pub data: Data,
    pub scene: Scene,
}

impl RayTracer {
    /// A tracer with the default camera and an empty scene.
    pub fn new() -> (rt: RayTracer)
        ensures
            rt.data.origin@ == (V3 { x: 0int, y: 0int, z: 0int }),
            rt.data.viewport_height == 2 * SCALE,
            rt.data.viewport_width == 2 * SCALE,
            rt.data.focal_length == SCALE,
            rt.data.horizontal@ == (V3 { x: 0int, y: 0int, z: 0int }),
            rt.data.vertical@ == (V3 { x: 0int, y: 0int, z: 0int }),
            rt.data.lower_left_corner@ == (V3 { x: 0int, y: 0int, z: 0int }),
            rt.scene.spheres@.len() == 0,
            camera_wf(rt.data),
    {
        RayTracer { data: Data::default(), scene: Scene::new() }
    }

    /// Takes ownership of a primitive and adds it to the scene.
    pub fn add(&mut self, sphere: Sphere)
        ensures
            final(self).scene.spheres@ == old(self).scene.spheres@.push(sphere),
            final(self).data == old(self).data,
    {
        self.scene.add(sphere);
    }

    /// Recomputes the viewport for a new aspect ratio; must be called
    /// whenever the presentation layer's aspect ratio changes, and never
    /// concurrently with a render.
    pub fn resize_viewport(&mut self, aspect_ratio: i64)
        requires
            camera_wf(old(self).data),
            1 <= aspect_ratio <= ASPECT_BOUND,
        ensures
            final(self).scene == old(self).scene,
            final(self).data.origin == old(self).data.origin,
            final(self).data.viewport_height == old(self).data.viewport_height,
            final(self).data.focal_length == old(self).data.focal_length,
            final(self).data.viewport_width == (old(self).data.viewport_height * aspect_ratio)
                / (SCALE as int),
            camera_wf(final(self).data),
            derived_ok(final(self).data),
    {
        self.data.recalculate(aspect_ratio);
    }

    /// Renders the scene into a flat row-major pixel buffer, top row
    /// first: entry `k` is exactly `pixel_spec` of `k`.  Pixels are
    /// independent of one another, so callers may also compute them in
    /// any order with `pixel_color`.
    pub fn generate_image(&self, width: usize, height: usize) -> (buf: Vec<Vec3>)
        requires
            camera_wf(self.data),
            derived_ok(self.data),
            scene_wf(self.scene.spheres@),
            2 <= width <= DIM_BOUND,
            2 <= height <= DIM_BOUND,
        ensures
            buf@.len() == width * height,
            forall|k: int|
                0 <= k < buf@.len() ==> #[trigger] buf@[k]@ == pixel_spec(
                    self.data,
                    self.scene.spheres@,
                    width as int,
                    height as int,
                    k,
                ),
    {
        proof {
            assert((width as int) * (height as int) <= 0x4000_0000) by (nonlinear_arith)
                requires
                    width <= 0x8000,
                    height <= 0x8000,
            ;
            assert((width as int) * (height as int) >= 4) by (nonlinear_arith)
                requires
                    width >= 2,
                    height >= 2,
            ;
        }
        let total: usize = width * height;
        let mut buf: Vec<Vec3> = Vec::new();
        let mut k: usize = 0;
        while k < total
            invariant
                camera_wf(self.data),
                derived_ok(self.data),
                scene_wf(self.scene.spheres@),
                2 <= width <= DIM_BOUND,
                2 <= height <= DIM_BOUND,
                total == width * height,
                0 <= k <= total,
                buf@.len() == k,
                forall|jj: int|
                    0 <= jj < k ==> #[trigger] buf@[jj]@ == pixel_spec(
                        self.data,
                        self.scene.spheres@,
                        width as int,
                        height as int,
                        jj,
                    ),
            decreases total - k,
        {
            let c = pixel_color(&self.data, &self.scene, width, height, k);
            buf.push(c);
            k += 1;
        }
        buf
    }
}

/// With no primitives in the scene, every pixel is exactly the
/// background gradient of its ray: the hit path is never taken.
pub proof fn lemma_empty_scene_background(
    d: Data,
    spheres: Seq<Sphere>,
    w: int,
    h: int,
    idx: int,
)
    requires
        spheres.len() == 0,
    ensures
        pixel_spec(d, spheres, w, h, idx) == background_spec(ray_dir_spec(d, w, h, idx)),
{
}

/// Rendering is deterministic: any two buffers meeting the
/// `generate_image` contract for the same camera, scene, and resolution
/// are equal, so repeated renders with no state change in between yield
/// identical output.
pub proof fn lemma_generate_image_deterministic(
    b1: Seq<Vec3>,
    b2: Seq<Vec3>,
    d: Data,
    spheres: Seq<Sphere>,
    w: int,
    h: int,
)
    requires
        b1.len() == w * h,
        b2.len() == w * h,
        forall|k: int| 0 <= k < b1.len() ==> #[trigger] b1[k]@ == pixel_spec(d, spheres, w, h, k),
        forall|k: int| 0 <= k < b2.len() ==> #[trigger] b2[k]@ == pixel_spec(d, spheres, w, h, k),
    ensures
        b1 == b2,
{
    assert forall|k: int| 0 <= k < b1.len() implies b1[k] == b2[k] by {
        assert(b1[k]@ == b2[k]@);
        assert(b1[k].x == b2[k].x && b1[k].y == b2[k].y && b1[k].z == b2[k].z);
    }
    assert(b1 =~= b2);
}

} // verus!
