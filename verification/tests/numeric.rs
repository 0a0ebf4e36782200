use ray_tracer::div_floor;
use ray_tracer::fmul;
use ray_tracer::isqrt;
use ray_tracer::pixel_color;
use ray_tracer::Ray;
use ray_tracer::RayTracer;
use ray_tracer::Sphere;
use ray_tracer::Vec3;

#[test]
fn div_floor_rounds_toward_negative_infinity() {
    assert_eq!(div_floor(7, 2), 3);
    assert_eq!(div_floor(-7, 2), -4);
    assert_eq!(div_floor(-8, 2), -4);
    assert_eq!(div_floor(0, 5), 0);
    assert_eq!(div_floor(999, 1000), 0);
    assert_eq!(div_floor(-1, 1000), -1);
}

#[test]
fn isqrt_exact_and_floor_values() {
    assert_eq!(isqrt(0), 0);
    assert_eq!(isqrt(1), 1);
    assert_eq!(isqrt(3), 1);
    assert_eq!(isqrt(4), 2);
    assert_eq!(isqrt(3_000_000), 1732);
    assert_eq!(isqrt(250_000_000_000), 500_000);
}

#[test]
fn fmul_rescales_fixed_point_products() {
    // 1.5 * 1.5 == 2.25
    assert_eq!(fmul(1500, 1500), 2250);
    // 2.0 * -0.75 == -1.5
    assert_eq!(fmul(2000, -750), -1500);
    // Truncation rounds toward negative infinity.
    assert_eq!(fmul(1, 1), 0);
    assert_eq!(fmul(-1, 1), -1);
}

#[test]
fn ray_at_evaluates_parametrized_points() {
    let ray = Ray::new(Vec3::new(100, 200, 300), Vec3::new(10, -20, 30));
    let forward = ray.at(2500);
    assert_eq!((forward.x, forward.y, forward.z), (125, 150, 375));
    // Negative parameters walk behind the origin.
    let backward = ray.at(-1000);
    assert_eq!((backward.x, backward.y, backward.z), (90, 220, 270));
    let there = ray.at(0);
    assert_eq!((there.x, there.y, there.z), (100, 200, 300));
}

#[test]
fn vector_operations_are_exact() {
    let a = Vec3::new(1000, -2000, 3000);
    let b = Vec3::new(400, 500, -600);
    let sum = a.add(&b);
    assert_eq!((sum.x, sum.y, sum.z), (1400, -1500, 2400));
    let diff = a.sub(&b);
    assert_eq!((diff.x, diff.y, diff.z), (600, -2500, 3600));
    // 0.5 * (1, -2, 3) == (0.5, -1, 1.5)
    let half = a.scale(500);
    assert_eq!((half.x, half.y, half.z), (500, -1000, 1500));
    // (1, -2, 3) . (0.4, 0.5, -0.6) carries two SCALE factors.
    assert_eq!(a.dot(&b), 1000 * 400 + (-2000) * 500 + 3000 * (-600));
}

#[test]
fn pixel_color_matches_generated_buffer() {
    let mut tracer = RayTracer::new();
    tracer.add(Sphere::new(Vec3::new(0, 0, -1000), 500));
    tracer.resize_viewport(1000);
    let buf = tracer.generate_image(4, 4);
    for (k, pixel) in buf.iter().enumerate() {
        let single = pixel_color(&tracer.data, &tracer.scene, 4, 4, k);
        assert_eq!(*pixel, single, "pixel {}", k);
    }
}
