use ray_tracer::ray_color;
use ray_tracer::Ray;
use ray_tracer::RayTracer;
use ray_tracer::Scene;
use ray_tracer::Sphere;
use ray_tracer::Vec3;

fn rgb(v: &Vec3) -> (i64, i64, i64) {
    (v.x, v.y, v.z)
}

#[test]
fn default_camera_recalculates_viewport() {
    let mut tracer = RayTracer::new();
    tracer.resize_viewport(1000);
    assert_eq!(tracer.data.viewport_width, 2000);
    assert_eq!(rgb(&tracer.data.horizontal), (2000, 0, 0));
    assert_eq!(rgb(&tracer.data.vertical), (0, 2000, 0));
    assert_eq!(rgb(&tracer.data.lower_left_corner), (-1000, -1000, -1000));
}

#[test]
fn wide_viewport_recalculates_corner() {
    let mut tracer = RayTracer::new();
    tracer.resize_viewport(2000);
    assert_eq!(tracer.data.viewport_width, 4000);
    assert_eq!(rgb(&tracer.data.lower_left_corner), (-2000, -1000, -1000));
    // The upper-right corner mirrors the lower-left about the forward axis.
    let urx = tracer.data.lower_left_corner.x + tracer.data.horizontal.x;
    let ury = tracer.data.lower_left_corner.y + tracer.data.vertical.y;
    let urz = tracer.data.lower_left_corner.z;
    assert_eq!((urx, ury, urz), (2000, 1000, -1000));
    assert_eq!(urx + tracer.data.lower_left_corner.x, 0);
    assert_eq!(ury + tracer.data.lower_left_corner.y, 0);
}

#[test]
fn single_sphere_three_by_three_image() {
    // One sphere at (0, 0, -1), radius 0.5, default camera, aspect 1.0:
    // the center ray hits head on; every other ray shows the gradient.
    let mut tracer = RayTracer::new();
    tracer.add(Sphere::new(Vec3::new(0, 0, -1000), 500));
    tracer.resize_viewport(1000);
    let buf = tracer.generate_image(3, 3);
    assert_eq!(buf.len(), 9);
    let expected: [(i64, i64, i64); 9] = [
        (606, 763, 1000),
        (573, 744, 1000),
        (606, 763, 1000),
        (750, 850, 1000),
        (500, 500, 1000),
        (750, 850, 1000),
        (894, 936, 1000),
        (927, 956, 1000),
        (894, 936, 1000),
    ];
    for (k, want) in expected.iter().enumerate() {
        assert_eq!(rgb(&buf[k]), *want, "pixel {}", k);
    }
}

#[test]
fn single_sphere_two_by_two_all_corners_miss() {
    // At 2x2 every ray goes through a viewport corner and misses the
    // sphere, so the image equals the pure background render.
    let mut with_sphere = RayTracer::new();
    with_sphere.add(Sphere::new(Vec3::new(0, 0, -1000), 500));
    with_sphere.resize_viewport(1000);
    let mut empty = RayTracer::new();
    empty.resize_viewport(1000);
    assert_eq!(with_sphere.generate_image(2, 2), empty.generate_image(2, 2));
}

#[test]
fn empty_scene_is_pure_gradient() {
    let mut tracer = RayTracer::new();
    tracer.resize_viewport(1000);
    let buf = tracer.generate_image(2, 2);
    assert_eq!(buf.len(), 4);
    // Top row: unit-direction y is positive, darker blue.
    assert_eq!(rgb(&buf[0]), (606, 763, 1000));
    assert_eq!(rgb(&buf[1]), (606, 763, 1000));
    // Bottom row: unit-direction y is negative, nearly white.
    assert_eq!(rgb(&buf[2]), (894, 936, 1000));
    assert_eq!(rgb(&buf[3]), (894, 936, 1000));
}

#[test]
fn generate_image_is_idempotent() {
    let mut tracer = RayTracer::new();
    tracer.add(Sphere::new(Vec3::new(0, 0, -1000), 500));
    tracer.add(Sphere::new(Vec3::new(700, -200, -2000), 400));
    tracer.resize_viewport(1000);
    let first = tracer.generate_image(8, 6);
    let second = tracer.generate_image(8, 6);
    assert_eq!(first, second);
}

#[test]
fn gradient_endpoints_match_formula() {
    let scene = Scene::new();
    // Straight up: t = 1, pure sky color (0.5, 0.7, 1.0).
    let up = ray_color(&scene, &Ray::new(Vec3::new(0, 0, 0), Vec3::new(0, 1000, 0)));
    assert_eq!(rgb(&up), (500, 700, 1000));
    // Horizontal: t = 1/2, halfway between white and sky.
    let level = ray_color(&scene, &Ray::new(Vec3::new(0, 0, 0), Vec3::new(1000, 0, 0)));
    assert_eq!(rgb(&level), (750, 850, 1000));
}

#[test]
fn shaded_hit_maps_normal_to_color() {
    let mut scene = Scene::new();
    scene.add(Sphere::new(Vec3::new(0, 0, -1000), 500));
    // Head-on hit: normal (0, 0, 1) shades to (0.5, 0.5, 1.0).
    let c = ray_color(&scene, &Ray::new(Vec3::new(0, 0, 0), Vec3::new(0, 0, -1000)));
    assert_eq!(rgb(&c), (500, 500, 1000));
}
