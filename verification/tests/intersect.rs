use ray_tracer::Ray;
use ray_tracer::Scene;
use ray_tracer::Sphere;
use ray_tracer::Vec3;

// The sphere of the standard scenario: centered one unit in front of the
// camera, radius one half (in fixed-point units, SCALE = 1000).
fn unit_scene_sphere() -> Sphere {
    Sphere::new(Vec3::new(0, 0, -1000), 500)
}

#[test]
fn center_ray_hits_sphere_exactly() {
    let sphere = unit_scene_sphere();
    let ray = Ray::new(Vec3::new(0, 0, 0), Vec3::new(0, 0, -1000));
    let hit = sphere.hit(&ray, 0, 1 << 30).expect("center ray must hit");
    assert_eq!(hit.t, 500);
    assert_eq!((hit.point.x, hit.point.y, hit.point.z), (0, 0, -500));
    assert_eq!((hit.normal.x, hit.normal.y, hit.normal.z), (0, 0, 1000));
}

#[test]
fn hit_point_lies_on_sphere_within_tolerance() {
    // An oblique ray: the hit point must satisfy |point - center| ~ radius
    // and |normal| ~ 1 within fixed-point tolerance.
    let sphere = unit_scene_sphere();
    let ray = Ray::new(Vec3::new(0, 0, 0), Vec3::new(300, 0, -1000));
    let hit = sphere.hit(&ray, 0, 1 << 30).expect("oblique ray must hit");
    let dx = (hit.point.x - sphere.center.x) as f64;
    let dy = (hit.point.y - sphere.center.y) as f64;
    let dz = (hit.point.z - sphere.center.z) as f64;
    let dist = (dx * dx + dy * dy + dz * dz).sqrt() / 1000.0;
    assert!((dist - 0.5).abs() < 0.01, "distance {} not close to radius", dist);
    let nx = hit.normal.x as f64;
    let ny = hit.normal.y as f64;
    let nz = hit.normal.z as f64;
    let nlen = (nx * nx + ny * ny + nz * nz).sqrt() / 1000.0;
    assert!((nlen - 1.0).abs() < 0.01, "normal length {} not close to 1", nlen);
}

#[test]
fn ray_missing_sphere_returns_none() {
    // Perpendicular distance from the center to the ray's line (2.0) is
    // larger than the radius (0.5).
    let sphere = Sphere::new(Vec3::new(2000, 0, -2000), 500);
    let ray = Ray::new(Vec3::new(0, 0, 0), Vec3::new(0, 0, -1000));
    assert!(sphere.hit(&ray, 0, 1 << 30).is_none());
}

#[test]
fn corner_rays_miss_unit_scene_sphere() {
    let sphere = unit_scene_sphere();
    for dir in [
        Vec3::new(-1000, 1000, -1000),
        Vec3::new(1000, 1000, -1000),
        Vec3::new(-1000, -1000, -1000),
        Vec3::new(1000, -1000, -1000),
    ] {
        let ray = Ray::new(Vec3::new(0, 0, 0), dir);
        assert!(sphere.hit(&ray, 0, 1 << 30).is_none());
    }
}

#[test]
fn interval_bounds_select_roots() {
    // Sphere two units ahead, radius one half: roots at t = 1500 and 2500.
    let sphere = Sphere::new(Vec3::new(0, 0, -2000), 500);
    let ray = Ray::new(Vec3::new(0, 0, 0), Vec3::new(0, 0, -1000));
    assert_eq!(sphere.hit(&ray, 0, 1 << 30).unwrap().t, 1500);
    // t_max is inclusive.
    assert_eq!(sphere.hit(&ray, 0, 1500).unwrap().t, 1500);
    // Shrinking below the near root drops the hit without inventing one.
    assert!(sphere.hit(&ray, 0, 1499).is_none());
    // t_min is exclusive, so the far root is chosen next.
    assert_eq!(sphere.hit(&ray, 1500, 1 << 30).unwrap().t, 2500);
    // Beyond both roots there is nothing.
    assert!(sphere.hit(&ray, 2500, 1 << 30).is_none());
}

#[test]
fn scene_returns_nearest_hit_in_any_order() {
    let near = Sphere::new(Vec3::new(0, 0, -2000), 500);
    let far = Sphere::new(Vec3::new(0, 0, -5000), 500);
    let ray = Ray::new(Vec3::new(0, 0, 0), Vec3::new(0, 0, -1000));

    let mut scene_a = Scene::new();
    scene_a.add(near);
    scene_a.add(far);
    let mut scene_b = Scene::new();
    scene_b.add(far);
    scene_b.add(near);

    let hit_a = scene_a.hit(&ray, 0, 1 << 30).expect("near sphere must be hit");
    let hit_b = scene_b.hit(&ray, 0, 1 << 30).expect("near sphere must be hit");
    assert_eq!(hit_a.t, 1500);
    assert_eq!(hit_a, hit_b);
}

#[test]
fn empty_scene_never_hits() {
    let scene = Scene::new();
    let ray = Ray::new(Vec3::new(0, 0, 0), Vec3::new(0, 0, -1000));
    assert!(scene.hit(&ray, 0, 1 << 30).is_none());
}

#[test]
fn scene_respects_shrunken_interval() {
    let near = Sphere::new(Vec3::new(0, 0, -2000), 500);
    let far = Sphere::new(Vec3::new(0, 0, -5000), 500);
    let mut scene = Scene::new();
    scene.add(near);
    scene.add(far);
    let ray = Ray::new(Vec3::new(0, 0, 0), Vec3::new(0, 0, -1000));
    // Excluding the near sphere's close root leaves its far root nearest.
    assert_eq!(scene.hit(&ray, 1500, 1 << 30).unwrap().t, 2500);
    // Beyond the near sphere entirely, the far sphere is nearest.
    assert_eq!(scene.hit(&ray, 2500, 1 << 30).unwrap().t, 4500);
    // Cutting below every root leaves nothing.
    assert!(scene.hit(&ray, 0, 1400).is_none());
}
