use pathtracer::fp::{DIST_MAX, SCALE};
use pathtracer::material::Material;
use pathtracer::object::{Object, Sphere};
use pathtracer::ray::Ray;
use pathtracer::trace::sky;
use pathtracer::vec3::Vec3;
use pathtracer::world::World;

fn red_lambertian() -> Material {
    Material::new_lambertian(Vec3::new(SCALE / 2, 0, 0))
}

#[test]
fn head_on_sphere_hit() {
    let ray = Ray::new(Vec3::new(0, 0, 0), Vec3::new(0, 0, SCALE));
    let sphere = Sphere::new(Vec3::new(0, 0, 5 * SCALE), SCALE, red_lambertian());
    let hit = ray.hits(&sphere, 1, DIST_MAX).expect("the ray crosses the sphere");
    assert_eq!(hit.distance, 4 * SCALE);
    assert_eq!((hit.point.x, hit.point.y, hit.point.z), (0, 0, 4 * SCALE));
    assert_eq!((hit.normal.x, hit.normal.y, hit.normal.z), (0, 0, -SCALE));
    assert!(hit.faces_ray);
}

#[test]
fn ray_pointing_away_misses() {
    let ray = Ray::new(Vec3::new(0, 0, 0), Vec3::new(0, 0, -SCALE));
    let sphere = Sphere::new(Vec3::new(0, 0, 5 * SCALE), SCALE, red_lambertian());
    assert!(ray.hits(&sphere, 1, DIST_MAX).is_none());
}

#[test]
fn hit_distance_within_interval() {
    let ray = Ray::new(Vec3::new(0, 0, 0), Vec3::new(0, 0, SCALE));
    let sphere = Sphere::new(Vec3::new(0, 0, 5 * SCALE), SCALE, red_lambertian());
    // The near surface sits at distance 4; an interval that ends before it
    // reaches the far surface at distance 6 instead.
    let hit = sphere.hit(ray, 1, 5 * SCALE).expect("the far root is in range");
    assert_eq!(hit.distance, 4 * SCALE);
    let far = sphere.hit(ray, 5 * SCALE, DIST_MAX).expect("the far root is in range");
    assert_eq!(far.distance, 6 * SCALE);
    assert!(!far.faces_ray);
    let none = sphere.hit(ray, 7 * SCALE, DIST_MAX);
    assert!(none.is_none());
}

#[test]
fn normal_has_near_unit_magnitude() {
    let ray = Ray::new(Vec3::new(0, 0, 0), Vec3::new(SCALE / 10, SCALE / 20, SCALE));
    let sphere = Sphere::new(Vec3::new(0, 0, 5 * SCALE), SCALE, red_lambertian());
    let hit = ray.hits(&sphere, 1, DIST_MAX).expect("the ray crosses the sphere");
    let s = SCALE as f64;
    let (nx, ny, nz) = (
        hit.normal.x as f64 / s,
        hit.normal.y as f64 / s,
        hit.normal.z as f64 / s,
    );
    let mag = (nx * nx + ny * ny + nz * nz).sqrt();
    assert!((mag - 1.0).abs() < 0.01);
    assert!(1 <= hit.distance && hit.distance <= DIST_MAX);
}

#[test]
fn ray_at_evaluates_the_parameter() {
    let ray = Ray::new(Vec3::new(SCALE, 0, 0), Vec3::new(0, 0, SCALE));
    let p = ray.at(2 * SCALE);
    assert_eq!((p.x, p.y, p.z), (SCALE, 0, 2 * SCALE));
}

#[test]
fn empty_world_misses() {
    let ray = Ray::new(Vec3::new(0, 0, 0), Vec3::new(0, 0, SCALE));
    let world = World::empty();
    assert!(ray.hits(&world, 1, DIST_MAX).is_none());
}

#[test]
fn sky_gradient_values() {
    let c = sky(Vec3::new(0, 0, SCALE));
    // 0.75, ~0.85 and 1.0 of full intensity.
    assert_eq!((c.x, c.y, c.z), (49152, 55705, 65536));
}

#[test]
fn world_returns_nearest_hit() {
    let ray = Ray::new(Vec3::new(0, 0, 0), Vec3::new(0, 0, SCALE));
    let world = World::empty()
        .with_sphere(Vec3::new(0, 0, 5 * SCALE), SCALE, red_lambertian())
        .with_sphere(Vec3::new(0, 0, 3 * SCALE), SCALE, red_lambertian());
    let hit = ray.hits(&world, 1, DIST_MAX).expect("both spheres are in front");
    assert_eq!(hit.distance, 2 * SCALE);
}

#[test]
fn world_tie_resolves_to_first_inserted() {
    let ray = Ray::new(Vec3::new(0, 0, 0), Vec3::new(0, 0, SCALE));
    let first = Material::new_lambertian(Vec3::new(111, 222, 333));
    let second = Material::new_lambertian(Vec3::new(444, 555, 666));
    let world = World::empty()
        .with_sphere(Vec3::new(0, 0, 5 * SCALE), SCALE, first)
        .with_sphere(Vec3::new(0, 0, 5 * SCALE), SCALE, second);
    let hit = ray.hits(&world, 1, DIST_MAX).expect("the spheres are in front");
    match hit.material {
        Material::Lambertian { albedo } => assert_eq!(albedo.x, 111),
        _ => panic!("unexpected material"),
    }
}
