use pathtracer::fp::SCALE;
use pathtracer::material::Material;
use pathtracer::random::Random;
use pathtracer::ray::Ray;
use pathtracer::trace::{render, render_row, sample_ray, Camera};
use pathtracer::vec3::Vec3;
use pathtracer::world::World;

fn test_camera() -> Camera {
    Camera {
        origin: Vec3::new(0, 0, 0),
        top_left: Vec3::new(-SCALE, SCALE, SCALE),
        view_x: Vec3::new(2 * SCALE, 0, 0),
        view_y: Vec3::new(0, 2 * SCALE, 0),
    }
}

fn red_scene() -> World {
    World::empty().with_sphere(
        Vec3::new(0, 0, 5 * SCALE),
        SCALE,
        Material::new_lambertian(Vec3::new(SCALE / 2, 0, 0)),
    )
}

#[test]
fn zero_bounces_render_black() {
    let world = red_scene();
    let img = render(2, 2, 4, 0, &test_camera(), &world);
    assert_eq!(img.len(), 12);
    assert!(img.iter().all(|&b| b == 0));
}

#[test]
fn zero_bounces_sample_is_black() {
    let world = red_scene();
    let mut rng = Random::new(3);
    let ray = Ray::new(Vec3::new(0, 0, 0), Vec3::new(0, 0, SCALE));
    let c = sample_ray(ray, &world, &mut rng, 0);
    assert_eq!((c.x, c.y, c.z), (0, 0, 0));
}

#[test]
fn miss_returns_the_sky_color() {
    let world = World::empty();
    let mut rng = Random::new(3);
    let ray = Ray::new(Vec3::new(0, 0, 0), Vec3::new(0, 0, SCALE));
    let c = sample_ray(ray, &world, &mut rng, 8);
    assert_eq!((c.x, c.y, c.z), (49152, 55705, 65536));
}

#[test]
fn red_lambertian_zeroes_other_channels() {
    // A bounce off an albedo of (0.5, 0, 0) kills the green and blue
    // channels exactly, whatever the sky contributes afterward.
    let world = red_scene();
    for seed in 0..20u64 {
        let mut rng = Random::new(seed);
        let ray = Ray::new(Vec3::new(0, 0, 0), Vec3::new(0, 0, SCALE));
        let c = sample_ray(ray, &world, &mut rng, 16);
        assert_eq!(c.y, 0);
        assert_eq!(c.z, 0);
        assert!(c.x <= SCALE / 2);
    }
}

#[test]
fn render_row_has_three_bytes_per_pixel() {
    let world = red_scene();
    let row = render_row(0, 7, 3, 2, 4, &test_camera(), &world);
    assert_eq!(row.len(), 21);
}

#[test]
fn render_is_row_major_and_deterministic() {
    let world = red_scene();
    let camera = test_camera();
    let img = render(4, 3, 2, 4, &camera, &world);
    assert_eq!(img.len(), 36);
    let again = render(4, 3, 2, 4, &camera, &world);
    assert_eq!(img, again);
    for y in 0..3 {
        let row = render_row(y, 4, 3, 2, 4, &camera, &world);
        assert_eq!(&img[y * 12..(y + 1) * 12], &row[..]);
    }
}

#[test]
fn bright_sky_saturates_bytes() {
    // Straight up the sky is (0.5, 0.7, 1.0); the blue channel reaches full
    // intensity and must saturate at 255 rather than wrap.
    let world = World::empty();
    let camera = Camera {
        origin: Vec3::new(0, 0, 0),
        top_left: Vec3::new(0, SCALE, 0),
        view_x: Vec3::new(0, 0, 0),
        view_y: Vec3::new(0, 0, 0),
    };
    let row = render_row(0, 1, 1, 1, 4, &camera, &world);
    assert_eq!(row.len(), 3);
    assert_eq!(row[2], 255);
}
