use pathtracer::fp::SCALE;
use pathtracer::material::Material;
use pathtracer::object::Hit;
use pathtracer::random::Random;
use pathtracer::vec3::Vec3;

fn head_on_hit(material: Material, faces_ray: bool) -> Hit {
    Hit {
        point: Vec3::new(0, 0, 4 * SCALE),
        normal: Vec3::new(0, 0, -SCALE),
        distance: 4 * SCALE,
        faces_ray,
        material,
    }
}

#[test]
fn attenuate_multiplies_channels() {
    let m = Material::new_lambertian(Vec3::new(SCALE / 2, 0, SCALE));
    let white = Vec3::new(SCALE, SCALE, SCALE);
    let once = m.attenuate(white);
    assert_eq!((once.x, once.y, once.z), (SCALE / 2, 0, SCALE));
    let twice = m.attenuate(once);
    assert_eq!((twice.x, twice.y, twice.z), (SCALE / 4, 0, SCALE));
}

#[test]
fn attenuate_never_increases_any_channel() {
    let m = Material::new_metal(Vec3::new(60000, 30000, 65536), SCALE / 4);
    let mut c = Vec3::new(SCALE, SCALE / 3, SCALE / 7);
    for _ in 0..20 {
        let next = m.attenuate(c);
        assert!(next.x <= c.x && next.y <= c.y && next.z <= c.z);
        assert!(next.x >= 0 && next.y >= 0 && next.z >= 0);
        c = next;
    }
}

#[test]
fn dielectric_attenuation_is_colorless() {
    let m = Material::new_dielectric(3 * SCALE / 2);
    let c = Vec3::new(123, 4567, 890);
    let r = m.attenuate(c);
    assert_eq!((r.x, r.y, r.z), (123, 4567, 890));
}

#[test]
fn total_internal_reflection_forces_reflection() {
    // Exiting the denser medium at grazing incidence: the ratio times the
    // sine exceeds one, so the ray must reflect and no random draw is used.
    let m = Material::new_dielectric(2 * SCALE);
    let hit = head_on_hit(m, false);
    let incoming = Vec3::new(SCALE, 0, 0);
    let mut rng = Random::new(7);
    let scattered = m.scatter(incoming, hit, &mut rng);
    assert_eq!(
        (scattered.direction.x, scattered.direction.y, scattered.direction.z),
        (SCALE, 0, 0)
    );
    assert_eq!(
        (scattered.origin.x, scattered.origin.y, scattered.origin.z),
        (0, 0, 4 * SCALE)
    );
    let mut fresh = Random::new(7);
    assert_eq!(rng.gen_u64(), fresh.gen_u64());
}

#[test]
fn dielectric_head_on_refracts_straight_through() {
    // Head-on from outside: reflectance is ~0.04; this seed's first draw is
    // well above it, so the ray refracts, and perpendicular incidence does
    // not bend it.
    let m = Material::new_dielectric(3 * SCALE / 2);
    let hit = head_on_hit(m, true);
    let incoming = Vec3::new(0, 0, SCALE);
    let mut rng = Random::new(1099511627776);
    let scattered = m.scatter(incoming, hit, &mut rng);
    assert_eq!(
        (scattered.direction.x, scattered.direction.y, scattered.direction.z),
        (0, 0, SCALE)
    );
}

#[test]
fn dielectric_head_on_reflects_on_small_draw() {
    // The same geometry with a seed whose first draw falls below the
    // reflectance: the ray reflects straight back.
    let m = Material::new_dielectric(3 * SCALE / 2);
    let hit = head_on_hit(m, true);
    let incoming = Vec3::new(0, 0, SCALE);
    let mut rng = Random::new(1);
    let scattered = m.scatter(incoming, hit, &mut rng);
    assert_eq!(
        (scattered.direction.x, scattered.direction.y, scattered.direction.z),
        (0, 0, -SCALE)
    );
}

#[test]
fn lambertian_scatter_starts_at_hit_point() {
    let m = Material::new_lambertian(Vec3::new(SCALE / 2, 0, 0));
    let hit = head_on_hit(m, true);
    let mut rng = Random::new(99);
    let scattered = m.scatter(Vec3::new(0, 0, SCALE), hit, &mut rng);
    assert_eq!(
        (scattered.origin.x, scattered.origin.y, scattered.origin.z),
        (0, 0, 4 * SCALE)
    );
    assert!(
        scattered.direction.x != 0 || scattered.direction.y != 0 || scattered.direction.z != 0
    );
}
