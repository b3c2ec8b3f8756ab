use pathtracer::fp::SCALE;
use pathtracer::random::Random;

fn fmul(a: i64, b: i64) -> i64 {
    ((a as i128) * (b as i128) / (SCALE as i128)) as i64
}

#[test]
fn identical_seeds_produce_identical_streams() {
    let mut a = Random::new(42);
    let mut b = Random::new(42);
    for _ in 0..32 {
        assert_eq!(a.gen_u64(), b.gen_u64());
    }
    let mut a = Random::new(987654321);
    let mut b = Random::new(987654321);
    for _ in 0..32 {
        assert_eq!(a.gen_fixed(0, SCALE), b.gen_fixed(0, SCALE));
    }
}

#[test]
fn different_seed_changes_first_output() {
    let mut a = Random::new(42);
    let mut b = Random::new(43);
    assert_ne!(a.gen_u64(), b.gen_u64());
}

#[test]
fn gen_u64_matches_xorshift_recurrence() {
    let mut r = Random::new(42);
    assert_eq!(r.gen_u64(), 45454805674);
    assert_eq!(r.gen_u64(), 11532217803599905471);
}

#[test]
fn seeded_42_second_uniform_is_reproducible() {
    let mut r = Random::new(42);
    let _first = r.gen_fixed(0, SCALE);
    let second = r.gen_fixed(0, SCALE);
    assert_eq!(second, 40970);
    let mut again = Random::new(42);
    let _ = again.gen_fixed(0, SCALE);
    assert_eq!(again.gen_fixed(0, SCALE), second);
    let as_float = second as f64 / SCALE as f64;
    assert!((as_float - 0.62515).abs() < 0.001);
}

#[test]
fn gen_fixed_stays_in_range() {
    let mut r = Random::new(7);
    for _ in 0..200 {
        let v = r.gen_fixed(-SCALE, SCALE);
        assert!(-SCALE <= v && v <= SCALE);
    }
}

#[test]
fn gen_in_sphere_within_unit() {
    let mut r = Random::new(1234);
    for _ in 0..100 {
        let p = r.gen_in_sphere();
        let m = fmul(p.x, p.x) + fmul(p.y, p.y) + fmul(p.z, p.z);
        assert!(m < SCALE);
    }
}

#[test]
fn gen_in_hemisphere_aligned_with_normal() {
    let mut r = Random::new(5678);
    let normal = pathtracer::vec3::Vec3::new(0, SCALE, 0);
    for _ in 0..100 {
        let p = r.gen_in_hemisphere(normal);
        let d = fmul(p.x, normal.x) + fmul(p.y, normal.y) + fmul(p.z, normal.z);
        assert!(d >= 0);
    }
}
