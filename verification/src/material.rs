//! The material model: a closed variant set with per-variant scattering and
//! attenuation.
//!
//! Scattering produces a new ray from a hit; attenuation multiplies a color
//! by the surface's albedo. The dielectric variant is specified as an exact
//! function of the incoming data and the generator state; the diffuse and
//! specular variants are specified up to the sphere sample they draw.

use vstd::prelude::*;

verus! {

use crate::fp::SCALE;
use crate::fp::DIR_MAX;
use crate::fp::CENTER_MAX;
use crate::fp::fmul;
use crate::fp::fdiv;
use crate::fp::fsqrt;
use crate::fp::fp_mul;
use crate::fp::fp_div;
use crate::fp::fp_sqrt;
use crate::fp::lemma_fmul_bound;
use crate::fp::lemma_fmul_nonneg;
use crate::fp::lemma_fmul_sq_nonneg;
use crate::fp::lemma_fmul_scale_le;
use crate::fp::lemma_fdiv_unit;
use crate::vec3::Vec3;
use crate::vec3::V3;
use crate::vec3::NORM_MAX;
use crate::vec3::v_add;
use crate::vec3::v_neg;
use crate::vec3::v_scale;
use crate::vec3::v_dot;
use crate::vec3::v_reflect;
use crate::vec3::v_normalize;
use crate::vec3::in_bounds;
use crate::vec3::is_zero;
use crate::vec3::lemma_v_dot_bound;
use crate::random::Random;
use crate::random::xorshift;
use crate::random::uniform_scale;
use crate::random::in_sphere_from;
use crate::random::in_hemisphere_from;
use crate::ray::Ray;
use crate::ray::RayG;
use crate::ray::ray_wf;
use crate::object::Hit;
use crate::object::HitG;
use crate::object::hit_wf;

#[derive(Clone, Copy, Debug)]
pub enum Material {
    Lambertian { albedo: Vec3 },
    Metal { albedo: Vec3, fuzz: i64 },
    Dielectric { ior: i64 },
}

/// Color channels within `[0, 1]`.
pub open spec fn channels01(v: V3) -> bool {
    &&& 0 <= v.x <= SCALE as int
    &&& 0 <= v.y <= SCALE as int
    &&& 0 <= v.z <= SCALE as int
}

/// A well-formed material: albedo channels in `[0, 1]`, fuzz in `[0, 1]`,
/// and a positive refraction index within the working range.
pub open spec fn mat_wf(m: Material) -> bool {
    match m {
        Material::Lambertian { albedo } => channels01(albedo@),
        Material::Metal { albedo, fuzz } => channels01(albedo@) && 0 <= fuzz <= SCALE,
        Material::Dielectric { ior } => 1 <= ior <= CENTER_MAX,
    }
}

/// Channelwise attenuation: diffuse and specular surfaces multiply by their
/// albedo, the colorless dielectric passes the color through.
pub open spec fn atten_spec(m: Material, c: V3) -> V3 {
    match m {
        Material::Lambertian { albedo } => V3 {
            x: fmul(c.x, albedo@.x),
            y: fmul(c.y, albedo@.y),
            z: fmul(c.z, albedo@.z),
        },
        Material::Metal { albedo, .. } => V3 {
            x: fmul(c.x, albedo@.x),
            y: fmul(c.y, albedo@.y),
            z: fmul(c.z, albedo@.z),
        },
        Material::Dielectric { .. } => c,
    }
}

/// Color after unwinding a bounce history: the most recently recorded
/// material attenuates first.
pub open spec fn attenuate_all(mats: Seq<Material>, c: V3) -> V3
    decreases mats.len(),
{
    if mats.len() == 0 {
        c
    } else {
        attenuate_all(mats.drop_last(), atten_spec(mats.last(), c))
    }
}

/// One attenuation never increases any channel of a nonnegative color.
pub proof fn lemma_atten_le(m: Material, c: V3)
    requires
        mat_wf(m),
        0 <= c.x,
        0 <= c.y,
        0 <= c.z,
    ensures
        0 <= atten_spec(m, c).x <= c.x,
        0 <= atten_spec(m, c).y <= c.y,
        0 <= atten_spec(m, c).z <= c.z,
{
    match m {
        Material::Lambertian { albedo } => {
            lemma_fmul_scale_le(c.x, albedo@.x);
            lemma_fmul_scale_le(c.y, albedo@.y);
            lemma_fmul_scale_le(c.z, albedo@.z);
        },
        Material::Metal { albedo, .. } => {
            lemma_fmul_scale_le(c.x, albedo@.x);
            lemma_fmul_scale_le(c.y, albedo@.y);
            lemma_fmul_scale_le(c.z, albedo@.z);
        },
        Material::Dielectric { .. } => {},
    }
}

/// Law: attenuation applied repeatedly never increases any color channel,
/// for albedo channels within `[0, 1]`.
pub proof fn lemma_attenuation_never_increases(mats: Seq<Material>, c: V3)
    requires
        forall|i: int| 0 <= i < mats.len() ==> mat_wf(#[trigger] mats[i]),
        0 <= c.x,
        0 <= c.y,
        0 <= c.z,
    ensures
        0 <= attenuate_all(mats, c).x <= c.x,
        0 <= attenuate_all(mats, c).y <= c.y,
        0 <= attenuate_all(mats, c).z <= c.z,
    decreases mats.len(),
{
    if mats.len() > 0 {
        assert(mats[mats.len() - 1] == mats.last());
        lemma_atten_le(mats.last(), c);
        lemma_attenuation_never_increases(mats.drop_last(), atten_spec(mats.last(), c));
    }
}

/// The scattered direction: the candidate normalized, falling back to the
/// surface normal if the candidate (or its normalization) degenerates to
/// zero.
pub open spec fn dir_or(v: V3, fallback: V3) -> V3 {
    if is_zero(v) {
        fallback
    } else if is_zero(v_normalize(v)) {
        fallback
    } else {
        v_normalize(v)
    }
}

/// The normal a dielectric refracts against: the surface normal on entry,
/// its negation on exit.
pub open spec fn dielectric_normal(h: HitG) -> V3 {
    if h.faces_ray {
        h.normal
    } else {
        v_neg(h.normal)
    }
}

/// The refraction ratio: the reciprocal index on entry, the index on exit.
pub open spec fn dielectric_eta(h: HitG, ior: int) -> int {
    if h.faces_ray {
        fdiv(SCALE as int, ior)
    } else {
        ior
    }
}

/// Cosine of the incidence angle, capped at one.
pub open spec fn cos_theta(prev: V3, n: V3) -> int {
    let d = v_dot(v_neg(prev), n);
    if d > SCALE as int {
        SCALE as int
    } else {
        d
    }
}

/// Sine of the incidence angle, from the cosine.
pub open spec fn sin_theta(cos: int) -> int {
    let k = SCALE as int - fmul(cos, cos);
    if k < 0 {
        0
    } else {
        fsqrt(k)
    }
}

/// Refraction is geometrically impossible: the ratio times the sine exceeds
/// one.
pub open spec fn total_internal_reflection(eta: int, sin: int) -> bool {
    fmul(eta, sin) > SCALE as int
}

/// Schlick's approximation of the Fresnel reflectance.
pub open spec fn schlick(cos: int, eta: int) -> int {
    let q = fdiv(SCALE as int - eta, SCALE as int + eta);
    let r0 = fmul(q, q);
    let r1 = SCALE as int - cos;
    let r1_5 = fmul(fmul(fmul(fmul(r1, r1), r1), r1), r1);
    r0 + fmul(SCALE as int - r0, r1_5)
}

/// Snell's law in vector form.
pub open spec fn refract(prev: V3, n: V3, eta: int, cos: int) -> V3 {
    let r_perp = v_scale(eta, v_add(prev, v_scale(cos, n)));
    let k = SCALE as int - v_dot(r_perp, r_perp);
    let kk = if k < 0 {
        0
    } else {
        k
    };
    v_add(r_perp, v_scale(-fsqrt(kk), n))
}

/// What a dielectric scatters to: the direction, and the generator state
/// after the scatter. Under total internal reflection the ray reflects and
/// no random draw is consumed; otherwise one uniform draw decides between
/// reflection (with Schlick's probability) and refraction.
pub open spec fn dielectric_scatter(prev: V3, h: HitG, ior: int, state0: u64) -> (V3, u64) {
    let n = dielectric_normal(h);
    let eta = dielectric_eta(h, ior);
    let cos = cos_theta(prev, n);
    let sin = sin_theta(cos);
    if total_internal_reflection(eta, sin) {
        (dir_or(v_reflect(prev, n), h.normal), state0)
    } else {
        let draw = uniform_scale(xorshift(state0), SCALE as int);
        if schlick(cos, eta) > draw {
            (dir_or(v_reflect(prev, n), h.normal), xorshift(state0))
        } else {
            (dir_or(refract(prev, n, eta, cos), h.normal), xorshift(state0))
        }
    }
}

/// What any material scatters to: the new ray and the generator state after
/// the scatter, as a function of the incoming data and the state before it.
pub open spec fn scatter_model(m: Material, prev: V3, h: HitG, state: u64) -> (RayG, u64) {
    match m {
        Material::Lambertian { .. } => {
            let hs = in_hemisphere_from(state, h.normal);
            (RayG { origin: h.point, direction: dir_or(v_add(h.normal, hs.0), h.normal) }, hs.1)
        },
        Material::Metal { fuzz, .. } => {
            let ps = in_sphere_from(state, 64);
            (
                RayG {
                    origin: h.point,
                    direction: dir_or(
                        v_add(v_reflect(prev, h.normal), v_scale(fuzz as int, ps.0)),
                        h.normal,
                    ),
                },
                ps.1,
            )
        },
        Material::Dielectric { ior } => {
            let ds = dielectric_scatter(prev, h, ior as int, state);
            (RayG { origin: h.point, direction: ds.0 }, ds.1)
        },
    }
}

/// Law: Schlick's reflectance stays in `[0, 1]` for incidence cosines in
/// `[0, 1]` and any positive refraction ratio.
pub proof fn lemma_schlick_in_unit(cos: int, eta: int)
    requires
        0 <= cos <= SCALE as int,
        1 <= eta,
    ensures
        0 <= schlick(cos, eta) <= SCALE as int,
{
    lemma_fdiv_unit(SCALE as int - eta, SCALE as int + eta);
    let q = fdiv(SCALE as int - eta, SCALE as int + eta);
    lemma_fmul_sq_nonneg(q);
    lemma_fmul_bound(q, q, SCALE as int, SCALE as int);
    let r0 = fmul(q, q);
    let r1 = SCALE as int - cos;
    lemma_fmul_scale_le(r1, r1);
    let r2 = fmul(r1, r1);
    lemma_fmul_scale_le(r2, r1);
    let r3 = fmul(r2, r1);
    lemma_fmul_scale_le(r3, r1);
    let r4 = fmul(r3, r1);
    lemma_fmul_scale_le(r4, r1);
    let r5 = fmul(r4, r1);
    lemma_fmul_scale_le(SCALE as int - r0, r5);
}

/// Law: under total internal reflection the dielectric always reflects,
/// never refracts — the scattered direction is the mirror reflection about
/// the effective normal, and no random draw is consumed.
pub proof fn lemma_total_internal_reflection_reflects(prev: V3, h: HitG, ior: int, state0: u64)
    requires
        total_internal_reflection(
            dielectric_eta(h, ior),
            sin_theta(cos_theta(prev, dielectric_normal(h))),
        ),
    ensures
        dielectric_scatter(prev, h, ior, state0).0 == dir_or(
            v_reflect(prev, dielectric_normal(h)),
            h.normal,
        ),
        dielectric_scatter(prev, h, ior, state0).1 == state0,
{
}

/// The normalized candidate direction, or the surface normal where the
/// candidate degenerates to zero.
fn scatter_dir(v: Vec3, fallback: Vec3) -> (r: Vec3)
    requires
        in_bounds(v@, NORM_MAX as int),
        in_bounds(fallback@, SCALE as int),
        !is_zero(fallback@),
    ensures
        r@ == dir_or(v@, fallback@),
        in_bounds(r@, SCALE as int),
        !is_zero(r@),
{
    if v.is_zero_vec() {
        fallback
    } else {
        let n = v.normalize();
        if n.is_zero_vec() {
            fallback
        } else {
            n
        }
    }
}

impl Material {
    /// A diffuse Lambertian material.
    pub fn new_lambertian(albedo: Vec3) -> (r: Self)
        ensures
            r == (Material::Lambertian { albedo }),
    {
        Material::Lambertian { albedo }
    }

    /// A reflective metal material.
    pub fn new_metal(albedo: Vec3, fuzz: i64) -> (r: Self)
        ensures
            r == (Material::Metal { albedo, fuzz }),
    {
        Material::Metal { albedo, fuzz }
    }

    /// A refractive dielectric material.
    pub fn new_dielectric(ior: i64) -> (r: Self)
        ensures
            r == (Material::Dielectric { ior }),
    {
        Material::Dielectric { ior }
    }

    /// Scatter a hit ray: a new ray from the hit point, directed by the
    /// material model.
    pub fn scatter(&self, previous_direction: Vec3, hit: Hit, rng: &mut Random) -> (r: Ray)
        requires
            mat_wf(*self),
            hit_wf(hit@),
            in_bounds(previous_direction@, DIR_MAX as int),
        ensures
            r@.origin == hit@.point,
            ray_wf(r@),
            (r@, final(rng)@) == scatter_model(*self, previous_direction@, hit@, old(rng)@),
    {
        proof {
            if is_zero(hit@.normal) {
                assert(v_dot(hit@.normal, hit@.normal) == 0);
            }
        }
        match self {
            Material::Lambertian { .. } => {
                let h = rng.gen_in_hemisphere(hit.normal);
                let s = hit.normal.add(&h);
                let dir = scatter_dir(s, hit.normal);
                Ray::new(hit.point, dir)
            },
            Material::Metal { fuzz, .. } => {
                let sph = rng.gen_in_sphere();
                let refl = previous_direction.reflect(&hit.normal);
                proof {
                    lemma_fmul_bound(fuzz as int, sph@.x, SCALE as int, SCALE as int);
                    lemma_fmul_bound(fuzz as int, sph@.y, SCALE as int, SCALE as int);
                    lemma_fmul_bound(fuzz as int, sph@.z, SCALE as int, SCALE as int);
                }
                let f = sph.scale(*fuzz);
                let s = refl.add(&f);
                let dir = scatter_dir(s, hit.normal);
                Ray::new(hit.point, dir)
            },
            Material::Dielectric { ior } => {
                let normal = if hit.faces_ray {
                    hit.normal
                } else {
                    hit.normal.neg()
                };
                let eta = if hit.faces_ray {
                    fp_div(SCALE, *ior)
                } else {
                    *ior
                };
                proof {
                    crate::fp::lemma_div_trunc_bound(
                        (SCALE as int) * (SCALE as int),
                        (SCALE as int) * (SCALE as int),
                        ior as int,
                    );
                    vstd::arithmetic::div_mod::lemma_div_pos_is_pos(
                        (SCALE as int) * (SCALE as int),
                        ior as int,
                    );
                    lemma_v_dot_bound(v_neg(previous_direction@), normal@, DIR_MAX as int, SCALE as int);
                }
                let md = previous_direction.neg().dot(&normal);
                let cos = if md > SCALE {
                    SCALE
                } else {
                    md
                };
                proof {
                    lemma_fmul_sq_nonneg(cos as int);
                    lemma_fmul_bound(cos as int, cos as int, 1572864, 1572864);
                }
                let cc = fp_mul(cos, cos);
                let k = SCALE - cc;
                let kk = if k < 0 {
                    0
                } else {
                    k
                };
                let sin = fp_sqrt(kk);
                proof {
                    if k < 0 {
                        crate::fp::lemma_sqrt_floor_is(0, 0);
                    }
                    lemma_fmul_bound(eta as int, sin as int, 0x1_0000_0000, SCALE as int);
                }
                let tir = fp_mul(eta, sin) > SCALE;
                let reflect_now: bool = if tir {
                    true
                } else {
                    proof {
                        lemma_fdiv_unit(SCALE as int - eta, SCALE as int + eta);
                    }
                    let q = fp_div(SCALE - eta, SCALE + eta);
                    proof {
                        lemma_fmul_sq_nonneg(q as int);
                        lemma_fmul_bound(q as int, q as int, SCALE as int, SCALE as int);
                    }
                    let r0 = fp_mul(q, q);
                    let r1 = SCALE - cos;
                    proof {
                        lemma_fmul_nonneg(r1 as int, r1 as int);
                        lemma_fmul_bound(r1 as int, r1 as int, 1638400, 1638400);
                    }
                    let r2 = fp_mul(r1, r1);
                    proof {
                        lemma_fmul_nonneg(r2 as int, r1 as int);
                        lemma_fmul_bound(r2 as int, r1 as int, 40960000, 1638400);
                    }
                    let r3 = fp_mul(r2, r1);
                    proof {
                        lemma_fmul_nonneg(r3 as int, r1 as int);
                        lemma_fmul_bound(r3 as int, r1 as int, 1024000000, 1638400);
                    }
                    let r4 = fp_mul(r3, r1);
                    proof {
                        lemma_fmul_nonneg(r4 as int, r1 as int);
                        lemma_fmul_bound(r4 as int, r1 as int, 25600000000, 1638400);
                    }
                    let r5 = fp_mul(r4, r1);
                    proof {
                        lemma_fmul_nonneg(SCALE as int - r0, r5 as int);
                        lemma_fmul_bound(SCALE as int - r0, r5 as int, SCALE as int, 640000000000);
                    }
                    let reflectance = r0 + fp_mul(SCALE - r0, r5);
                    let u = rng.gen_fixed(0, SCALE);
                    reflectance > u
                };
                let dir_src = if reflect_now {
                    previous_direction.reflect(&normal)
                } else {
                    proof {
                        lemma_fmul_bound(cos as int, normal@.x, 1572864, SCALE as int);
                        lemma_fmul_bound(cos as int, normal@.y, 1572864, SCALE as int);
                        lemma_fmul_bound(cos as int, normal@.z, 1572864, SCALE as int);
                    }
                    let cn = normal.scale(cos);
                    let w = previous_direction.add(&cn);
                    proof {
                        lemma_fmul_bound(eta as int, w@.x, 0x1_0000_0000, 2097152);
                        lemma_fmul_bound(eta as int, w@.y, 0x1_0000_0000, 2097152);
                        lemma_fmul_bound(eta as int, w@.z, 0x1_0000_0000, 2097152);
                    }
                    let r_perp = w.scale(eta);
                    proof {
                        lemma_fmul_sq_nonneg(r_perp@.x);
                        lemma_fmul_sq_nonneg(r_perp@.y);
                        lemma_fmul_sq_nonneg(r_perp@.z);
                        lemma_v_dot_bound(r_perp@, r_perp@, 137438953472, 137438953472);
                    }
                    let m = r_perp.dot(&r_perp);
                    let k2 = SCALE - m;
                    let kk2 = if k2 < 0 {
                        0
                    } else {
                        k2
                    };
                    let sq2 = fp_sqrt(kk2);
                    proof {
                        lemma_fmul_bound(-(sq2 as int), normal@.x, SCALE as int, SCALE as int);
                        lemma_fmul_bound(-(sq2 as int), normal@.y, SCALE as int, SCALE as int);
                        lemma_fmul_bound(-(sq2 as int), normal@.z, SCALE as int, SCALE as int);
                    }
                    let par = normal.scale(-sq2);
                    r_perp.add(&par)
                };
                let dir = scatter_dir(dir_src, hit.normal);
                proof {
                    assert(normal@ == dielectric_normal(hit@));
                    assert(eta as int == dielectric_eta(hit@, ior as int));
                    assert(cos as int == cos_theta(previous_direction@, normal@));
                    assert(sin as int == sin_theta(cos as int));
                    assert(dir@ == dielectric_scatter(
                        previous_direction@,
                        hit@,
                        ior as int,
                        old(rng)@,
                    ).0);
                }
                Ray::new(hit.point, dir)
            },
        }
    }

    /// Attenuate a color by this material: never brighter than the input.
    pub fn attenuate(&self, color: Vec3) -> (r: Vec3)
        requires
            mat_wf(*self),
            0 <= color@.x,
            0 <= color@.y,
            0 <= color@.z,
            in_bounds(color@, SCALE as int),
        ensures
            r@ == atten_spec(*self, color@),
            0 <= r@.x <= color@.x,
            0 <= r@.y <= color@.y,
            0 <= r@.z <= color@.z,
    {
        proof {
            lemma_atten_le(*self, color@);
        }
        match self {
            Material::Lambertian { albedo } => Vec3::new(
                fp_mul(color.x, albedo.x),
                fp_mul(color.y, albedo.y),
                fp_mul(color.z, albedo.z),
            ),
            Material::Metal { albedo, .. } => Vec3::new(
                fp_mul(color.x, albedo.x),
                fp_mul(color.y, albedo.y),
                fp_mul(color.z, albedo.z),
            ),
            Material::Dielectric { .. } => color,
        }
    }
}

} // verus!
