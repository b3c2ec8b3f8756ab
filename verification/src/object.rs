//! Geometry: the intersection capability and its sphere implementation.
//!
//! `Object` is the shared intersection interface; `Sphere` solves the
//! ray-sphere quadratic in wide integer arithmetic, with the roots, the hit
//! point and the surface normal all specified exactly over the fixed-point
//! model. Results whose numbers leave the fixed-point working range are
//! rejected as misses, which keeps every accepted hit well formed.

use vstd::prelude::*;

verus! {

use crate::fp::SCALE;
use crate::fp::ORIGIN_MAX;
use crate::fp::CENTER_MAX;
use crate::fp::DIST_MAX;
use crate::fp::DIR_MAX;
use crate::fp::div_trunc;
use crate::fp::fdiv;
use crate::fp::sqrt_floor;
use crate::fp::isqrt;
use crate::fp::lemma_sqrt_floor_is;
use crate::vec3::Vec3;
use crate::vec3::V3;
use crate::vec3::v_sub;
use crate::vec3::v_dot;
use crate::vec3::raw_dot;
use crate::vec3::in_bounds;
use crate::vec3::lemma_raw_dot_bound;
use crate::ray::Ray;
use crate::ray::RayG;
use crate::ray::ray_wf;
use crate::ray::ray_at_spec;
use crate::material::Material;
use crate::material::mat_wf;

/// Mathematical model of an intersection result.
pub ghost struct HitG {
    pub point: V3,
    pub normal: V3,
    pub distance: int,
    pub faces_ray: bool,
    pub material: Material,
}

/// Result of a ray intersection test: where the ray hit, the surface normal
/// there, the distance along the ray, whether the normal opposes the ray
/// (the ray is entering rather than exiting), and the material hit.
#[derive(Clone, Copy, Debug)]
pub struct Hit {
    pub point: Vec3,
    pub normal: Vec3,
    pub distance: i64,
    pub faces_ray: bool,
    pub material: Material,
}

impl View for Hit {
    type V = HitG;

    open spec fn view(&self) -> HitG {
        HitG {
            point: self.point@,
            normal: self.normal@,
            distance: self.distance as int,
            faces_ray: self.faces_ray,
            material: self.material,
        }
    }
}

/// Every hit an intersection routine hands out satisfies this: the point is
/// in the working range, the normal is a nonzero near-unit vector, the
/// material is well formed and the distance is in the accepted range.
pub open spec fn hit_wf(h: HitG) -> bool {
    &&& in_bounds(h.point, ORIGIN_MAX as int)
    &&& in_bounds(h.normal, SCALE as int)
    &&& 1 <= v_dot(h.normal, h.normal)
    &&& mat_wf(h.material)
    &&& 0 <= h.distance <= DIST_MAX as int
}

pub open spec fn opt_hit_view(r: Option<Hit>) -> Option<HitG> {
    match r {
        Option::None => Option::None,
        Option::Some(h) => Option::Some(h@),
    }
}

/// The intersection capability every geometry shares. `hit_model` is the
/// mathematical description of the implementation's answer; `hit` computes
/// it and is proved to match.
pub trait Object {
    spec fn obj_wf(&self) -> bool;

    spec fn hit_model(&self, ray: RayG, min_dist: int, max_dist: int) -> Option<HitG>;

    /// The nearest intersection at a distance within `[min_dist, max_dist]`.
    fn hit(&self, ray: Ray, min_dist: i64, max_dist: i64) -> (r: Option<Hit>)
        requires
            self.obj_wf(),
            ray_wf(ray@),
            0 <= min_dist <= max_dist,
            max_dist <= DIST_MAX,
        ensures
            opt_hit_view(r) == self.hit_model(ray@, min_dist as int, max_dist as int),
            r matches Some(h) ==> hit_wf(h@) && min_dist <= h.distance <= max_dist,
    ;
}

/// A sphere: center, positive radius, and the material of its surface.
#[derive(Clone, Copy, Debug)]
pub struct Sphere {
    pub center: Vec3,
    pub radius: i64,
    pub material: Material,
}

pub open spec fn sphere_wf(s: Sphere) -> bool {
    &&& in_bounds(s.center@, CENTER_MAX as int)
    &&& 1 <= s.radius <= CENTER_MAX
    &&& mat_wf(s.material)
}

/// The hit a sphere reports at root `t`: point, outward normal scaled by the
/// radius, and orientation. A result whose point or normal leaves the
/// fixed-point working range counts as a miss.
pub open spec fn sphere_mk_hit(s: Sphere, ray: RayG, t: int) -> Option<HitG> {
    let p = ray_at_spec(ray, t);
    let n = V3 {
        x: fdiv(p.x - s.center@.x, s.radius as int),
        y: fdiv(p.y - s.center@.y, s.radius as int),
        z: fdiv(p.z - s.center@.z, s.radius as int),
    };
    if in_bounds(p, ORIGIN_MAX as int) && in_bounds(n, SCALE as int) && 1 <= v_dot(n, n) {
        Option::Some(
            HitG {
                point: p,
                normal: n,
                distance: t,
                faces_ray: v_dot(ray.direction, n) < 0,
                material: s.material,
            },
        )
    } else {
        Option::None
    }
}

/// The sphere intersection: roots of `a t^2 + 2 half_b t + c = 0` over the
/// raw (twice-scaled) products; the smaller root wins if it lies within the
/// interval, else the larger is tried.
pub open spec fn sphere_hit(s: Sphere, ray: RayG, min_dist: int, max_dist: int) -> Option<HitG> {
    let oc = v_sub(ray.origin, s.center@);
    let a = raw_dot(ray.direction, ray.direction);
    let half_b = raw_dot(oc, ray.direction);
    let c = raw_dot(oc, oc) - (s.radius as int) * (s.radius as int);
    let disc = half_b * half_b - a * c;
    if disc < 0 {
        Option::None
    } else {
        let sq = sqrt_floor(disc);
        let t1 = div_trunc((-half_b - sq) * (SCALE as int), a);
        let t2 = div_trunc((-half_b + sq) * (SCALE as int), a);
        if min_dist <= t1 && t1 <= max_dist {
            sphere_mk_hit(s, ray, t1)
        } else if min_dist <= t2 && t2 <= max_dist {
            sphere_mk_hit(s, ray, t2)
        } else {
            Option::None
        }
    }
}

impl Sphere {
    pub fn new(center: Vec3, radius: i64, material: Material) -> (r: Self)
        ensures
            r == (Sphere { center, radius, material }),
    {
        Sphere { center, radius, material }
    }

    /// The hit reported at root `t`, with the range guards of
    /// `sphere_mk_hit`.
    fn make_hit(&self, ray: Ray, t: i64) -> (r: Option<Hit>)
        requires
            sphere_wf(*self),
            ray_wf(ray@),
            0 <= t <= DIST_MAX,
        ensures
            opt_hit_view(r) == sphere_mk_hit(*self, ray@, t as int),
            r matches Some(h) ==> hit_wf(h@) && h.distance == t,
    {
        proof {
            crate::fp::lemma_fmul_bound(t as int, ray@.direction.x, DIST_MAX as int, DIR_MAX as int);
            crate::fp::lemma_fmul_bound(t as int, ray@.direction.y, DIST_MAX as int, DIR_MAX as int);
            crate::fp::lemma_fmul_bound(t as int, ray@.direction.z, DIST_MAX as int, DIR_MAX as int);
        }
        let p = ray.at(t);
        if p.x < -ORIGIN_MAX || p.x > ORIGIN_MAX || p.y < -ORIGIN_MAX || p.y > ORIGIN_MAX || p.z
            < -ORIGIN_MAX || p.z > ORIGIN_MAX {
            return None;
        }
        let nx = ((p.x as i128) - (self.center.x as i128)) * (SCALE as i128) / (self.radius as i128);
        let ny = ((p.y as i128) - (self.center.y as i128)) * (SCALE as i128) / (self.radius as i128);
        let nz = ((p.z as i128) - (self.center.z as i128)) * (SCALE as i128) / (self.radius as i128);
        if nx < -(SCALE as i128) || nx > SCALE as i128 || ny < -(SCALE as i128) || ny
            > SCALE as i128 || nz < -(SCALE as i128) || nz > SCALE as i128 {
            return None;
        }
        let n = Vec3::new(nx as i64, ny as i64, nz as i64);
        let nn = n.dot(&n);
        if nn < 1 {
            return None;
        }
        let faces_ray = ray.direction.dot(&n) < 0;
        Some(Hit { point: p, normal: n, distance: t, faces_ray, material: self.material })
    }
}

impl Object for Sphere {
    open spec fn obj_wf(&self) -> bool {
        sphere_wf(*self)
    }

    open spec fn hit_model(&self, ray: RayG, min_dist: int, max_dist: int) -> Option<HitG> {
        sphere_hit(*self, ray, min_dist, max_dist)
    }

    fn hit(&self, ray: Ray, min_dist: i64, max_dist: i64) -> (r: Option<Hit>) {
        let oc = ray.origin.sub(&self.center);
        let a = ray.direction.raw_dot_wide(&ray.direction);
        let half_b = oc.raw_dot_wide(&ray.direction);
        proof {
            assert(0 <= (self.radius as int) * (self.radius as int) <= 0x10_0000_0000_0000)
                by (nonlinear_arith)
                requires
                    1 <= self.radius <= 0x4000000,
            ;
        }
        let rr = (self.radius as i128) * (self.radius as i128);
        let c = oc.raw_dot_wide(&oc) - rr;
        proof {
            lemma_raw_dot_bound(ray@.direction, ray@.direction, DIR_MAX as int, DIR_MAX as int);
            lemma_raw_dot_bound(oc@, ray@.direction, 0x48000000 as int, DIR_MAX as int);
            lemma_raw_dot_bound(oc@, oc@, 0x48000000 as int, 0x48000000 as int);
            assert(raw_dot(ray@.direction, ray@.direction) >= 1) by (nonlinear_arith)
                requires
                    !(ray@.direction.x == 0 && ray@.direction.y == 0 && ray@.direction.z == 0),
                    raw_dot(ray@.direction, ray@.direction) == ray@.direction.x * ray@.direction.x
                        + ray@.direction.y * ray@.direction.y + ray@.direction.z
                        * ray@.direction.z,
            ;
            assert(0 <= (half_b as int) * (half_b as int) <= 0x90_0000_0000_0000_0000_0000_0000)
                by (nonlinear_arith)
                requires
                    -0xC_0000_0000_0000 <= half_b as int <= 0xC_0000_0000_0000,
            ;
            assert(-0x9C00_0000_0000_0000_0000_0000_0000 <= (a as int) * (c as int)
                <= 0x9C00_0000_0000_0000_0000_0000_0000) by (nonlinear_arith)
                requires
                    0 <= a as int <= 0xC0_0000_0000,
                    -0xD0_0000_0000_0000_0000 <= c as int <= 0xD0_0000_0000_0000_0000,
            ;
        }
        let disc = half_b * half_b - a * c;
        if disc < 0 {
            return None;
        }
        let sq = isqrt(disc as u128) as i128;
        proof {
            assert(sq as int <= 0x400_0000_0000_0000) by (nonlinear_arith)
                requires
                    0 <= sq as int,
                    (sq as int) * (sq as int) <= 0xA000_0000_0000_0000_0000_0000_0000,
            ;
            lemma_sqrt_floor_is(disc as int, sq as int);
        }
        let t1 = ((-half_b - sq) * (SCALE as i128)) / a;
        if min_dist as i128 <= t1 && t1 <= max_dist as i128 {
            return self.make_hit(ray, t1 as i64);
        }
        let t2 = ((-half_b + sq) * (SCALE as i128)) / a;
        if min_dist as i128 <= t2 && t2 <= max_dist as i128 {
            return self.make_hit(ray, t2 as i64);
        }
        None
    }
}

} // verus!
