//! Rays: an origin and a direction, with point-at-parameter evaluation.

use vstd::prelude::*;

verus! {

use crate::fp::ORIGIN_MAX;
use crate::fp::DIR_MAX;
use crate::fp::DIST_MAX;
use crate::fp::lemma_fmul_bound;
use crate::vec3::Vec3;
use crate::vec3::V3;
use crate::vec3::v_add;
use crate::vec3::v_scale;
use crate::vec3::in_bounds;
use crate::vec3::is_zero;
use crate::object::Object;
use crate::object::Hit;
use crate::object::opt_hit_view;
use crate::object::hit_wf;

/// Mathematical model of a ray.
pub ghost struct RayG {
    pub origin: V3,
    pub direction: V3,
}

/// A ray the intersection routines accept: the origin and direction are
/// within the fixed-point working range, and the direction is not zero
/// (a zero direction would make the intersection quadratic degenerate;
/// rejecting it here is the guard the numeric pipeline needs).
pub open spec fn ray_wf(r: RayG) -> bool {
    &&& in_bounds(r.origin, ORIGIN_MAX as int)
    &&& in_bounds(r.direction, DIR_MAX as int)
    &&& !is_zero(r.direction)
}

/// The point reached after travelling `t` along the ray.
pub open spec fn ray_at_spec(r: RayG, t: int) -> V3 {
    v_add(r.origin, v_scale(t, r.direction))
}

#[derive(Clone, Copy, Debug)]
pub struct Ray {
    pub origin: Vec3,
    pub direction: Vec3,
}

impl View for Ray {
    type V = RayG;

    open spec fn view(&self) -> RayG {
        RayG { origin: self.origin@, direction: self.direction@ }
    }
}

impl Ray {
    pub fn new(origin: Vec3, direction: Vec3) -> (r: Self)
        ensures
            r@ == (RayG { origin: origin@, direction: direction@ }),
    {
        Ray { origin, direction }
    }

    /// The point reached after travelling `length` along the ray.
    pub fn at(&self, length: i64) -> (r: Vec3)
        requires
            ray_wf(self@),
            -DIST_MAX <= length <= DIST_MAX,
        ensures
            r@ == ray_at_spec(self@, length as int),
    {
        proof {
            lemma_fmul_bound(length as int, self@.direction.x, DIST_MAX as int, DIR_MAX as int);
            lemma_fmul_bound(length as int, self@.direction.y, DIST_MAX as int, DIR_MAX as int);
            lemma_fmul_bound(length as int, self@.direction.z, DIST_MAX as int, DIR_MAX as int);
        }
        let s = self.direction.scale(length);
        self.origin.add(&s)
    }

    /// The nearest intersection of this ray with `object` at a distance
    /// within `[min_dist, max_dist]`.
    pub fn hits<T: Object>(&self, object: &T, min_dist: i64, max_dist: i64) -> (r: Option<Hit>)
        requires
            object.obj_wf(),
            ray_wf(self@),
            0 <= min_dist <= max_dist,
            max_dist <= DIST_MAX,
        ensures
            opt_hit_view(r) == object.hit_model(self@, min_dist as int, max_dist as int),
            r matches Some(h) ==> hit_wf(h@) && min_dist <= h.distance <= max_dist,
    {
        object.hit(*self, min_dist, max_dist)
    }
}

} // verus!
