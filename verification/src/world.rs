//! The composite geometry: an ordered collection of spheres answering the
//! same intersection capability with the globally nearest hit.

use vstd::prelude::*;

verus! {

use crate::fp::DIST_MAX;
use crate::vec3::Vec3;
use crate::material::Material;
use crate::object::Object;
use crate::object::Hit;
use crate::object::HitG;
use crate::object::hit_wf;
use crate::object::opt_hit_view;
use crate::object::Sphere;
use crate::object::sphere_wf;
use crate::object::sphere_hit;
use crate::ray::Ray;
use crate::ray::RayG;
use crate::ray::ray_wf;

pub struct World {
    pub objects: Vec<Sphere>,
}

pub open spec fn world_wf(objs: Seq<Sphere>) -> bool {
    forall|i: int| 0 <= i < objs.len() ==> sphere_wf(#[trigger] objs[i])
}

/// The nearest hit over a sequence of spheres, scanned in insertion order;
/// a later sphere replaces the running winner only when strictly nearer, so
/// equal distances resolve to the earlier sphere.
pub open spec fn world_hit(objs: Seq<Sphere>, ray: RayG, min_dist: int, max_dist: int) -> Option<
    HitG,
>
    decreases objs.len(),
{
    if objs.len() == 0 {
        Option::None
    } else {
        let prev = world_hit(objs.drop_last(), ray, min_dist, max_dist);
        let cur = sphere_hit(objs.last(), ray, min_dist, max_dist);
        match prev {
            Option::None => cur,
            Option::Some(hp) => match cur {
                Option::None => prev,
                Option::Some(hc) => if hp.distance > hc.distance {
                    cur
                } else {
                    prev
                },
            },
        }
    }
}

/// The hit `h` comes from index `i`, and every earlier sphere either misses
/// or hits strictly farther.
pub open spec fn wins_at(
    objs: Seq<Sphere>,
    ray: RayG,
    min_dist: int,
    max_dist: int,
    i: int,
    h: HitG,
) -> bool {
    &&& 0 <= i < objs.len()
    &&& sphere_hit(objs[i], ray, min_dist, max_dist) == Option::Some(h)
    &&& forall|j: int|
        0 <= j < i ==> (#[trigger] sphere_hit(objs[j], ray, min_dist, max_dist) matches
        Option::Some(hj) ==> hj.distance > h.distance)
}

/// Law: the composite returns the hit of strictly smallest distance; no
/// member sphere hits nearer, a miss means every member missed, and on equal
/// distances the earliest inserted sphere wins.
pub proof fn lemma_world_hit_nearest(objs: Seq<Sphere>, ray: RayG, min_dist: int, max_dist: int)
    ensures
        world_hit(objs, ray, min_dist, max_dist) is None ==> (forall|j: int|
            0 <= j < objs.len() ==> #[trigger] sphere_hit(objs[j], ray, min_dist, max_dist)
                is None),
        world_hit(objs, ray, min_dist, max_dist) matches Option::Some(h) ==> (forall|j: int|
            0 <= j < objs.len() ==> (#[trigger] sphere_hit(objs[j], ray, min_dist, max_dist)
                matches Option::Some(hj) ==> h.distance <= hj.distance)),
        world_hit(objs, ray, min_dist, max_dist) matches Option::Some(h) ==> (exists|i: int|
            wins_at(objs, ray, min_dist, max_dist, i, h)),
    decreases objs.len(),
{
    if objs.len() > 0 {
        let prefix = objs.drop_last();
        lemma_world_hit_nearest(prefix, ray, min_dist, max_dist);
        let prev = world_hit(prefix, ray, min_dist, max_dist);
        let cur = sphere_hit(objs.last(), ray, min_dist, max_dist);
        assert(objs.last() == objs[objs.len() - 1]);
        assert(forall|j: int| 0 <= j < objs.len() - 1 ==> prefix[j] == objs[j]);
        match prev {
            Option::None => {
                match cur {
                    Option::None => {},
                    Option::Some(hc) => {
                        assert(wins_at(objs, ray, min_dist, max_dist, objs.len() - 1, hc));
                    },
                }
            },
            Option::Some(hp) => {
                let i = choose|i: int| wins_at(prefix, ray, min_dist, max_dist, i, hp);
                match cur {
                    Option::None => {
                        assert(wins_at(objs, ray, min_dist, max_dist, i, hp));
                    },
                    Option::Some(hc) => {
                        if hp.distance > hc.distance {
                            assert(wins_at(objs, ray, min_dist, max_dist, objs.len() - 1, hc));
                        } else {
                            assert(wins_at(objs, ray, min_dist, max_dist, i, hp));
                        }
                    },
                }
            },
        }
    }
}

impl World {
    /// A world with no geometry.
    pub fn empty() -> (r: Self)
        ensures
            r.objects@.len() == 0,
    {
        World { objects: Vec::new() }
    }

    /// Append a geometry; insertion order breaks distance ties.
    pub fn add_object(&mut self, object: Sphere)
        ensures
            final(self).objects@ == old(self).objects@.push(object),
    {
        self.objects.push(object);
    }

    /// The world extended by one geometry.
    pub fn with_object(self, object: Sphere) -> (r: Self)
        ensures
            r.objects@ == self.objects@.push(object),
    {
        let mut w = self;
        w.add_object(object);
        w
    }

    /// Append a sphere built from its parts.
    pub fn add_sphere(&mut self, center: Vec3, radius: i64, material: Material)
        ensures
            final(self).objects@ == old(self).objects@.push(
                Sphere { center, radius, material },
            ),
    {
        self.add_object(Sphere::new(center, radius, material));
    }

    /// The world extended by one sphere built from its parts.
    pub fn with_sphere(self, center: Vec3, radius: i64, material: Material) -> (r: Self)
        ensures
            r.objects@ == self.objects@.push(Sphere { center, radius, material }),
    {
        let mut w = self;
        w.add_sphere(center, radius, material);
        w
    }
}

impl Object for World {
    open spec fn obj_wf(&self) -> bool {
        world_wf(self.objects@)
    }

    open spec fn hit_model(&self, ray: RayG, min_dist: int, max_dist: int) -> Option<HitG> {
        world_hit(self.objects@, ray, min_dist, max_dist)
    }

    fn hit(&self, ray: Ray, min_dist: i64, max_dist: i64) -> (r: Option<Hit>) {
        let mut closest: Option<Hit> = None;
        let mut i: usize = 0;
        while i < self.objects.len()
            invariant
                0 <= i <= self.objects@.len(),
                world_wf(self.objects@),
                ray_wf(ray@),
                0 <= min_dist <= max_dist,
                max_dist <= DIST_MAX,
                opt_hit_view(closest) == world_hit(
                    self.objects@.take(i as int),
                    ray@,
                    min_dist as int,
                    max_dist as int,
                ),
                closest matches Some(h) ==> hit_wf(h@) && min_dist <= h.distance <= max_dist,
            decreases self.objects@.len() - i,
        {
            let cand = self.objects[i].hit(ray, min_dist, max_dist);
            closest = match (closest, cand) {
                (None, c) => c,
                (Some(hp), None) => Some(hp),
                (Some(hp), Some(hc)) => if hp.distance > hc.distance {
                    Some(hc)
                } else {
                    Some(hp)
                },
            };
            proof {
                assert(self.objects@.take(i as int + 1).drop_last() =~= self.objects@.take(
                    i as int,
                ));
                assert(self.objects@.take(i as int + 1).last() == self.objects@[i as int]);
            }
            i = i + 1;
        }
        proof {
            assert(self.objects@.take(self.objects@.len() as int) =~= self.objects@);
        }
        closest
    }
}

} // verus!
