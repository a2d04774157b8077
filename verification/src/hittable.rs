//! The surface-intersection protocol and the scene aggregate.
//!
//! Anything intersectable answers: does this ray hit me with a parameter
//! strictly inside this interval, and if so, with what surface record?  The
//! scene aggregate answers the same question over an unordered collection of
//! members by scanning them against a shrinking interval, which provably
//! returns the closest valid hit.

use crate::interval::Interval;
use crate::material::Material;
use crate::ray::Ray;
use crate::sphere::Sphere;
use crate::vec3::Vec3;
use crate::fixed::Real;
use vstd::prelude::*;

verus! {

/// Everything known about one ray-surface intersection.
#[derive(Clone, Copy, PartialEq, Eq, Structural, Debug)]
pub struct HitRecord {
    /// The intersection point.
    pub p: Vec3,
    /// The unit surface normal, oriented against the incoming ray.
    pub normal: Vec3,
    /// The ray parameter of the intersection.
    pub t: Real,
    /// Whether the ray met the surface from outside (against the outward
    /// normal).
    pub front_face: bool,
    /// The surface's material.
    pub mat: Material,
}

impl HitRecord {
    /// Orients the stored normal against the incoming ray: keeps the
    /// outward normal on a front-face hit and flips it otherwise, recording
    /// which case applied.
    pub fn set_face_normal(&mut self, r: &Ray, outward_normal: &Vec3)
        ensures
            final(self).front_face == (r.direction.spec_dot(*outward_normal).raw < 0),
            final(self).normal == if final(self).front_face {
                *outward_normal
            } else {
                outward_normal.spec_neg()
            },
            final(self).p == old(self).p,
            final(self).t == old(self).t,
            final(self).mat == old(self).mat,
    {
        self.front_face = r.direction.dot(outward_normal).raw < 0;
        self.normal = if self.front_face {
            *outward_normal
        } else {
            outward_normal.neg()
        };
    }
}

/// The closed set of intersectable entities.
#[derive(Clone, Copy, PartialEq, Eq, Structural, Debug)]
pub enum Hittable {
    Sphere(Sphere),
}

impl Hittable {
    /// Whether the ray meets this entity with a parameter strictly inside
    /// the interval.
    pub open spec fn spec_hits(self, r: Ray, ray_t: Interval) -> bool {
        match self {
            Hittable::Sphere(s) => s.spec_hits(r, ray_t),
        }
    }

    /// The accepted ray parameter of the hit: the smaller quadratic root
    /// when it lies inside the interval, the larger one otherwise.
    pub open spec fn spec_hit_t(self, r: Ray, ray_t: Interval) -> Real {
        match self {
            Hittable::Sphere(s) => s.spec_hit_t(r, ray_t),
        }
    }

    /// The full surface record of the hit.
    pub open spec fn spec_hit_record(self, r: Ray, ray_t: Interval) -> HitRecord {
        match self {
            Hittable::Sphere(s) => s.spec_hit_record(r, ray_t),
        }
    }

    /// Intersects the ray with this entity over the interval.
    pub fn hit(&self, r: &Ray, ray_t: Interval) -> (res: Option<HitRecord>)
        ensures
            match res {
                Some(rec) => self.spec_hits(*r, ray_t) && rec == self.spec_hit_record(*r, ray_t),
                None => !self.spec_hits(*r, ray_t),
            },
    {
        match self {
            Hittable::Sphere(s) => s.hit(r, ray_t),
        }
    }
}

/// An unordered collection of intersectable entities, answering intersection
/// queries with the closest valid hit among its members.
#[derive(Debug)]
pub struct HittableList {
    pub objects: Vec<Hittable>,
}

impl HittableList {
    /// An empty scene.
    pub fn new() -> (r: HittableList)
        ensures
            r.objects@.len() == 0,
    {
        HittableList { objects: Vec::new() }
    }

    /// Adds an entity to the scene.
    pub fn add(&mut self, object: Hittable)
        ensures
            final(self).objects@ == old(self).objects@.push(object),
    {
        self.objects.push(object);
    }

    /// Intersects the ray with every member and reports the closest valid
    /// hit: the returned record is some member's hit, and no member hits at
    /// a smaller parameter.  Reports nothing exactly when no member hits.
    pub fn hit(&self, r: &Ray, ray_t: Interval) -> (res: Option<HitRecord>)
        ensures
            match res {
                Some(rec) => {
                    &&& exists|j: int|
                        0 <= j < self.objects@.len() && self.objects@[j].spec_hits(*r, ray_t)
                            && rec == self.objects@[j].spec_hit_record(*r, ray_t)
                    &&& forall|j: int|
                        0 <= j < self.objects@.len() && self.objects@[j].spec_hits(*r, ray_t)
                            ==> rec.t.raw <= self.objects@[j].spec_hit_t(*r, ray_t).raw
                },
                None => forall|j: int|
                    0 <= j < self.objects@.len() ==> !self.objects@[j].spec_hits(*r, ray_t),
            },
    {
        let mut best: Option<HitRecord> = None;
        let mut closest_so_far: Real = ray_t.max;
        let mut i: usize = 0;
        while i < self.objects.len()
            invariant
                0 <= i <= self.objects@.len(),
                match best {
                    Some(rec) => {
                        &&& closest_so_far == rec.t
                        &&& rec.t.raw < ray_t.max.raw
                        &&& exists|j: int|
                            0 <= j < i && self.objects@[j].spec_hits(*r, ray_t) && rec
                                == self.objects@[j].spec_hit_record(*r, ray_t)
                        &&& forall|j: int|
                            0 <= j < i && self.objects@[j].spec_hits(*r, ray_t) ==> rec.t.raw
                                <= self.objects@[j].spec_hit_t(*r, ray_t).raw
                    },
                    None => {
                        &&& closest_so_far == ray_t.max
                        &&& forall|j: int| 0 <= j < i ==> !self.objects@[j].spec_hits(*r, ray_t)
                    },
                },
            decreases self.objects@.len() - i,
        {
            let object = &self.objects[i];
            let shrunk = Interval::new(ray_t.min, closest_so_far);
            proof {
                crate::sphere::lemma_hit_interval_shrunk(*object, *r, ray_t.min, closest_so_far,
                    ray_t.max);
            }
            match object.hit(r, shrunk) {
                Some(rec) => {
                    best = Some(rec);
                    closest_so_far = rec.t;
                },
                None => {},
            }
            i = i + 1;
        }
        best
    }
}

} // verus!
