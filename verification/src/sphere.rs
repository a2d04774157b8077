//! The sphere primitive and its ray intersection.
//!
//! Intersection solves the quadratic obtained by substituting the ray
//! equation into the sphere's implicit equation; the smaller root is tried
//! first, then the larger, and a root counts only when it lies strictly
//! inside the acceptance interval.  A negative radius is allowed: it flips
//! the outward normal inward, modelling a hollow shell.

use crate::fixed::Real;
use crate::hittable::HitRecord;
use crate::interval::Interval;
use crate::material::Material;
use crate::ray::Ray;
use crate::vec3::Vec3;
use vstd::prelude::*;

verus! {

/// A sphere with a center, a (possibly negative) radius, and a material.
#[derive(Clone, Copy, PartialEq, Eq, Structural, Debug)]
pub struct Sphere {
    pub center: Vec3,
    pub radius: Real,
    pub mat: Material,
}

impl Sphere {
    /// Spec-level squared length of the ray direction (the quadratic's
    /// leading coefficient).
    pub open spec fn spec_a(self, r: Ray) -> Real {
        r.direction.spec_length_squared()
    }

    /// Spec-level half of the quadratic's linear coefficient.
    pub open spec fn spec_half_b(self, r: Ray) -> Real {
        r.origin.spec_sub(self.center).spec_dot(r.direction)
    }

    /// Spec-level constant coefficient of the quadratic.
    pub open spec fn spec_c(self, r: Ray) -> Real {
        let oc = r.origin.spec_sub(self.center);
        oc.spec_length_squared().s_sub(self.radius.s_mul(self.radius))
    }

    /// Spec-level discriminant of the quadratic.
    pub open spec fn spec_disc(self, r: Ray) -> Real {
        let half_b = self.spec_half_b(r);
        half_b.s_mul(half_b).s_sub(self.spec_a(r).s_mul(self.spec_c(r)))
    }

    /// Spec-level smaller root of the quadratic.
    pub open spec fn spec_root_near(self, r: Ray) -> Real {
        self.spec_half_b(r).s_neg().s_sub(self.spec_disc(r).s_sqrt()).s_div(self.spec_a(r))
    }

    /// Spec-level larger root of the quadratic.
    pub open spec fn spec_root_far(self, r: Ray) -> Real {
        self.spec_half_b(r).s_neg().s_add(self.spec_disc(r).s_sqrt()).s_div(self.spec_a(r))
    }

    /// Whether the ray meets the sphere with a parameter strictly inside
    /// the interval.  A degenerate ray direction (squared length zero on
    /// the grid) never hits.
    pub open spec fn spec_hits(self, r: Ray, ray_t: Interval) -> bool {
        &&& self.spec_a(r).raw > 0
        &&& self.spec_disc(r).raw >= 0
        &&& (ray_t.spec_surrounds(self.spec_root_near(r)) || ray_t.spec_surrounds(
            self.spec_root_far(r),
        ))
    }

    /// The accepted parameter: the smaller root when it lies strictly
    /// inside the interval, the larger one otherwise.
    pub open spec fn spec_hit_t(self, r: Ray, ray_t: Interval) -> Real {
        if ray_t.spec_surrounds(self.spec_root_near(r)) {
            self.spec_root_near(r)
        } else {
            self.spec_root_far(r)
        }
    }

    /// The surface record of the accepted hit: the point at the accepted
    /// parameter, the outward normal `(p - center) / radius` oriented
    /// against the ray, and the sphere's material.
    pub open spec fn spec_hit_record(self, r: Ray, ray_t: Interval) -> HitRecord {
        let t = self.spec_hit_t(r, ray_t);
        let p = r.spec_at(t);
        let outward = p.spec_sub(self.center).spec_div_by(self.radius);
        let front_face = r.direction.spec_dot(outward).raw < 0;
        HitRecord {
            p,
            normal: if front_face {
                outward
            } else {
                outward.spec_neg()
            },
            t,
            front_face,
            mat: self.mat,
        }
    }

    /// Builds a sphere.
    pub fn new(center: Vec3, radius: Real, mat: Material) -> (r: Sphere)
        ensures
            r == (Sphere { center, radius, mat }),
    {
        Sphere { center, radius, mat }
    }

    /// Intersects the ray with the sphere over the interval: reports the
    /// surface record of the closest acceptable root, or nothing when no
    /// root is acceptable.
    pub fn hit(&self, r: &Ray, ray_t: Interval) -> (res: Option<HitRecord>)
        ensures
            match res {
                Some(rec) => self.spec_hits(*r, ray_t) && rec == self.spec_hit_record(*r, ray_t),
                None => !self.spec_hits(*r, ray_t),
            },
    {
        let oc = r.origin.sub(self.center);
        let a = r.direction.length_squared();
        if a.raw <= 0 {
            return None;
        }
        let half_b = oc.dot(&r.direction);
        let c = oc.length_squared().sub(self.radius.mul(self.radius));
        let discriminant = half_b.mul(half_b).sub(a.mul(c));
        if discriminant.raw < 0 {
            return None;
        }
        let sqrtd = discriminant.sqrt();
        let mut root = half_b.neg().sub(sqrtd).div(a);
        if !ray_t.surrounds(root) {
            root = half_b.neg().add(sqrtd).div(a);
            if !ray_t.surrounds(root) {
                return None;
            }
        }
        let p = r.at(root);
        let outward_normal = p.sub(self.center).div_by(self.radius);
        let mut rec = HitRecord {
            p,
            normal: outward_normal,
            t: root,
            front_face: false,
            mat: self.mat,
        };
        rec.set_face_normal(r, &outward_normal);
        Some(rec)
    }
}

/// Shrinking the upper end of the acceptance interval never changes which
/// parameter an entity reports, it can only suppress the report; and a hit
/// suppressed by the shrunk interval lies at or beyond the shrunk bound.
pub proof fn lemma_hit_interval_shrunk(
    object: crate::hittable::Hittable,
    r: Ray,
    t_min: Real,
    c: Real,
    m: Real,
)
    requires
        c.raw <= m.raw,
    ensures
        object.spec_hits(r, Interval { min: t_min, max: c }) ==> {
            &&& object.spec_hits(r, Interval { min: t_min, max: m })
            &&& object.spec_hit_t(r, Interval { min: t_min, max: c }) == object.spec_hit_t(
                r,
                Interval { min: t_min, max: m },
            )
            &&& object.spec_hit_record(r, Interval { min: t_min, max: c })
                == object.spec_hit_record(r, Interval { min: t_min, max: m })
        },
        (!object.spec_hits(r, Interval { min: t_min, max: c }) && object.spec_hits(
            r,
            Interval { min: t_min, max: m },
        )) ==> object.spec_hit_t(r, Interval { min: t_min, max: m }).raw >= c.raw,
{
    let crate::hittable::Hittable::Sphere(s) = object;
    let shrunk = Interval { min: t_min, max: c };
    let full = Interval { min: t_min, max: m };
    if s.spec_a(r).raw > 0 && s.spec_disc(r).raw >= 0 {
        let near = s.spec_root_near(r);
        let far = s.spec_root_far(r);
        assert(near.raw <= far.raw) by {
            let hb = s.spec_half_b(r);
            let sq = s.spec_disc(r).s_sqrt();
            crate::fixed::lemma_sqrt_r_range(s.spec_disc(r).raw as int);
            assert(sq.raw >= 0);
            crate::fixed::lemma_div_r_mono(
                crate::fixed::sub_r(crate::fixed::neg_r(hb.raw as int), sq.raw as int),
                crate::fixed::add_r(crate::fixed::neg_r(hb.raw as int), sq.raw as int),
                s.spec_a(r).raw as int,
            );
        }
        if s.spec_hits(r, shrunk) {
            if shrunk.spec_surrounds(near) {
                assert(full.spec_surrounds(near));
            } else {
                assert(shrunk.spec_surrounds(far));
                assert(near.raw <= t_min.raw);
                assert(!full.spec_surrounds(near));
                assert(full.spec_surrounds(far));
            }
        }
    }
}

} // verus!
