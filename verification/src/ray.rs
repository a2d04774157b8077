//! Rays: an origin with a direction, and the point they reach at a
//! parameter.
//!
//! The module also keeps the first, self-contained shading demo: a fixed
//! sphere hit test and the white-to-sky-blue background gradient that the
//! camera's recursive tracer reuses on every miss.

use crate::fixed::{real_from_raw, spec_one, Real, SCALE};
use crate::vec3::Vec3;
use vstd::prelude::*;

verus! {

/// A half-line: all points `origin + direction * t` for `t >= 0`.
#[derive(Clone, Copy, PartialEq, Eq, Structural, Debug)]
pub struct Ray {
    pub origin: Vec3,
    pub direction: Vec3,
}

/// The real one half on the fixed-point grid.
pub open spec fn spec_half() -> Real {
    Real { raw: 32768 }
}

/// Spec-level background gradient: a blend from white at the horizon to
/// sky blue straight up, driven by the unit direction's vertical component
/// via `a = (y + 1) / 2`.
pub open spec fn spec_background(r: Ray) -> Vec3 {
    let unit_direction = r.direction.spec_unit();
    let a = spec_half().s_mul(unit_direction.y.s_add(spec_one()));
    let white = Vec3 { x: spec_one(), y: spec_one(), z: spec_one() };
    let sky = Vec3 { x: spec_half(), y: real_from_raw(45875), z: spec_one() };
    white.spec_scale(spec_one().s_sub(a)).spec_add(sky.spec_scale(a))
}

/// Spec-level smaller root of the ray-sphere quadratic, or minus one when
/// the discriminant is negative (no intersection).
pub open spec fn spec_hit_sphere(r: Ray, center: Vec3, radius: Real) -> Real {
    let oc = r.origin.spec_sub(center);
    let a = r.direction.spec_length_squared();
    let half_b = oc.spec_dot(r.direction);
    let c = oc.spec_length_squared().s_sub(radius.s_mul(radius));
    let discriminant = half_b.s_mul(half_b).s_sub(a.s_mul(c));
    if discriminant.raw < 0 {
        real_from_raw(-(SCALE as int))
    } else {
        half_b.s_neg().s_sub(discriminant.s_sqrt()).s_div(a)
    }
}

/// Spec-level color of the fixed shading demo: surface-normal coloring on
/// a hit of the fixed sphere, the background gradient otherwise.
pub open spec fn spec_ray_color(r: Ray) -> Vec3 {
    let center = Vec3 { x: Real { raw: 0 }, y: Real { raw: 0 }, z: spec_one().s_neg() };
    let t = spec_hit_sphere(r, center, spec_half());
    if t.raw > 0 {
        let n = r.spec_at(t).spec_sub(center).spec_unit();
        let shifted = Vec3 {
            x: n.x.s_add(spec_one()),
            y: n.y.s_add(spec_one()),
            z: n.z.s_add(spec_one()),
        };
        shifted.spec_scale(spec_half())
    } else {
        spec_background(r)
    }
}

/// The background gradient a missed ray contributes: white at the horizon
/// blending into sky blue straight up.
pub fn background(r: &Ray) -> (color: Vec3)
    ensures
        color == spec_background(*r),
{
    let one = Real { raw: SCALE };
    let half = Real { raw: 32768 };
    let unit_direction = r.direction.unit_vector();
    let a = half.mul(unit_direction.y.add(one));
    let white = Vec3 { x: one, y: one, z: one };
    let sky = Vec3 { x: half, y: Real { raw: 45875 }, z: one };
    white.scale(one.sub(a)).add(sky.scale(a))
}

impl Ray {
    /// Spec-level point reached at parameter `t`.
    pub open spec fn spec_at(self, t: Real) -> Vec3 {
        self.origin.spec_add(self.direction.spec_scale(t))
    }

    /// Builds a ray from its origin and direction.
    pub fn new(origin: Vec3, direction: Vec3) -> (r: Ray)
        ensures
            r == (Ray { origin, direction }),
    {
        Ray { origin, direction }
    }

    /// The point reached at parameter `t`.
    pub fn at(&self, t: Real) -> (p: Vec3)
        ensures
            p == self.spec_at(t),
            p.wf(),
    {
        self.origin.add(self.direction.scale(t))
    }

    /// The color of the fixed shading demo for this ray: normal coloring
    /// where the ray hits the demo sphere, the background gradient where it
    /// misses.
    pub fn ray_color(&self) -> (color: Vec3)
        ensures
            color == spec_ray_color(*self),
    {
        let one = Real { raw: SCALE };
        let half = Real { raw: 32768 };
        let center = Vec3 { x: Real { raw: 0 }, y: Real { raw: 0 }, z: one.neg() };
        let t = self.hit_sphere(center, half);
        if t.raw > 0 {
            let n = self.at(t).sub(center).unit_vector();
            let shifted = Vec3 { x: n.x.add(one), y: n.y.add(one), z: n.z.add(one) };
            return shifted.scale(half);
        }
        background(self)
    }

    /// The smaller root of the ray-sphere quadratic against the given
    /// sphere, or minus one when the ray misses it.
    fn hit_sphere(&self, center: Vec3, radius: Real) -> (t: Real)
        ensures
            t == spec_hit_sphere(*self, center, radius),
    {
        let oc = self.origin.sub(center);
        let a = self.direction.length_squared();
        let half_b = oc.dot(&self.direction);
        let c = oc.length_squared().sub(radius.mul(radius));
        let discriminant = half_b.mul(half_b).sub(a.mul(c));
        if discriminant.raw < 0 {
            Real::from_int(-1)
        } else {
            half_b.neg().sub(discriminant.sqrt()).div(a)
        }
    }
}

} // verus!
