//! Surface materials and their scattering behaviour.
//!
//! A material answers, for an incoming ray and a surface record, whether the
//! light scatters onward — and if so, along which ray and with which
//! attenuation color — or is absorbed.  The three variants are a diffuse
//! surface, a fuzzed mirror, and a clear refractive medium.

use crate::fixed::{spec_one, Real, SCALE};
use crate::hittable::HitRecord;
use crate::ray::Ray;
use crate::rng::RandomSource;
use crate::vec3::{is_unit_sample, spec_reflect, spec_refract, Vec3};
use vstd::prelude::*;

verus! {

/// A diffuse surface that always scatters near the normal.
#[derive(Clone, Copy, PartialEq, Eq, Structural, Debug)]
pub struct Lambertian {
    pub albedo: Vec3,
}

/// A reflective surface with a roughness (`fuzz`) in `[0, 1]`.
#[derive(Clone, Copy, PartialEq, Eq, Structural, Debug)]
pub struct Metal {
    pub albedo: Vec3,
    pub fuzz: Real,
}

/// A clear refractive medium with the given refractive index.
#[derive(Clone, Copy, PartialEq, Eq, Structural, Debug)]
pub struct Dielectric {
    pub ir: Real,
}

/// The closed set of surface materials.  Materials are immutable after
/// construction and copied freely: any number of primitives may carry the
/// same material value.
#[derive(Clone, Copy, PartialEq, Eq, Structural, Debug)]
pub enum Material {
    Lambertian(Lambertian),
    Metal(Metal),
    Dielectric(Dielectric),
}

impl Lambertian {
    /// A diffuse material with the given albedo.
    pub fn new(albedo: Vec3) -> (r: Lambertian)
        ensures
            r.albedo == albedo,
    {
        Lambertian { albedo }
    }

    /// What diffuse scattering guarantees: it always scatters, from the hit
    /// point, attenuated by exactly the albedo, along the normal plus some
    /// unit sample (or the bare normal when that sum degenerates to zero).
    pub open spec fn spec_scatter_ok(self, rec: HitRecord, res: Option<(Vec3, Ray)>) -> bool {
        match res {
            Some(pair) => {
                &&& pair.0 == self.albedo
                &&& pair.1.origin == rec.p
                &&& exists|u: Vec3|
                    is_unit_sample(u) && pair.1.direction == (if rec.normal.spec_add(
                        u,
                    ).spec_near_zero() {
                        rec.normal
                    } else {
                        rec.normal.spec_add(u)
                    })
            },
            None => false,
        }
    }

    /// Diffuse scatter: the outgoing direction is the normal nudged by a
    /// random unit sample, falling back to the normal itself when the sum
    /// degenerates.
    pub fn scatter(&self, r_in: &Ray, rec: &HitRecord, rng: &mut RandomSource) -> (res: Option<
        (Vec3, Ray),
    >)
        ensures
            self.spec_scatter_ok(*rec, res),
    {
        let _ = r_in;
        let u = Vec3::random_unit_vector(rng);
        let mut scatter_direction = rec.normal.add(u);
        if scatter_direction.near_zero() {
            scatter_direction = rec.normal;
        }
        let res = Some((self.albedo, Ray::new(rec.p, scatter_direction)));
        proof {
            assert(is_unit_sample(u) && res->Some_0.1.direction == (if rec.normal.spec_add(
                u,
            ).spec_near_zero() {
                rec.normal
            } else {
                rec.normal.spec_add(u)
            }));
        }
        res
    }
}

impl Metal {
    /// A reflective material with the given albedo; the roughness is
    /// clamped into `[0, 1]` at construction.
    pub fn new(albedo: Vec3, fuzz: Real) -> (r: Metal)
        ensures
            r.albedo == albedo,
            r.fuzz.raw == if fuzz.raw < 0 {
                0int
            } else if fuzz.raw > SCALE {
                SCALE as int
            } else {
                fuzz.raw as int
            },
            0 <= r.fuzz.raw <= SCALE,
    {
        let clamped = if fuzz.raw < 0 {
            Real { raw: 0 }
        } else if fuzz.raw > SCALE {
            Real { raw: SCALE }
        } else {
            fuzz
        };
        Metal { albedo, fuzz: clamped }
    }

    /// What metallic scattering guarantees: the outgoing direction is the
    /// mirror reflection of the incoming unit direction, perturbed by
    /// `fuzz` times a unit sample — exactly the mirror reflection when the
    /// fuzz is zero — and the scatter is reported only while it still
    /// points away from the surface; otherwise the ray is absorbed.
    pub open spec fn spec_scatter_ok(self, r_in: Ray, rec: HitRecord, res: Option<
        (Vec3, Ray),
    >) -> bool {
        let reflected = spec_reflect(r_in.direction.spec_unit(), rec.normal);
        match res {
            Some(pair) => {
                &&& pair.0 == self.albedo
                &&& pair.1.origin == rec.p
                &&& pair.1.direction.spec_dot(rec.normal).raw > 0
                &&& (self.fuzz.raw == 0 ==> pair.1.direction == reflected)
                &&& exists|u: Vec3|
                    is_unit_sample(u) && pair.1.direction == reflected.spec_add(
                        u.spec_scale(self.fuzz),
                    )
            },
            None => exists|u: Vec3|
                is_unit_sample(u) && reflected.spec_add(u.spec_scale(self.fuzz)).spec_dot(
                    rec.normal,
                ).raw <= 0,
        }
    }

    /// Metallic scatter: reflect the incoming direction about the normal,
    /// fuzz it, and absorb the ray when the result grazes into the surface.
    pub fn scatter(&self, r_in: &Ray, rec: &HitRecord, rng: &mut RandomSource) -> (res: Option<
        (Vec3, Ray),
    >)
        ensures
            self.spec_scatter_ok(*r_in, *rec, res),
    {
        let reflected = Vec3::reflect(&r_in.direction.unit_vector(), &rec.normal);
        let u = Vec3::random_unit_vector(rng);
        let direction = reflected.add(u.scale(self.fuzz));
        proof {
            if self.fuzz.raw == 0 {
                crate::fixed::lemma_mul_r_units(u.x.raw as int);
                crate::fixed::lemma_mul_r_units(u.y.raw as int);
                crate::fixed::lemma_mul_r_units(u.z.raw as int);
                assert(u.spec_scale(self.fuzz).x.raw == 0 && u.spec_scale(self.fuzz).y.raw == 0
                    && u.spec_scale(self.fuzz).z.raw == 0);
                assert(direction == reflected);
            }
        }
        let scattered = Ray::new(rec.p, direction);
        if scattered.direction.dot(&rec.normal).raw > 0 {
            let res = Some((self.albedo, Ray::new(rec.p, direction)));
            proof {
                assert(is_unit_sample(u) && res->Some_0.1.direction == spec_reflect(
                    r_in.direction.spec_unit(),
                    rec.normal,
                ).spec_add(u.spec_scale(self.fuzz)));
            }
            res
        } else {
            proof {
                assert(is_unit_sample(u) && spec_reflect(
                    r_in.direction.spec_unit(),
                    rec.normal,
                ).spec_add(u.spec_scale(self.fuzz)).spec_dot(rec.normal).raw <= 0);
            }
            None
        }
    }
}

impl Dielectric {
    /// A refractive material with the given refractive index.
    pub fn new(ir: Real) -> (r: Dielectric)
        ensures
            r.ir == ir,
    {
        Dielectric { ir }
    }

    /// The ratio of refractive indices the refraction uses: the reciprocal
    /// of the index when entering from outside, the index itself when
    /// leaving from inside.
    pub open spec fn spec_ratio(self, front_face: bool) -> Real {
        if front_face {
            spec_one().s_div(self.ir)
        } else {
            self.ir
        }
    }

    /// Schlick's approximation of the Fresnel reflectance:
    /// `r0 + (1 - r0) (1 - cos)^5` with `r0 = ((1 - n) / (1 + n))^2`.
    pub open spec fn spec_reflectance(cosine: Real, ref_idx: Real) -> Real {
        let q = spec_one().s_sub(ref_idx).s_div(spec_one().s_add(ref_idx));
        let r0 = q.s_mul(q);
        let p = spec_one().s_sub(cosine);
        let p2 = p.s_mul(p);
        let p5 = p2.s_mul(p2).s_mul(p);
        r0.s_add(spec_one().s_sub(r0).s_mul(p5))
    }

    /// A head-on arrival: the incoming unit direction is exactly the
    /// negated (well-formed, at least unit-dot) surface normal.
    pub open spec fn spec_head_on(r_in: Ray, rec: HitRecord) -> bool {
        let ud = r_in.direction.spec_unit();
        &&& rec.normal.wf()
        &&& ud == rec.normal.spec_neg()
        &&& rec.normal.spec_dot(rec.normal).raw >= SCALE
    }

    /// What refractive scattering guarantees: it always scatters from the
    /// hit point with no tint; the outgoing direction is either the mirror
    /// reflection or the Snell refraction of the incoming unit direction;
    /// when Snell's law has no solution (total internal reflection) the
    /// reflection is forced; and with no index mismatch a head-on ray
    /// passes through unbent.
    pub open spec fn spec_scatter_ok(self, r_in: Ray, rec: HitRecord, res: Option<
        (Vec3, Ray),
    >) -> bool {
        let ud = r_in.direction.spec_unit();
        let ratio = self.spec_ratio(rec.front_face);
        let cos_theta = ud.spec_neg().spec_dot(rec.normal).s_min(spec_one());
        let sin_theta = spec_one().s_sub(cos_theta.s_mul(cos_theta)).s_sqrt();
        match res {
            Some(pair) => {
                &&& pair.0 == (Vec3 { x: spec_one(), y: spec_one(), z: spec_one() })
                &&& pair.1.origin == rec.p
                &&& (pair.1.direction == spec_reflect(ud, rec.normal) || pair.1.direction
                    == spec_refract(ud, rec.normal, ratio))
                &&& (ratio.s_mul(sin_theta).raw > SCALE ==> pair.1.direction == spec_reflect(
                    ud,
                    rec.normal,
                ))
                &&& ((self.ir == spec_one() && Self::spec_head_on(r_in, rec))
                    ==> pair.1.direction == ud)
            },
            None => false,
        }
    }

    /// Schlick's reflectance approximation on the fixed-point grid.
    fn reflectance(cosine: Real, ref_idx: Real) -> (r: Real)
        ensures
            r == Self::spec_reflectance(cosine, ref_idx),
    {
        let one = Real { raw: SCALE };
        let q = one.sub(ref_idx).div(one.add(ref_idx));
        let r0 = q.mul(q);
        let p = one.sub(cosine);
        let p2 = p.mul(p);
        let p5 = p2.mul(p2).mul(p);
        r0.add(one.sub(r0).mul(p5))
    }

    /// Refractive scatter: refract when Snell's law allows it and Schlick's
    /// reflectance loses the random draw, reflect otherwise; never absorb.
    pub fn scatter(&self, r_in: &Ray, rec: &HitRecord, rng: &mut RandomSource) -> (res: Option<
        (Vec3, Ray),
    >)
        ensures
            self.spec_scatter_ok(*r_in, *rec, res),
    {
        let one = Real { raw: SCALE };
        let attenuation = Vec3 { x: one, y: one, z: one };
        let refraction_ratio = if rec.front_face {
            one.div(self.ir)
        } else {
            self.ir
        };
        let unit_direction = r_in.direction.unit_vector();
        let cos_theta = unit_direction.neg().dot(&rec.normal).min(one);
        let sin_theta = one.sub(cos_theta.mul(cos_theta)).sqrt();
        let cannot_refract = refraction_ratio.mul(sin_theta).raw > SCALE;
        let draw = rng.next_unit();
        proof {
            if self.ir == spec_one() && Self::spec_head_on(*r_in, *rec) {
                lemma_head_on_pass_through(*r_in, *rec, self.ir);
            }
        }
        let direction = if cannot_refract || Self::reflectance(cos_theta, refraction_ratio).raw
            > draw.raw {
            Vec3::reflect(&unit_direction, &rec.normal)
        } else {
            Vec3::refract(&unit_direction, &rec.normal, refraction_ratio)
        };
        Some((attenuation, Ray::new(rec.p, direction)))
    }
}

impl Material {
    /// What scattering guarantees, variant by variant.
    pub open spec fn spec_scatter_ok(self, r_in: Ray, rec: HitRecord, res: Option<
        (Vec3, Ray),
    >) -> bool {
        match self {
            Material::Lambertian(m) => m.spec_scatter_ok(rec, res),
            Material::Metal(m) => m.spec_scatter_ok(r_in, rec, res),
            Material::Dielectric(m) => m.spec_scatter_ok(r_in, rec, res),
        }
    }

    /// Decides whether the incoming ray scatters at the recorded surface;
    /// on a scatter, yields the attenuation color and the outgoing ray.
    pub fn scatter(&self, r_in: &Ray, rec: &HitRecord, rng: &mut RandomSource) -> (res: Option<
        (Vec3, Ray),
    >)
        ensures
            self.spec_scatter_ok(*r_in, *rec, res),
    {
        match self {
            Material::Lambertian(m) => m.scatter(r_in, rec, rng),
            Material::Metal(m) => m.scatter(r_in, rec, rng),
            Material::Dielectric(m) => m.scatter(r_in, rec, rng),
        }
    }
}

/// With no index mismatch, a head-on arrival never reflects (the Schlick
/// reflectance is exactly zero and total internal reflection cannot arise)
/// and its refraction is exactly the incoming unit direction.
proof fn lemma_head_on_pass_through(r_in: Ray, rec: HitRecord, ir: Real)
    requires
        ir == spec_one(),
        Dielectric::spec_head_on(r_in, rec),
    ensures
        ({
            let one = spec_one();
            let ud = r_in.direction.spec_unit();
            let ratio = if rec.front_face {
                one.s_div(ir)
            } else {
                ir
            };
            let cos_theta = ud.spec_neg().spec_dot(rec.normal).s_min(one);
            let sin_theta = one.s_sub(cos_theta.s_mul(cos_theta)).s_sqrt();
            &&& ratio == one
            &&& cos_theta == one
            &&& sin_theta.raw == 0
            &&& ratio.s_mul(sin_theta).raw == 0
            &&& Dielectric::spec_reflectance(cos_theta, ratio).raw == 0
            &&& spec_refract(ud, rec.normal, ratio) == ud
        }),
{
    let one = spec_one();
    let n = rec.normal;
    let ud = r_in.direction.spec_unit();
    assert(65536int * 65536int == 4294967296int && 4294967296int / 65536int == 65536int && 0int
        / 131072int == 0int && 0int / 65536int == 0int) by (nonlinear_arith);
    assert(one.s_div(one) == one);
    crate::fixed::lemma_mul_r_units(n.x.raw as int);
    crate::fixed::lemma_mul_r_units(n.y.raw as int);
    crate::fixed::lemma_mul_r_units(n.z.raw as int);
    assert(ud.spec_neg() == n);
    let cos_theta = ud.spec_neg().spec_dot(n).s_min(one);
    assert(cos_theta == one);
    assert(cos_theta.s_mul(cos_theta).raw == SCALE);
    assert(one.s_sub(cos_theta.s_mul(cos_theta)).raw == 0);
    assert(one.s_sub(cos_theta.s_mul(cos_theta)).s_sqrt().raw == 0);
    crate::fixed::lemma_mul_r_units(SCALE as int);
    assert(one.s_mul(Real { raw: 0 }).raw == 0);
    // Schlick at matched indices: the base reflectance is zero and the
    // head-on correction term vanishes.
    let q = one.s_sub(one).s_div(one.s_add(one));
    assert(q.raw == 0);
    crate::fixed::lemma_mul_r_units(0);
    assert(Dielectric::spec_reflectance(cos_theta, one).raw == 0);
    crate::vec3::lemma_refract_identity(ud, n);
}

} // verus!
