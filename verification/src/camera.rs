//! The camera: viewport geometry, per-pixel sampled rays, the recursive
//! color accumulation, and the averaging and gamma correction that turn
//! accumulated light into displayable intensities.
//!
//! Configuration fields are set by the caller; `initialize` derives the
//! viewport state from them once, and `render` walks the pixels in row-major
//! order (top row first, left to right), emitting one intensity triple per
//! pixel.

use crate::fixed::{real_from_raw, sqrt_r, tdiv_raw, Real, BOUND, SCALE};
use crate::hittable::{HitRecord, Hittable, HittableList};
use crate::interval::Interval;
use crate::ray::{spec_background, Ray};
use crate::rng::RandomSource;
use crate::vec3::Vec3;
use vstd::prelude::*;

verus! {

/// The camera's configuration and, after `initialize`, its derived
/// viewport state.
#[derive(Clone, Copy, PartialEq, Eq, Structural, Debug)]
pub struct Camera {
    /// Width over height of the image.
    pub aspect_ratio: Real,
    /// Image width in pixels.
    pub image_width: usize,
    /// Independent samples accumulated per pixel.
    pub samples_per_pixel: usize,
    /// Bound on recursive bounces per sample.
    pub max_depth: usize,
    /// Vertical field of view, in degrees.
    pub vfov: Real,
    /// The point the camera looks from.
    pub lookfrom: Vec3,
    /// The point the camera looks at.
    pub lookat: Vec3,
    /// The camera's up direction.
    pub vup: Vec3,
    /// Aperture cone angle, in degrees; nonpositive means a pinhole.
    pub defocus_angle: Real,
    /// Distance from the camera to the plane of perfect focus.
    pub focus_dist: Real,
    /// Derived: image height in pixels (at least one).
    pub image_height: usize,
    /// Derived: the camera center (equal to `lookfrom`).
    pub center: Vec3,
    /// Derived: the center of pixel (0, 0).
    pub pixel00_loc: Vec3,
    /// Derived: offset from one pixel to the next across a row.
    pub pixel_delta_u: Vec3,
    /// Derived: offset from one pixel to the next down a column.
    pub pixel_delta_v: Vec3,
    /// Derived: viewport basis vector pointing right.
    pub u: Vec3,
    /// Derived: viewport basis vector pointing up.
    pub v: Vec3,
    /// Derived: unit vector from the target toward the camera.
    pub w: Vec3,
    /// Derived: defocus disk basis along `u`.
    pub defocus_disk_u: Vec3,
    /// Derived: defocus disk basis along `v`.
    pub defocus_disk_v: Vec3,
}

impl Default for Camera {
    /// A square, low-effort default camera looking at the origin from just
    /// in front of it, with a pinhole aperture.  The derived fields stay
    /// zeroed until `initialize` runs.
    fn default() -> (r: Camera)
        ensures
            r.aspect_ratio.raw == SCALE,
            r.image_width == 100,
            r.samples_per_pixel == 10,
            r.max_depth == 10,
            r.vfov.raw == 90 * (SCALE as int),
            r.lookfrom == (Vec3 {
                x: Real { raw: 0 },
                y: Real { raw: 0 },
                z: Real { raw: -(SCALE as int) as i64 },
            }),
            r.lookat == (Vec3 { x: Real { raw: 0 }, y: Real { raw: 0 }, z: Real { raw: 0 } }),
            r.vup == (Vec3 { x: Real { raw: 0 }, y: Real { raw: SCALE }, z: Real { raw: 0 } }),
            r.defocus_angle.raw == 0,
            r.focus_dist.raw == 10 * (SCALE as int),
            r.image_height == 0,
            r.center == crate::vec3::spec_zero(),
            r.pixel00_loc == crate::vec3::spec_zero(),
            r.pixel_delta_u == crate::vec3::spec_zero(),
            r.pixel_delta_v == crate::vec3::spec_zero(),
            r.u == crate::vec3::spec_zero(),
            r.v == crate::vec3::spec_zero(),
            r.w == crate::vec3::spec_zero(),
            r.defocus_disk_u == crate::vec3::spec_zero(),
            r.defocus_disk_v == crate::vec3::spec_zero(),
    {
        Camera {
            aspect_ratio: Real { raw: 65536 },
            image_width: 100,
            samples_per_pixel: 10,
            max_depth: 10,
            vfov: Real { raw: 5898240 },
            lookfrom: Vec3 { x: Real { raw: 0 }, y: Real { raw: 0 }, z: Real { raw: -65536 } },
            lookat: Vec3 { x: Real { raw: 0 }, y: Real { raw: 0 }, z: Real { raw: 0 } },
            vup: Vec3 { x: Real { raw: 0 }, y: Real { raw: 65536 }, z: Real { raw: 0 } },
            defocus_angle: Real { raw: 0 },
            focus_dist: Real { raw: 655360 },
            image_height: 0,
            center: Vec3 { x: Real { raw: 0 }, y: Real { raw: 0 }, z: Real { raw: 0 } },
            pixel00_loc: Vec3 { x: Real { raw: 0 }, y: Real { raw: 0 }, z: Real { raw: 0 } },
            pixel_delta_u: Vec3 { x: Real { raw: 0 }, y: Real { raw: 0 }, z: Real { raw: 0 } },
            pixel_delta_v: Vec3 { x: Real { raw: 0 }, y: Real { raw: 0 }, z: Real { raw: 0 } },
            u: Vec3 { x: Real { raw: 0 }, y: Real { raw: 0 }, z: Real { raw: 0 } },
            v: Vec3 { x: Real { raw: 0 }, y: Real { raw: 0 }, z: Real { raw: 0 } },
            w: Vec3 { x: Real { raw: 0 }, y: Real { raw: 0 }, z: Real { raw: 0 } },
            defocus_disk_u: Vec3 { x: Real { raw: 0 }, y: Real { raw: 0 }, z: Real { raw: 0 } },
            defocus_disk_v: Vec3 { x: Real { raw: 0 }, y: Real { raw: 0 }, z: Real { raw: 0 } },
        }
    }
}

/// Pi on the fixed-point grid (rounded down).
pub open spec fn spec_pi() -> Real {
    Real { raw: 205887 }
}

/// Spec-level truncated sine series `x - x^3/6 + x^5/120`, adequate on the
/// half-quadrant angles the camera uses.
pub open spec fn spec_sin_poly(x: Real) -> Real {
    let x2 = x.s_mul(x);
    let x3 = x2.s_mul(x);
    let x5 = x3.s_mul(x2);
    x.s_sub(x3.s_div(Real { raw: 393216 })).s_add(x5.s_div(Real { raw: 7864320 }))
}

/// Spec-level truncated cosine series `1 - x^2/2 + x^4/24`.
pub open spec fn spec_cos_poly(x: Real) -> Real {
    let x2 = x.s_mul(x);
    let x4 = x2.s_mul(x2);
    Real { raw: SCALE }.s_sub(x2.s_div(Real { raw: 131072 })).s_add(
        x4.s_div(Real { raw: 1572864 }),
    )
}

/// Spec-level tangent of half the given angle in degrees: the angle is
/// halved and converted to radians (`deg * pi / 360`), then the truncated
/// sine and cosine series are divided.
pub open spec fn spec_tan_half_degrees(deg: Real) -> Real {
    let x = deg.s_mul(spec_pi()).s_div(Real { raw: 23592960 });
    spec_sin_poly(x).s_div(spec_cos_poly(x))
}

/// Tangent of half the given angle in degrees, by truncated series.
fn tan_half_degrees(deg: Real) -> (r: Real)
    ensures
        r == spec_tan_half_degrees(deg),
{
    let x = deg.mul(Real { raw: 205887 }).div(Real { raw: 23592960 });
    let x2 = x.mul(x);
    let x3 = x2.mul(x);
    let x5 = x3.mul(x2);
    let s = x.sub(x3.div(Real { raw: 393216 })).add(x5.div(Real { raw: 7864320 }));
    let x4 = x2.mul(x2);
    let c = Real { raw: SCALE }.sub(x2.div(Real { raw: 131072 })).add(
        x4.div(Real { raw: 1572864 }),
    );
    s.div(c)
}

/// The acceptance interval of the recursive tracer: the lower bound (about
/// one thousandth) keeps a bounced ray from re-hitting the surface it just
/// left, and the upper bound is the whole representable line.
pub open spec fn spec_trace_interval() -> Interval {
    Interval { min: Real { raw: 65 }, max: Real { raw: BOUND } }
}

/// Whether no scene member meets the ray inside the tracer's interval.
pub open spec fn spec_misses_all(objects: Seq<Hittable>, r: Ray) -> bool {
    forall|k: int| 0 <= k < objects.len() ==> !objects[k].spec_hits(r, spec_trace_interval())
}

/// What one traced bounce guarantees when some member is hit: the closest
/// hit's material was consulted — for some scatter outcome it allows, the
/// color is the attenuation times a recursively gathered sub-color (which
/// at depth one is exactly black), or black outright on absorption.
pub open spec fn spec_bounce_ok(r: Ray, objects: Seq<Hittable>, depth: int, color: Vec3) -> bool {
    exists|rec: HitRecord, res: Option<(Vec3, Ray)>|
        #![trigger rec.mat.spec_scatter_ok(r, rec, res)]
        {
            &&& (exists|j: int|
                0 <= j < objects.len() && objects[j].spec_hits(r, spec_trace_interval()) && rec
                    == objects[j].spec_hit_record(r, spec_trace_interval()))
            &&& (forall|j: int|
                0 <= j < objects.len() && objects[j].spec_hits(r, spec_trace_interval())
                    ==> rec.t.raw <= objects[j].spec_hit_t(r, spec_trace_interval()).raw)
            &&& rec.mat.spec_scatter_ok(r, rec, res)
            &&& match res {
                Some(pair) => exists|sub: Vec3|
                    color == #[trigger] pair.0.spec_mul(sub) && (depth == 1 ==> sub
                        == crate::vec3::spec_zero()),
                None => color == crate::vec3::spec_zero(),
            }
        }
}

/// Everything the recursive tracer guarantees of a gathered color: black
/// at exhausted depth, the background gradient when every member misses,
/// and a scatter-attenuate-recurse shape otherwise.
pub open spec fn spec_color_ok(r: Ray, objects: Seq<Hittable>, depth: int, color: Vec3) -> bool {
    &&& (depth == 0 ==> color == crate::vec3::spec_zero())
    &&& ((depth > 0 && spec_misses_all(objects, r)) ==> color == spec_background(r))
    &&& ((depth > 0 && !spec_misses_all(objects, r)) ==> spec_bounce_ok(r, objects, depth, color))
}

/// What one accumulated pixel sample guarantees: it is the gathered color
/// of some ray the camera generates for pixel `(i, j)`.
pub open spec fn spec_sample_ok(cam: Camera, objects: Seq<Hittable>, i: int, j: int, c: Vec3) -> bool {
    exists|ray: Ray|
        #![trigger cam.spec_ray_ok(i, j, ray)]
        cam.spec_ray_ok(i, j, ray) && spec_color_ok(ray, objects, cam.max_depth as int, c)
}

/// The accumulated sum of a sequence of sample colors.
pub open spec fn sum_colors(samples: Seq<Vec3>) -> Vec3
    decreases samples.len(),
{
    if samples.len() == 0 {
        crate::vec3::spec_zero()
    } else {
        sum_colors(samples.drop_last()).spec_add(samples.last())
    }
}

/// The displayable triple of an accumulated color over a sample count.
pub open spec fn spec_write_triple(c: Vec3, samples: int) -> (u8, u8, u8) {
    (
        spec_write_channel(c.x.raw as int, samples) as u8,
        spec_write_channel(c.y.raw as int, samples) as u8,
        spec_write_channel(c.z.raw as int, samples) as u8,
    )
}

/// What the pixel at row-major index `k` of a render guarantees: it is the
/// finalized average of `samples_per_pixel` accumulated sample colors, each
/// gathered along some generated ray of pixel
/// `(k % image_width, k / image_width)`.
pub open spec fn spec_pixel_ok(cam: Camera, objects: Seq<Hittable>, k: int, px: (u8, u8, u8)) -> bool {
    exists|samples: Seq<Vec3>|
        #![trigger sum_colors(samples)]
        {
            &&& samples.len() == cam.samples_per_pixel
            &&& (forall|m: int|
                0 <= m < samples.len() ==> spec_sample_ok(
                    cam,
                    objects,
                    k % (cam.image_width as int),
                    k / (cam.image_width as int),
                    #[trigger] samples[m],
                ))
            &&& px == spec_write_triple(sum_colors(samples), cam.samples_per_pixel as int)
        }
}

impl Camera {
    /// The derived viewport state that `initialize` computes from the
    /// configuration fields, with the configuration carried over unchanged.
    pub open spec fn spec_derive(self) -> Camera {
        let ih = crate::fixed::max_r(
            1,
            tdiv_raw(self.image_width * 65536, self.aspect_ratio.raw as int),
        );
        let width_real = real_from_raw(crate::fixed::clamp_raw(self.image_width * 65536));
        let height_real = real_from_raw(crate::fixed::clamp_raw(ih * 65536));
        let center = self.lookfrom;
        let h = spec_tan_half_degrees(self.vfov);
        let viewport_height = h.s_add(h).s_mul(self.focus_dist);
        let viewport_width = viewport_height.s_mul(width_real.s_div(height_real));
        let w_basis = self.lookfrom.spec_sub(self.lookat).spec_unit();
        let u_basis = self.vup.spec_cross(w_basis).spec_unit();
        let v_basis = w_basis.spec_cross(u_basis);
        let viewport_u = u_basis.spec_scale(viewport_width);
        let viewport_v = v_basis.spec_neg().spec_scale(viewport_height);
        let pixel_delta_u = viewport_u.spec_div_by(width_real);
        let pixel_delta_v = viewport_v.spec_div_by(height_real);
        let viewport_upper_left = center.spec_sub(
            viewport_u.spec_add(viewport_v).spec_div_by(Real { raw: 131072 }),
        ).spec_sub(w_basis.spec_scale(self.focus_dist));
        let pixel00_loc = viewport_upper_left.spec_add(
            pixel_delta_u.spec_add(pixel_delta_v).spec_div_by(Real { raw: 131072 }),
        );
        let radius = spec_tan_half_degrees(self.defocus_angle).s_mul(self.focus_dist);
        Camera {
            image_height: ih as usize,
            center,
            pixel00_loc,
            pixel_delta_u,
            pixel_delta_v,
            u: u_basis,
            v: v_basis,
            w: w_basis,
            defocus_disk_u: u_basis.spec_scale(radius),
            defocus_disk_v: v_basis.spec_scale(radius),
            ..self
        }
    }

    /// The nominal center of pixel `(i, j)` on the viewport.
    pub open spec fn spec_pixel_center(self, i: int, j: int) -> Vec3 {
        self.pixel00_loc.spec_add(
            self.pixel_delta_u.spec_scale(real_from_raw(crate::fixed::clamp_raw(i * 65536))),
        ).spec_add(
            self.pixel_delta_v.spec_scale(real_from_raw(crate::fixed::clamp_raw(j * 65536))),
        )
    }

    /// Whether `v` is an anti-aliasing jitter: up to half a pixel's
    /// footprint in each viewport direction.
    pub open spec fn spec_is_jitter(self, v: Vec3) -> bool {
        exists|px: Real, py: Real|
            -32768 <= px.raw < 32768 && -32768 <= py.raw < 32768 && v
                == self.pixel_delta_u.spec_scale(px).spec_add(self.pixel_delta_v.spec_scale(py))
    }

    /// Whether `o` is a point of the camera's defocus disk: the center
    /// offset along the disk basis by a sample of the unit disk.
    pub open spec fn spec_on_defocus_disk(self, o: Vec3) -> bool {
        exists|p: Vec3|
            p.z.raw == 0 && p.spec_length_squared().raw < SCALE && o == self.defocus_disk_u.spec_scale(
                p.x,
            ).spec_add(self.defocus_disk_v.spec_scale(p.y)).spec_add(self.center)
    }

    /// What a generated ray for pixel `(i, j)` looks like: it starts at
    /// the camera center (always so for a pinhole) or on the defocus disk,
    /// and points from its origin at the pixel's jittered center.
    pub open spec fn spec_ray_ok(self, i: int, j: int, r: Ray) -> bool {
        &&& (self.defocus_angle.raw <= 0 ==> r.origin == self.center)
        &&& (r.origin == self.center || self.spec_on_defocus_disk(r.origin))
        &&& exists|jitter: Vec3|
            self.spec_is_jitter(jitter) && r.direction == self.spec_pixel_center(i, j).spec_add(
                jitter,
            ).spec_sub(r.origin)
    }

    /// Derives the viewport state from the configuration: image height
    /// from width and aspect ratio (at least one), the orthonormal viewing
    /// basis, per-pixel viewport deltas, the location of pixel (0, 0), and
    /// the defocus disk basis.  The width bound is the model's limit: it
    /// keeps the derived height inside the pixel grid on every platform
    /// the verifier admits.
    pub fn initialize(&mut self)
        requires
            1 <= old(self).image_width <= 65535,
            old(self).aspect_ratio.raw > 0,
        ensures
            *final(self) == (*old(self)).spec_derive(),
    {
        let num: i64 = (self.image_width as i64) * 65536;
        let ih_raw: i64 = crate::fixed::tdiv_i64(num, self.aspect_ratio.raw);
        proof {
            vstd::arithmetic::div_mod::lemma_div_nonincreasing(num as int,
                self.aspect_ratio.raw as int);
            vstd::arithmetic::div_mod::lemma_div_pos_is_pos(num as int,
                self.aspect_ratio.raw as int);
        }
        let ih_raw: i64 = if ih_raw < 1 {
            1
        } else {
            ih_raw
        };
        self.image_height = ih_raw as usize;

        self.center = self.lookfrom;

        let h = tan_half_degrees(self.vfov);
        let viewport_height = h.add(h).mul(self.focus_dist);
        let width_real = Real::from_int(self.image_width as i64);
        let height_real = Real::from_int(ih_raw);
        let viewport_width = viewport_height.mul(width_real.div(height_real));

        self.w = self.lookfrom.sub(self.lookat).unit_vector();
        self.u = self.vup.cross(&self.w).unit_vector();
        self.v = self.w.cross(&self.u);

        let viewport_u = self.u.scale(viewport_width);
        let viewport_v = self.v.neg().scale(viewport_height);

        self.pixel_delta_u = viewport_u.div_by(width_real);
        self.pixel_delta_v = viewport_v.div_by(height_real);

        let two = Real { raw: 131072 };
        let viewport_upper_left = self.center.sub(viewport_u.add(viewport_v).div_by(two)).sub(
            self.w.scale(self.focus_dist),
        );
        self.pixel00_loc = viewport_upper_left.add(
            self.pixel_delta_u.add(self.pixel_delta_v).div_by(two),
        );

        let focus_disk_radius = tan_half_degrees(self.defocus_angle).mul(self.focus_dist);
        self.defocus_disk_u = self.u.scale(focus_disk_radius);
        self.defocus_disk_v = self.v.scale(focus_disk_radius);
    }

    /// A sampled ray through pixel `(i, j)`: jittered inside the pixel's
    /// footprint for anti-aliasing, from the camera center (pinhole) or a
    /// random point of the defocus disk (finite aperture).  The index
    /// bounds are the machine's: pixel indices must fit the signed raw
    /// scalar.
    pub fn get_ray(&self, i: usize, j: usize, rng: &mut RandomSource) -> (r: Ray)
        requires
            i <= 0x7fffffffffffffff,
            j <= 0x7fffffffffffffff,
        ensures
            self.spec_ray_ok(i as int, j as int, r),
    {
        let pixel_center = self.pixel00_loc.add(
            self.pixel_delta_u.scale(Real::from_int(i as i64)),
        ).add(self.pixel_delta_v.scale(Real::from_int(j as i64)));
        let jitter = self.pixel_sample_square(rng);
        let pixel_sample = pixel_center.add(jitter);

        let ray_origin = if self.defocus_angle.raw <= 0 {
            self.center
        } else {
            self.defocus_disk_sample(rng)
        };
        let ray_direction = pixel_sample.sub(ray_origin);
        Ray::new(ray_origin, ray_direction)
    }

    /// A point sampled uniformly from the camera's defocus disk.
    fn defocus_disk_sample(&self, rng: &mut RandomSource) -> (o: Vec3)
        ensures
            self.spec_on_defocus_disk(o),
    {
        let p = Vec3::random_in_unit_disk(rng);
        let o = self.defocus_disk_u.scale(p.x).add(self.defocus_disk_v.scale(p.y)).add(
            self.center,
        );
        proof {
            assert(p.z.raw == 0 && p.spec_length_squared().raw < SCALE && o
                == self.defocus_disk_u.spec_scale(p.x).spec_add(
                self.defocus_disk_v.spec_scale(p.y),
            ).spec_add(self.center));
        }
        o
    }

    /// An anti-aliasing offset: up to half a pixel in each direction.
    fn pixel_sample_square(&self, rng: &mut RandomSource) -> (v: Vec3)
        ensures
            self.spec_is_jitter(v),
    {
        let neg_half = Real { raw: -32768 };
        let px = neg_half.add(rng.next_unit());
        let py = neg_half.add(rng.next_unit());
        let v = self.pixel_delta_u.scale(px).add(self.pixel_delta_v.scale(py));
        proof {
            assert(-32768 <= px.raw < 32768 && -32768 <= py.raw < 32768 && v
                == self.pixel_delta_u.spec_scale(px).spec_add(self.pixel_delta_v.spec_scale(py)));
        }
        v
    }

    /// The color a ray gathers from the scene: black once the recursion
    /// depth is exhausted; on a hit, the material's attenuation times the
    /// color of the scattered ray (black when absorbed); on a miss, the
    /// background gradient.
    pub fn ray_color(&self, r: &Ray, world: &HittableList, depth: usize, rng: &mut
        RandomSource) -> (color: Vec3)
        ensures
            depth == 0 ==> color == crate::vec3::spec_zero(),
            (depth > 0 && spec_misses_all(world.objects@, *r)) ==> color == spec_background(*r),
            (depth > 0 && !spec_misses_all(world.objects@, *r)) ==> spec_bounce_ok(
                *r,
                world.objects@,
                depth as int,
                color,
            ),
        decreases depth,
    {
        if depth == 0 {
            return Vec3 { x: Real { raw: 0 }, y: Real { raw: 0 }, z: Real { raw: 0 } };
        }
        match world.hit(r, Interval::new(Real { raw: 65 }, Real { raw: BOUND })) {
            Some(rec) => {
                let res = rec.mat.scatter(r, &rec, rng);
                match res {
                    Some((attenuation, scattered)) => {
                        let sub = self.ray_color(&scattered, world, depth - 1, rng);
                        let color = attenuation.mul(sub);
                        proof {
                            assert(rec.mat.spec_scatter_ok(*r, rec, res));
                            assert(color == res->Some_0.0.spec_mul(sub) && (depth == 1 ==> sub
                                == crate::vec3::spec_zero()));
                            assert(spec_bounce_ok(*r, world.objects@, depth as int, color));
                        }
                        color
                    },
                    None => {
                        let color = Vec3 { x: Real { raw: 0 }, y: Real { raw: 0 }, z: Real {
                            raw: 0,
                        } };
                        proof {
                            assert(rec.mat.spec_scatter_ok(*r, rec, res));
                            assert(spec_bounce_ok(*r, world.objects@, depth as int, color));
                        }
                        color
                    },
                }
            },
            None => crate::ray::background(r),
        }
    }

    /// Renders the scene: derives the viewport, then walks the pixels in
    /// row-major order (top row first, left to right), accumulating
    /// `samples_per_pixel` traced samples per pixel and finalizing each
    /// into an intensity triple — each emitted pixel is pinned to that
    /// shape by `spec_pixel_ok`.  With an exhausted recursion budget every
    /// pixel is pure black.  The width and sample-count bounds are the
    /// model's limits: the derived height must fit the pixel grid and the
    /// sample divisor the signed raw scalar.
    pub fn render(&mut self, world: &HittableList, rng: &mut RandomSource) -> (pixels: Vec<
        (u8, u8, u8),
    >)
        requires
            1 <= old(self).image_width <= 65535,
            old(self).aspect_ratio.raw > 0,
            1 <= old(self).samples_per_pixel <= 0x7fffffffffffffff,
        ensures
            *final(self) == (*old(self)).spec_derive(),
            pixels@.len() == final(self).image_height * final(self).image_width,
            forall|k: int|
                0 <= k < pixels@.len() ==> #[trigger] spec_pixel_ok(
                    *final(self),
                    world.objects@,
                    k,
                    pixels@[k],
                ),
            old(self).max_depth == 0 ==> forall|k: int|
                0 <= k < pixels@.len() ==> pixels@[k] == (0u8, 0u8, 0u8),
    {
        self.initialize();
        let ghost cam = *self;
        proof {
            assert(cam.image_height >= 1);
            vstd::arithmetic::div_mod::lemma_div_nonincreasing(
                old(self).image_width * 65536,
                old(self).aspect_ratio.raw as int,
            );
            vstd::arithmetic::div_mod::lemma_div_pos_is_pos(
                old(self).image_width * 65536,
                old(self).aspect_ratio.raw as int,
            );
            assert(cam.image_height <= 4294901760);
        }
        let mut pixels: Vec<(u8, u8, u8)> = Vec::new();
        let mut j: usize = 0;
        while j < self.image_height
            invariant
                *self == cam,
                1 <= cam.image_width <= 65535,
                1 <= cam.samples_per_pixel <= 0x7fffffffffffffff,
                cam.image_height <= 4294901760,
                j <= cam.image_height,
                pixels@.len() == j * cam.image_width,
                forall|k: int|
                    0 <= k < pixels@.len() ==> #[trigger] spec_pixel_ok(
                        cam,
                        world.objects@,
                        k,
                        pixels@[k],
                    ),
                cam.max_depth == 0 ==> forall|k: int|
                    0 <= k < pixels@.len() ==> pixels@[k] == (0u8, 0u8, 0u8),
            decreases cam.image_height - j,
        {
            let mut i: usize = 0;
            while i < self.image_width
                invariant
                    *self == cam,
                    1 <= cam.image_width <= 65535,
                    1 <= cam.samples_per_pixel <= 0x7fffffffffffffff,
                    cam.image_height <= 4294901760,
                    j < cam.image_height,
                    i <= cam.image_width,
                    pixels@.len() == j * cam.image_width + i,
                    forall|k: int|
                        0 <= k < pixels@.len() ==> #[trigger] spec_pixel_ok(
                            cam,
                            world.objects@,
                            k,
                            pixels@[k],
                        ),
                    cam.max_depth == 0 ==> forall|k: int|
                        0 <= k < pixels@.len() ==> pixels@[k] == (0u8, 0u8, 0u8),
                decreases cam.image_width - i,
            {
                let mut pixel_color = Vec3 { x: Real { raw: 0 }, y: Real { raw: 0 }, z: Real {
                    raw: 0,
                } };
                let ghost mut samples: Seq<Vec3> = Seq::empty();
                let mut s: usize = 0;
                while s < self.samples_per_pixel
                    invariant
                        *self == cam,
                        1 <= cam.image_width <= 65535,
                        cam.image_height <= 4294901760,
                        i < cam.image_width,
                        j < cam.image_height,
                        s <= cam.samples_per_pixel,
                        samples.len() == s,
                        pixel_color == sum_colors(samples),
                        forall|m: int|
                            0 <= m < samples.len() ==> spec_sample_ok(
                                cam,
                                world.objects@,
                                i as int,
                                j as int,
                                #[trigger] samples[m],
                            ),
                        cam.max_depth == 0 ==> pixel_color == crate::vec3::spec_zero(),
                    decreases cam.samples_per_pixel - s,
                {
                    let ray = self.get_ray(i, j, rng);
                    let sample = self.ray_color(&ray, world, self.max_depth, rng);
                    proof {
                        assert(cam.spec_ray_ok(i as int, j as int, ray));
                        assert(spec_color_ok(ray, world.objects@, cam.max_depth as int, sample));
                        assert(spec_sample_ok(cam, world.objects@, i as int, j as int, sample));
                        let prev = samples;
                        samples = samples.push(sample);
                        assert(samples.drop_last() =~= prev);
                        assert(samples.last() == sample);
                    }
                    pixel_color = pixel_color.add(sample);
                    s = s + 1;
                }
                let px = write_color(pixel_color, self.samples_per_pixel);
                proof {
                    assert(px == spec_write_triple(
                        sum_colors(samples),
                        cam.samples_per_pixel as int,
                    ));
                    let k = j * (cam.image_width as int) + i;
                    vstd::arithmetic::div_mod::lemma_fundamental_div_mod_converse(
                        k,
                        cam.image_width as int,
                        j as int,
                        i as int,
                    );
                    assert(spec_pixel_ok(cam, world.objects@, k, px));
                    if cam.max_depth == 0 {
                        vstd::arithmetic::div_mod::lemma_div_of0(cam.samples_per_pixel as int);
                        vstd::arithmetic::div_mod::lemma_div_of0(65536);
                        assert(spec_write_channel(0, cam.samples_per_pixel as int) == 0);
                    }
                }
                pixels.push(px);
                i = i + 1;
            }
            proof {
                assert((j + 1) * (cam.image_width as int) == j * (cam.image_width as int)
                    + cam.image_width) by (nonlinear_arith);
            }
            j = j + 1;
        }
        pixels
    }
}

/// Spec-level gamma correction: the square root maps linear light to a
/// display-ready intensity (a gamma of two).
pub open spec fn spec_linear_to_gamma(x: Real) -> Real {
    x.s_sqrt()
}

/// Gamma correction by square root.
fn linear_to_gamma(linear_component: Real) -> (r: Real)
    ensures
        r == spec_linear_to_gamma(linear_component),
{
    linear_component.sqrt()
}

/// Spec-level displayable intensity of one color channel with raw value
/// `c` summed over `samples` samples: average, gamma-correct, clamp into
/// `[0, 0.999]`, and scale to an integer in `[0, 255]`.
pub open spec fn spec_write_channel(c: int, samples: int) -> int {
    let scaled = tdiv_raw(c, samples);
    let g = sqrt_r(scaled);
    let clamped = if g < 0 {
        0int
    } else if g > 65470 {
        65470int
    } else {
        g
    };
    tdiv_raw(256 * clamped, SCALE as int)
}

/// Averages an accumulated pixel color over its sample count,
/// gamma-corrects each channel, clamps it into displayable range, and
/// scales it to an integer intensity in `[0, 255]`.  The sample count must
/// fit the signed raw scalar it divides on.
pub fn write_color(pixel_color: Vec3, samples_per_pixel: usize) -> (r: (u8, u8, u8))
    requires
        1 <= samples_per_pixel <= 0x7fffffffffffffff,
    ensures
        r.0 == spec_write_channel(pixel_color.x.raw as int, samples_per_pixel as int),
        r.1 == spec_write_channel(pixel_color.y.raw as int, samples_per_pixel as int),
        r.2 == spec_write_channel(pixel_color.z.raw as int, samples_per_pixel as int),
{
    let samples = samples_per_pixel as i64;
    (
        write_channel(pixel_color.x, samples),
        write_channel(pixel_color.y, samples),
        write_channel(pixel_color.z, samples),
    )
}

/// One channel of `write_color`.
fn write_channel(c: Real, samples: i64) -> (r: u8)
    requires
        1 <= samples,
    ensures
        r == spec_write_channel(c.raw as int, samples as int),
{
    let scaled = Real { raw: crate::fixed::tdiv_i64(c.raw, samples) };
    let g = linear_to_gamma(scaled);
    // Displayable intensities live in [0, 0.999]; 65470 is 0.999 rounded
    // down to the grid.
    let intensity = Interval::new(Real { raw: 0 }, Real { raw: 65470 });
    let clamped = intensity.clamp(g);
    proof {
        crate::fixed::lemma_sqrt_r_range(scaled.raw as int);
        assert(0 <= clamped.raw <= 65470);
    }
    let wide = 256 * clamped.raw;
    let q = crate::fixed::tdiv_i64(wide, 65536);
    proof {
        assert(q == tdiv_raw(256 * (clamped.raw as int), SCALE as int));
        assert(wide as int / 65536 <= 16760320int / 65536) by {
            vstd::arithmetic::div_mod::lemma_div_is_ordered(wide as int, 16760320, 65536);
        }
        assert(16760320int / 65536int == 255int) by (nonlinear_arith);
        vstd::arithmetic::div_mod::lemma_div_pos_is_pos(wide as int, 65536);
    }
    q as u8
}

} // verus!
