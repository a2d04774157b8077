//! Three-component vectors over fixed-point reals.
//!
//! A `Vec3` serves interchangeably as a point, a direction, and a color.
//! Every arithmetic operation has a spec-level twin (`spec_*`) that pins the
//! executable result exactly, component by component, over the raw
//! fixed-point integers.

use crate::fixed::{abs_int, div_r, mul_r, spec_one, tdiv_raw, Real, BOUND, SCALE};
use crate::rng::RandomSource;
use vstd::prelude::*;

verus! {

/// A vector, point, or color with fixed-point components.
#[derive(Clone, Copy, PartialEq, Eq, Structural, Debug)]
pub struct Vec3 {
    pub x: Real,
    pub y: Real,
    pub z: Real,
}

impl Default for Vec3 {
    /// The zero vector.
    fn default() -> (r: Vec3)
        ensures
            r.x.raw == 0 && r.y.raw == 0 && r.z.raw == 0,
    {
        Vec3 { x: Real { raw: 0 }, y: Real { raw: 0 }, z: Real { raw: 0 } }
    }
}

impl Vec3 {
    /// Every component's raw value avoids the one unrepresentable count, so
    /// negation and the other saturating operations are exact on it.
    pub open spec fn wf(self) -> bool {
        &&& -(BOUND as int) <= self.x.raw
        &&& -(BOUND as int) <= self.y.raw
        &&& -(BOUND as int) <= self.z.raw
    }

    /// Spec-level component-wise sum.
    pub open spec fn spec_add(self, rhs: Vec3) -> Vec3 {
        Vec3 { x: self.x.s_add(rhs.x), y: self.y.s_add(rhs.y), z: self.z.s_add(rhs.z) }
    }

    /// Spec-level component-wise difference.
    pub open spec fn spec_sub(self, rhs: Vec3) -> Vec3 {
        Vec3 { x: self.x.s_sub(rhs.x), y: self.y.s_sub(rhs.y), z: self.z.s_sub(rhs.z) }
    }

    /// Spec-level component-wise product.
    pub open spec fn spec_mul(self, rhs: Vec3) -> Vec3 {
        Vec3 { x: self.x.s_mul(rhs.x), y: self.y.s_mul(rhs.y), z: self.z.s_mul(rhs.z) }
    }

    /// Spec-level scaling by a scalar.
    pub open spec fn spec_scale(self, s: Real) -> Vec3 {
        Vec3 { x: self.x.s_mul(s), y: self.y.s_mul(s), z: self.z.s_mul(s) }
    }

    /// Spec-level division by a scalar.
    pub open spec fn spec_div_by(self, s: Real) -> Vec3 {
        Vec3 { x: self.x.s_div(s), y: self.y.s_div(s), z: self.z.s_div(s) }
    }

    /// Spec-level negation.
    pub open spec fn spec_neg(self) -> Vec3 {
        Vec3 { x: self.x.s_neg(), y: self.y.s_neg(), z: self.z.s_neg() }
    }

    /// Spec-level dot product.
    pub open spec fn spec_dot(self, rhs: Vec3) -> Real {
        self.x.s_mul(rhs.x).s_add(self.y.s_mul(rhs.y)).s_add(self.z.s_mul(rhs.z))
    }

    /// Spec-level cross product.
    pub open spec fn spec_cross(self, rhs: Vec3) -> Vec3 {
        Vec3 {
            x: self.y.s_mul(rhs.z).s_sub(self.z.s_mul(rhs.y)),
            y: self.z.s_mul(rhs.x).s_sub(self.x.s_mul(rhs.z)),
            z: self.x.s_mul(rhs.y).s_sub(self.y.s_mul(rhs.x)),
        }
    }

    /// Spec-level squared length.
    pub open spec fn spec_length_squared(self) -> Real {
        self.spec_dot(self)
    }

    /// Spec-level length.
    pub open spec fn spec_length(self) -> Real {
        self.spec_length_squared().s_sqrt()
    }

    /// Spec-level unit vector: the vector divided by its length.
    pub open spec fn spec_unit(self) -> Vec3 {
        self.spec_div_by(self.spec_length())
    }

    /// A vector is near zero when every component vanishes on the
    /// fixed-point grid (within one raw step of zero).
    pub open spec fn spec_near_zero(self) -> bool {
        self.x.raw == 0 && self.y.raw == 0 && self.z.raw == 0
    }

    /// Builds a vector from its components.
    pub fn new(x: Real, y: Real, z: Real) -> (r: Vec3)
        ensures
            r == (Vec3 { x, y, z }),
    {
        Vec3 { x, y, z }
    }

    /// Component-wise sum.
    pub fn add(self, rhs: Vec3) -> (r: Vec3)
        ensures
            r == self.spec_add(rhs),
            r.wf(),
    {
        Vec3 { x: self.x.add(rhs.x), y: self.y.add(rhs.y), z: self.z.add(rhs.z) }
    }

    /// Component-wise difference.
    pub fn sub(self, rhs: Vec3) -> (r: Vec3)
        ensures
            r == self.spec_sub(rhs),
            r.wf(),
    {
        Vec3 { x: self.x.sub(rhs.x), y: self.y.sub(rhs.y), z: self.z.sub(rhs.z) }
    }

    /// Component-wise product.
    pub fn mul(self, rhs: Vec3) -> (r: Vec3)
        ensures
            r == self.spec_mul(rhs),
            r.wf(),
    {
        Vec3 { x: self.x.mul(rhs.x), y: self.y.mul(rhs.y), z: self.z.mul(rhs.z) }
    }

    /// Scaling by a scalar.
    pub fn scale(self, s: Real) -> (r: Vec3)
        ensures
            r == self.spec_scale(s),
            r.wf(),
    {
        Vec3 { x: self.x.mul(s), y: self.y.mul(s), z: self.z.mul(s) }
    }

    /// Division by a scalar (saturating on a zero divisor, like the
    /// scalar division it is built from).
    pub fn div_by(self, s: Real) -> (r: Vec3)
        ensures
            r == self.spec_div_by(s),
            r.wf(),
    {
        Vec3 { x: self.x.div(s), y: self.y.div(s), z: self.z.div(s) }
    }

    /// Negation.
    pub fn neg(self) -> (r: Vec3)
        ensures
            r == self.spec_neg(),
            r.wf(),
    {
        Vec3 { x: self.x.neg(), y: self.y.neg(), z: self.z.neg() }
    }

    /// Dot product.
    pub fn dot(&self, rhs: &Vec3) -> (r: Real)
        ensures
            r == self.spec_dot(*rhs),
    {
        self.x.mul(rhs.x).add(self.y.mul(rhs.y)).add(self.z.mul(rhs.z))
    }

    /// Cross product.
    pub fn cross(&self, rhs: &Vec3) -> (r: Vec3)
        ensures
            r == self.spec_cross(*rhs),
            r.wf(),
    {
        Vec3 {
            x: self.y.mul(rhs.z).sub(self.z.mul(rhs.y)),
            y: self.z.mul(rhs.x).sub(self.x.mul(rhs.z)),
            z: self.x.mul(rhs.y).sub(self.y.mul(rhs.x)),
        }
    }

    /// Squared length.
    pub fn length_squared(&self) -> (r: Real)
        ensures
            r == self.spec_length_squared(),
    {
        self.dot(self)
    }

    /// Length.
    pub fn length(&self) -> (r: Real)
        ensures
            r == self.spec_length(),
            r.raw >= 0,
    {
        self.length_squared().sqrt()
    }

    /// The vector rescaled to (approximately) unit length.  Callers are
    /// expected to hand in vectors of nonzero length; a vector whose length
    /// vanishes on the grid divides by zero and so saturates component-wise.
    pub fn unit_vector(&self) -> (r: Vec3)
        ensures
            r == self.spec_unit(),
            r.wf(),
    {
        let len = self.length();
        self.div_by(len)
    }

    /// Whether every component vanishes on the fixed-point grid; used to
    /// avoid degenerate scatter directions.
    pub fn near_zero(&self) -> (r: bool)
        ensures
            r == self.spec_near_zero(),
    {
        self.x.raw == 0 && self.y.raw == 0 && self.z.raw == 0
    }

    /// Mirror reflection of `v` about the normal `n`:
    /// `v - 2 (v . n) n`, carried out on the fixed-point grid.
    pub fn reflect(v: &Vec3, n: &Vec3) -> (r: Vec3)
        ensures
            r == spec_reflect(*v, *n),
            r.wf(),
    {
        let d = n.dot(v);
        v.sub(n.scale(d.add(d)))
    }

    /// Snell refraction of the unit direction `uv` at a surface with unit
    /// normal `n` and ratio of refractive indices `eta`, decomposed into
    /// the components perpendicular and parallel to the normal.
    pub fn refract(uv: &Vec3, n: &Vec3, eta: Real) -> (r: Vec3)
        ensures
            r == spec_refract(*uv, *n, eta),
            r.wf(),
    {
        let one = Real { raw: SCALE };
        let cos_theta = uv.neg().dot(n).min(one);
        let r_out_perp = uv.add(n.scale(cos_theta)).scale(eta);
        let r_out_parallel = n.scale(one.sub(r_out_perp.length_squared()).sqrt().neg());
        r_out_parallel.add(r_out_perp)
    }

    /// A sample with every component uniform in `[0, 1)`.
    pub fn random(rng: &mut RandomSource) -> (r: Vec3)
        ensures
            0 <= r.x.raw < SCALE,
            0 <= r.y.raw < SCALE,
            0 <= r.z.raw < SCALE,
    {
        Vec3 { x: rng.next_unit(), y: rng.next_unit(), z: rng.next_unit() }
    }

    /// A sample with every component uniform in `[min, max)`.
    pub fn random_in_range(min: Real, max: Real, rng: &mut RandomSource) -> (r: Vec3)
        requires
            min.raw < max.raw,
        ensures
            min.raw <= r.x.raw < max.raw,
            min.raw <= r.y.raw < max.raw,
            min.raw <= r.z.raw < max.raw,
    {
        Vec3 { x: rng.in_range(min, max), y: rng.in_range(min, max), z: rng.in_range(min, max) }
    }

    /// A rejection-sampled point inside the unit disk in the `z = 0` plane.
    /// The number of attempts is bounded so that the sampler provably
    /// terminates; once the bound is spent it falls back to the disk's
    /// center, which satisfies the same contract.
    pub fn random_in_unit_disk(rng: &mut RandomSource) -> (r: Vec3)
        ensures
            r.z.raw == 0,
            r.spec_length_squared().raw < SCALE,
            r.wf(),
    {
        let neg_one = Real::from_int(-1);
        let one = Real::from_int(1);
        let mut tries: u64 = 0;
        while tries < 64
            invariant
                neg_one.raw == -65536,
                one.raw == 65536,
            decreases 64 - tries,
        {
            let p = Vec3 { x: rng.in_range(neg_one, one), y: rng.in_range(neg_one, one), z: Real::zero() };
            if p.length_squared().raw < SCALE {
                return p;
            }
            tries = tries + 1;
        }
        Vec3 { x: Real { raw: 0 }, y: Real { raw: 0 }, z: Real { raw: 0 } }
    }

    /// A rejection-sampled point inside the unit sphere, bounded away from
    /// the center — the accepted squared length is at least a quarter, so
    /// the point's length is at least one half and normalizing it stays
    /// accurate on the grid (direction uniformity is unaffected).  The
    /// number of attempts is bounded so that the sampler provably
    /// terminates; once the bound is spent it falls back to a fixed
    /// interior point, which satisfies the same contract.
    fn random_in_unit_sphere(rng: &mut RandomSource) -> (r: Vec3)
        ensures
            16384 <= r.spec_length_squared().raw < SCALE,
            r.wf(),
    {
        let neg_one = Real::from_int(-1);
        let one = Real::from_int(1);
        let mut tries: u64 = 0;
        while tries < 64
            invariant
                neg_one.raw == -65536,
                one.raw == 65536,
            decreases 64 - tries,
        {
            let p = Vec3::random_in_range(neg_one, one, rng);
            let ls = p.length_squared();
            if 16384 <= ls.raw && ls.raw < SCALE {
                return p;
            }
            tries = tries + 1;
        }
        let fallback = Vec3 { x: Real { raw: 32768 }, y: Real { raw: 0 }, z: Real { raw: 0 } };
        proof {
            assert(32768int * 32768int == 1073741824int && 1073741824int / 65536int == 16384int)
                by (nonlinear_arith);
            assert(mul_r(32768, 32768) == 16384);
            assert(mul_r(0, 0) == 0);
            assert(fallback.spec_length_squared().raw == 16384);
        }
        fallback
    }

    /// A random direction of (approximately) unit length: a sample from
    /// inside the unit sphere, at least half a unit long, normalized.  Its
    /// length stays between one half and four units on the grid.
    pub fn random_unit_vector(rng: &mut RandomSource) -> (r: Vec3)
        ensures
            is_unit_sample(r),
            32768 <= r.spec_length().raw <= 262144,
            r.wf(),
    {
        let p = Vec3::random_in_unit_sphere(rng);
        let u = p.unit_vector();
        proof {
            assert(16384 <= p.spec_length_squared().raw < SCALE && u == p.spec_unit());
            lemma_unit_sample_length(u);
        }
        u
    }

    /// A random unit direction on the hemisphere around `normal`: a unit
    /// sample, negated when it points against the normal.
    pub fn random_on_hemisphere(normal: &Vec3, rng: &mut RandomSource) -> (r: Vec3)
        ensures
            r.spec_dot(*normal).raw >= 0,
            exists|u: Vec3| #[trigger] is_unit_sample(u) && (r == u || r == u.spec_neg()),
            r.wf(),
    {
        let on_unit_sphere = Vec3::random_unit_vector(rng);
        let d = on_unit_sphere.dot(normal);
        if d.raw > 0 {
            proof {
                assert(is_unit_sample(on_unit_sphere) && on_unit_sphere == on_unit_sphere);
            }
            on_unit_sphere
        } else {
            proof {
                lemma_dot_neg(on_unit_sphere, *normal);
                assert(is_unit_sample(on_unit_sphere));
            }
            on_unit_sphere.neg()
        }
    }
}

/// The zero vector (also the color black).
pub open spec fn spec_zero() -> Vec3 {
    Vec3 { x: Real { raw: 0 }, y: Real { raw: 0 }, z: Real { raw: 0 } }
}

/// What the unit-vector sampler guarantees of its result: it is some point
/// of the open unit ball with squared length at least a quarter (so its
/// length lies in `[1/2, 1)`), normalized.
pub open spec fn is_unit_sample(u: Vec3) -> bool {
    exists|p: Vec3| 16384 <= p.spec_length_squared().raw < SCALE && u == p.spec_unit()
}

/// Dividing a sub-unit raw value by a length between one half and one (on
/// the grid) can only grow its magnitude, and by at most a factor of two.
proof fn lemma_unit_component(c: int, len: int)
    requires
        -65535 <= c <= 65535,
        32768 <= len <= 65535,
    ensures
        abs_int(c) <= abs_int(div_r(c, len)),
        abs_int(div_r(c, len)) <= 131070,
{
    let a = abs_int(c);
    assert(abs_int(c * 65536) == a * 65536) by (nonlinear_arith)
        requires
            a == abs_int(c),
    ;
    vstd::arithmetic::div_mod::lemma_div_is_ordered_by_denominator(a * 65536, len, 65536);
    vstd::arithmetic::div_mod::lemma_div_multiples_vanish(a, 65536);
    assert(a * 65536 <= 4294901760) by (nonlinear_arith)
        requires
            0 <= a <= 65535,
    ;
    vstd::arithmetic::div_mod::lemma_div_is_ordered(a * 65536, 4294901760, len);
    vstd::arithmetic::div_mod::lemma_div_is_ordered_by_denominator(4294901760, 32768, len);
    assert(4294901760int / 32768int == 131070int) by (nonlinear_arith);
    assert(a <= (a * 65536) / len <= 131070);
    assert(tdiv_raw(c * 65536, len) == if c >= 0 {
        (a * 65536) / len
    } else {
        -((a * 65536) / len)
    });
}

/// A normalized unit sample is never far from unit length on the grid:
/// since the accepted sample's length lies in `[1/2, 1)`, the normalized
/// vector's length lies between one half and four (in fact below 3.5).
pub proof fn lemma_unit_sample_length(u: Vec3)
    requires
        is_unit_sample(u),
    ensures
        32768 <= u.spec_length().raw <= 262144,
{
    let p = choose|p: Vec3|
        16384 <= p.spec_length_squared().raw < SCALE && u == p.spec_unit();
    let ls = p.spec_length_squared().raw as int;
    let cx = p.x.raw as int;
    let cy = p.y.raw as int;
    let cz = p.z.raw as int;
    let m1 = mul_r(cx, cx);
    let m2 = mul_r(cy, cy);
    let m3 = mul_r(cz, cz);
    assert(cx * cx >= 0 && cy * cy >= 0 && cz * cz >= 0) by (nonlinear_arith);
    vstd::arithmetic::div_mod::lemma_div_pos_is_pos(cx * cx, 65536);
    vstd::arithmetic::div_mod::lemma_div_pos_is_pos(cy * cy, 65536);
    vstd::arithmetic::div_mod::lemma_div_pos_is_pos(cz * cz, 65536);
    assert(0 <= m1 && 0 <= m2 && 0 <= m3);
    assert(ls == m1 + m2 + m3 && m1 <= 65535 && m2 <= 65535 && m3 <= 65535);
    // Each component is below one unit in magnitude.
    assert(m1 == (cx * cx) / 65536 && m2 == (cy * cy) / 65536 && m3 == (cz * cz) / 65536);
    lemma_square_bounded(cx, m1);
    lemma_square_bounded(cy, m2);
    lemma_square_bounded(cz, m3);
    // The sample's length lies in [1/2, 1).
    let len = crate::fixed::sqrt_r(ls);
    crate::fixed::lemma_sqrt_r_mono(16384, ls);
    crate::fixed::lemma_sqrt_r_mono(ls, 65535);
    assert(32768int * 32768int == 1073741824int && 32769int * 32769int == 1073807361int && 16384int
        * 65536int == 1073741824int && 65535int * 65535int == 4294836225int && 65536int * 65536int
        == 4294967296int && 65535int * 65536int == 4294901760int) by (nonlinear_arith);
    assert(crate::fixed::sqrt_r(16384) == 32768) by {
        crate::fixed::lemma_isqrt_unique(1073741824nat, 32768nat);
    }
    assert(crate::fixed::sqrt_r(65535) == 65535) by {
        crate::fixed::lemma_isqrt_unique(4294901760nat, 65535nat);
    }
    assert(32768 <= len <= 65535);
    // Each normalized component keeps at least the sample component's
    // magnitude and at most twice the unit.
    let ux = u.x.raw as int;
    let uy = u.y.raw as int;
    let uz = u.z.raw as int;
    assert(ux == div_r(cx, len) && uy == div_r(cy, len) && uz == div_r(cz, len));
    lemma_unit_component(cx, len);
    lemma_unit_component(cy, len);
    lemma_unit_component(cz, len);
    lemma_square_between(cx, ux, m1);
    lemma_square_between(cy, uy, m2);
    lemma_square_between(cz, uz, m3);
    let w1 = mul_r(ux, ux);
    let w2 = mul_r(uy, uy);
    let w3 = mul_r(uz, uz);
    let ls_u = u.spec_length_squared().raw as int;
    assert(ls_u == w1 + w2 + w3);
    assert(16384 <= ls_u <= 786408);
    crate::fixed::lemma_sqrt_r_mono(16384, ls_u);
    crate::fixed::lemma_sqrt_r_mono(ls_u, 786408);
    assert(786408int * 65536int == 51538034688int && 227019int * 227019int == 51537626361int
        && 227020int * 227020int == 51538080400int) by (nonlinear_arith);
    assert(crate::fixed::sqrt_r(786408) == 227019) by {
        crate::fixed::lemma_isqrt_unique(51538034688nat, 227019nat);
    }
}

/// The rescaled square of a grown component stays between the sample's
/// rescaled square and the square of two units.
proof fn lemma_square_between(c: int, q: int, m: int)
    requires
        abs_int(c) <= abs_int(q) <= 131070,
        m == (c * c) / 65536,
        0 <= m <= 65535,
    ensures
        m <= mul_r(q, q) <= 262136,
        mul_r(q, q) == (q * q) / 65536,
{
    assert(c * c <= q * q <= 17179344900) by (nonlinear_arith)
        requires
            abs_int(c) <= abs_int(q) <= 131070,
    ;
    crate::fixed::lemma_tdiv_mono(c * c, q * q, 65536);
    crate::fixed::lemma_tdiv_mono(q * q, 17179344900, 65536);
    assert(17179344900int / 65536int == 262136int) by (nonlinear_arith);
    assert(c * c >= 0 && q * q >= 0) by (nonlinear_arith);
    assert(tdiv_raw(c * c, 65536) == (c * c) / 65536);
    assert(tdiv_raw(q * q, 65536) == (q * q) / 65536);
}

/// A value whose rescaled square stays below one unit is itself below one
/// unit in magnitude.
proof fn lemma_square_bounded(c: int, m: int)
    requires
        m == (c * c) / 65536,
        0 <= m <= 65535,
    ensures
        -65535 <= c <= 65535,
{
    vstd::arithmetic::div_mod::lemma_fundamental_div_mod(c * c, 65536);
    vstd::arithmetic::div_mod::lemma_mod_bound(c * c, 65536);
    assert(-65535 <= c <= 65535) by (nonlinear_arith)
        requires
            c * c == 65536 * m + (c * c) % 65536,
            0 <= (c * c) % 65536 < 65536,
            m <= 65535,
    ;
}
/// two units and fits well inside the grid.
pub open spec fn is_moderate_axis_vector(v: Vec3) -> bool {
    let ax = crate::fixed::abs_int(v.x.raw as int);
    let ay = crate::fixed::abs_int(v.y.raw as int);
    let az = crate::fixed::abs_int(v.z.raw as int);
    ||| (131074 <= ax <= 549755813888 && ay == 0 && az == 0)
    ||| (ax == 0 && 131074 <= ay <= 549755813888 && az == 0)
    ||| (ax == 0 && ay == 0 && 131074 <= az <= 549755813888)
}

/// A unit vector along one coordinate axis (the only unit vectors the
/// fixed-point grid represents exactly).
pub open spec fn is_axis_unit(n: Vec3) -> bool {
    let ax = crate::fixed::abs_int(n.x.raw as int);
    let ay = crate::fixed::abs_int(n.y.raw as int);
    let az = crate::fixed::abs_int(n.z.raw as int);
    ||| (ax == SCALE && ay == 0 && az == 0)
    ||| (ax == 0 && ay == SCALE && az == 0)
    ||| (ax == 0 && ay == 0 && az == SCALE)
}

/// Normalizing preserves length one exactly on axis-aligned vectors of
/// moderate magnitude: the unit vector of such a vector has length exactly
/// one on the grid.  (Off the axes, and below two units of magnitude,
/// rounding can push the length a few counts away from one.)
pub proof fn lemma_unit_vector_length_axis(v: Vec3)
    requires
        is_moderate_axis_vector(v),
    ensures
        v.spec_unit().spec_length().raw == SCALE,
{
    let vx = v.x.raw as int;
    let vy = v.y.raw as int;
    let vz = v.z.raw as int;
    crate::fixed::lemma_mul_r_units(vx);
    crate::fixed::lemma_mul_r_units(vy);
    crate::fixed::lemma_mul_r_units(vz);
    let c = crate::fixed::abs_int(vx) + crate::fixed::abs_int(vy) + crate::fixed::abs_int(vz);
    crate::fixed::lemma_unit_scalar(c);
    assert(vx * vx == c * c || vy * vy == c * c || vz * vz == c * c) by (nonlinear_arith)
        requires
            c == crate::fixed::abs_int(vx) + crate::fixed::abs_int(vy) + crate::fixed::abs_int(
                vz,
            ),
            (vy == 0 && vz == 0) || (vx == 0 && vz == 0) || (vx == 0 && vy == 0),
    ;
    let ls = v.spec_length_squared();
    assert(ls.raw == mul_r(c, c));
    let len = ls.s_sqrt();
    assert(len.raw == crate::fixed::sqrt_r(mul_r(c, c)));
    crate::fixed::lemma_sqrt_r_range(mul_r(c, c));
    let u = v.spec_unit();
    assert(crate::fixed::tdiv_raw(0, len.raw as int) == 0) by {
        vstd::arithmetic::div_mod::lemma_div_of0(len.raw as int);
    }
    assert(crate::fixed::tdiv_raw(-(c * (SCALE as int)), len.raw as int) == -(SCALE as int));
    assert(vx * (SCALE as int) == c * (SCALE as int) || vx * (SCALE as int) == -(c * (
    SCALE as int)) || vx == 0) by (nonlinear_arith)
        requires
            vx == c || vx == -c || vx == 0,
    ;
    assert(vy * (SCALE as int) == c * (SCALE as int) || vy * (SCALE as int) == -(c * (
    SCALE as int)) || vy == 0) by (nonlinear_arith)
        requires
            vy == c || vy == -c || vy == 0,
    ;
    assert(vz * (SCALE as int) == c * (SCALE as int) || vz * (SCALE as int) == -(c * (
    SCALE as int)) || vz == 0) by (nonlinear_arith)
        requires
            vz == c || vz == -c || vz == 0,
    ;
    assert(crate::fixed::abs_int(u.x.raw as int) == SCALE || u.x.raw == 0);
    assert(crate::fixed::abs_int(u.y.raw as int) == SCALE || u.y.raw == 0);
    assert(crate::fixed::abs_int(u.z.raw as int) == SCALE || u.z.raw == 0);
    assert(is_axis_unit(u));
    lemma_axis_unit_length(u);
}

/// An axis-aligned unit vector has length exactly one on the grid.
pub proof fn lemma_axis_unit_length(n: Vec3)
    requires
        is_axis_unit(n),
    ensures
        n.spec_length().raw == SCALE,
{
    assert(65536int * 65536int == 4294967296int && (-65536int) * (-65536int) == 4294967296int
        && 4294967296int / 65536int == 65536int && 65537int * 65537int == 4295098369int)
        by (nonlinear_arith);
    crate::fixed::lemma_mul_r_units(0);
    assert(n.spec_length_squared().raw == SCALE);
    crate::fixed::lemma_isqrt_unique(4294967296nat, 65536nat);
}

/// Reflecting twice about the same axis-aligned unit normal restores the
/// vector, as long as the vector is small enough that the doubled dot
/// product does not saturate.  (About normals off the axes the products
/// round and the identity can miss by a few counts.)
#[verifier::rlimit(50)]
pub proof fn lemma_reflect_involution(v: Vec3, n: Vec3)
    requires
        is_axis_unit(n),
        -2305843009213693952 <= v.x.raw <= 2305843009213693952,
        -2305843009213693952 <= v.y.raw <= 2305843009213693952,
        -2305843009213693952 <= v.z.raw <= 2305843009213693952,
    ensures
        spec_reflect(spec_reflect(v, n), n) == v,
{
    let vx = v.x.raw as int;
    let vy = v.y.raw as int;
    let vz = v.z.raw as int;
    crate::fixed::lemma_mul_r_units(vx);
    crate::fixed::lemma_mul_r_units(vy);
    crate::fixed::lemma_mul_r_units(vz);
    crate::fixed::lemma_mul_r_units(2 * vx);
    crate::fixed::lemma_mul_r_units(2 * vy);
    crate::fixed::lemma_mul_r_units(2 * vz);
    crate::fixed::lemma_mul_r_units(-2 * vx);
    crate::fixed::lemma_mul_r_units(-2 * vy);
    crate::fixed::lemma_mul_r_units(-2 * vz);
    crate::fixed::lemma_mul_r_units(0);
    crate::fixed::lemma_mul_r_units(-vx);
    crate::fixed::lemma_mul_r_units(-vy);
    crate::fixed::lemma_mul_r_units(-vz);
    let r1 = spec_reflect(v, n);
    if crate::fixed::abs_int(n.x.raw as int) == SCALE {
        assert(n.spec_dot(v).raw == vx || n.spec_dot(v).raw == -vx);
        assert(r1.x.raw == -vx && r1.y.raw == vy && r1.z.raw == vz);
        assert(n.spec_dot(r1).raw == vx || n.spec_dot(r1).raw == -vx);
        assert(spec_reflect(r1, n) == v);
    } else if crate::fixed::abs_int(n.y.raw as int) == SCALE {
        assert(n.spec_dot(v).raw == vy || n.spec_dot(v).raw == -vy);
        assert(r1.x.raw == vx && r1.y.raw == -vy && r1.z.raw == vz);
        assert(n.spec_dot(r1).raw == vy || n.spec_dot(r1).raw == -vy);
        assert(spec_reflect(r1, n) == v);
    } else {
        assert(n.spec_dot(v).raw == vz || n.spec_dot(v).raw == -vz);
        assert(r1.x.raw == vx && r1.y.raw == vy && r1.z.raw == -vz);
        assert(n.spec_dot(r1).raw == vz || n.spec_dot(r1).raw == -vz);
        assert(spec_reflect(r1, n) == v);
    }
}

/// Negating a well-formed vector negates its dot product with any vector.
pub proof fn lemma_dot_neg(a: Vec3, b: Vec3)
    requires
        a.wf(),
    ensures
        a.spec_neg().spec_dot(b).raw == -a.spec_dot(b).raw,
{
    crate::fixed::lemma_mul_r_neg(a.x.raw as int, b.x.raw as int);
    crate::fixed::lemma_mul_r_neg(a.y.raw as int, b.y.raw as int);
    crate::fixed::lemma_mul_r_neg(a.z.raw as int, b.z.raw as int);
}

/// Spec-level mirror reflection: `v - 2 (v . n) n` on the fixed-point grid.
pub open spec fn spec_reflect(v: Vec3, n: Vec3) -> Vec3 {
    let d = n.spec_dot(v);
    v.spec_sub(n.spec_scale(d.s_add(d)))
}

/// Spec-level Snell refraction of `uv` about `n` with index ratio `eta`.
pub open spec fn spec_refract(uv: Vec3, n: Vec3, eta: Real) -> Vec3 {
    let cos_theta = uv.spec_neg().spec_dot(n).s_min(spec_one());
    let r_out_perp = uv.spec_add(n.spec_scale(cos_theta)).spec_scale(eta);
    let r_out_parallel = n.spec_scale(
        spec_one().s_sub(r_out_perp.spec_length_squared()).s_sqrt().s_neg(),
    );
    r_out_parallel.spec_add(r_out_perp)
}

/// Refraction with an index ratio of one does not bend a head-on ray: when
/// the incoming unit direction is exactly the negated (well-formed, at
/// least unit-dot) normal, the refracted direction equals the incoming one.
pub proof fn lemma_refract_identity(ud: Vec3, n: Vec3)
    requires
        n.wf(),
        ud == n.spec_neg(),
        n.spec_dot(n).raw >= SCALE,
    ensures
        spec_refract(ud, n, spec_one()) == ud,
{
    crate::fixed::lemma_mul_r_units(n.x.raw as int);
    crate::fixed::lemma_mul_r_units(n.y.raw as int);
    crate::fixed::lemma_mul_r_units(n.z.raw as int);
    assert(ud.spec_neg() == n);
    let cos_theta = ud.spec_neg().spec_dot(n).s_min(spec_one());
    assert(cos_theta.raw == SCALE);
    assert(n.spec_scale(cos_theta) == n);
    let r_out_perp = ud.spec_add(n.spec_scale(cos_theta)).spec_scale(spec_one());
    assert(ud.spec_add(n).x.raw == 0 && ud.spec_add(n).y.raw == 0 && ud.spec_add(n).z.raw == 0);
    crate::fixed::lemma_mul_r_units(0);
    assert(r_out_perp.x.raw == 0 && r_out_perp.y.raw == 0 && r_out_perp.z.raw == 0);
    assert(r_out_perp.spec_length_squared().raw == 0);
    let scalar = spec_one().s_sub(r_out_perp.spec_length_squared()).s_sqrt().s_neg();
    assert(spec_one().s_sub(r_out_perp.spec_length_squared()).raw == SCALE);
    assert(crate::fixed::sqrt_r(SCALE as int) == SCALE) by {
        assert(65536int * 65536int == 4294967296int && 65537int * 65537int == 4295098369int)
            by (nonlinear_arith);
        crate::fixed::lemma_isqrt_unique(4294967296nat, 65536nat);
    }
    assert(scalar.raw == -(SCALE as int));
    assert(n.spec_scale(scalar) == ud);
    assert(n.spec_scale(scalar).spec_add(r_out_perp) == ud);
}

} // verus!
