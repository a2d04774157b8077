//! Fixed-point real arithmetic.
//!
//! A [`Real`] stores an integer count of `1/SCALE` steps.  Every operation
//! saturates at `BOUND` raw steps in either direction (the stand-in for the
//! reals' unbounded range), so all operations are total and each one's result
//! is pinned exactly by a spec-level formula over the raw integers.

use vstd::prelude::*;

verus! {

/// Number of raw steps in one unit: a `Real` holds multiples of `1/SCALE`.
pub const SCALE: i64 = 65536;

/// Largest raw magnitude a `Real` can hold; arithmetic saturates here.
/// The range is symmetric so that negation is always exact.
pub const BOUND: i64 = i64::MAX;

/// A fixed-point real number: `raw` counts multiples of `1/SCALE`.
#[derive(Clone, Copy, PartialEq, Eq, Structural, Debug)]
pub struct Real {
    pub raw: i64,
}

/// Absolute value over mathematical integers.
pub open spec fn abs_int(a: int) -> int {
    if a >= 0 { a } else { -a }
}

/// Saturation of a mathematical integer into the representable raw range.
pub open spec fn clamp_raw(x: int) -> int {
    if x > BOUND { BOUND as int } else if x < -(BOUND as int) { -(BOUND as int) } else { x }
}

/// Division truncating toward zero (the behaviour of machine division),
/// with quotient 0 for a zero divisor.
pub open spec fn tdiv_raw(a: int, b: int) -> int {
    if b == 0 {
        0
    } else if (a >= 0) == (b >= 0) {
        abs_int(a) / abs_int(b)
    } else {
        -(abs_int(a) / abs_int(b))
    }
}

/// Raw-level addition: exact sum, saturated.
pub open spec fn add_r(a: int, b: int) -> int {
    clamp_raw(a + b)
}

/// Raw-level subtraction: exact difference, saturated.
pub open spec fn sub_r(a: int, b: int) -> int {
    clamp_raw(a - b)
}

/// Raw-level negation: exact, saturated (only `i64::MIN` ever clamps).
pub open spec fn neg_r(a: int) -> int {
    clamp_raw(-a)
}

/// Raw-level multiplication: the exact product rescaled by `1/SCALE`,
/// truncated toward zero and saturated.
pub open spec fn mul_r(a: int, b: int) -> int {
    clamp_raw(tdiv_raw(a * b, SCALE as int))
}

/// Raw-level division: the exact quotient rescaled by `SCALE`, truncated
/// toward zero and saturated.  A zero divisor saturates with the sign of
/// the dividend, standing in for a signed infinity.
pub open spec fn div_r(a: int, b: int) -> int {
    if b == 0 {
        if a > 0 { BOUND as int } else if a < 0 { -(BOUND as int) } else { 0 }
    } else {
        clamp_raw(tdiv_raw(a * (SCALE as int), b))
    }
}

/// The real number one on the fixed-point grid.
pub open spec fn spec_one() -> Real {
    Real { raw: SCALE }
}

/// Negating the left factor negates a saturating product, provided the
/// factor itself avoids the one raw count whose negation saturates.
pub proof fn lemma_mul_r_neg(a: int, b: int)
    requires
        -(BOUND as int) <= a <= BOUND as int,
    ensures
        mul_r(neg_r(a), b) == -mul_r(a, b),
        -(BOUND as int) <= mul_r(a, b) <= BOUND as int,
{
    assert(neg_r(a) == -a);
    assert((-a) * b == -(a * b)) by (nonlinear_arith);
    assert(tdiv_raw(-(a * b), SCALE as int) == -tdiv_raw(a * b, SCALE as int));
    assert(clamp_raw(-tdiv_raw(a * b, SCALE as int)) == -clamp_raw(tdiv_raw(a * b, SCALE as int)));
}

/// Multiplying a well-formed raw value by the fixed-point one, minus one,
/// or zero is exact.
pub proof fn lemma_mul_r_units(a: int)
    requires
        -(BOUND as int) <= a <= BOUND as int,
    ensures
        mul_r(a, SCALE as int) == a,
        mul_r(SCALE as int, a) == a,
        mul_r(a, -(SCALE as int)) == -a,
        mul_r(-(SCALE as int), a) == -a,
        mul_r(a, 0) == 0,
        mul_r(0, a) == 0,
{
    assert(a * (SCALE as int) == a * 65536 && (SCALE as int) * a == a * 65536 && a * (-(
    SCALE as int)) == -(a * 65536) && (-(SCALE as int)) * a == -(a * 65536) && a * 0 == 0 && 0 * a
        == 0) by (nonlinear_arith);
    assert(abs_int(a * 65536) == abs_int(a) * 65536) by (nonlinear_arith);
    assert(abs_int(a) * 65536 / 65536 == abs_int(a)) by (nonlinear_arith);
    assert(tdiv_raw(a * 65536, 65536) == a);
    assert(tdiv_raw(-(a * 65536), 65536) == -a);
    assert(tdiv_raw(0, 65536) == 0) by {
        vstd::arithmetic::div_mod::lemma_div_of0(65536);
    }
}

/// The raw square root of any representable raw value is a small
/// nonnegative integer, far inside the representable range.
pub proof fn lemma_sqrt_r_range(x: int)
    requires
        x <= BOUND as int,
    ensures
        0 <= sqrt_r(x) < 1099511627776,
{
    if x > 0 {
        assert(0 < x * (SCALE as int) <= 0x7fffffffffffffff * 65536) by (nonlinear_arith)
            requires
                0 < x <= 0x7fffffffffffffff,
                SCALE == 65536,
        ;
        let n = (x * (SCALE as int)) as nat;
        lemma_isqrt_bounds(n);
        let r = isqrt_s(n);
        if r >= 1099511627776 {
            assert(r * r >= 1099511627776 * 1099511627776) by (nonlinear_arith)
                requires
                    r >= 1099511627776,
            ;
            assert(0x7fffffffffffffff * 65536 < 1099511627776 * 1099511627776)
                by (nonlinear_arith);
        }
    }
}

/// The integer square root is monotone.
pub proof fn lemma_isqrt_mono(m: nat, n: nat)
    requires
        m <= n,
    ensures
        isqrt_s(m) <= isqrt_s(n),
{
    lemma_isqrt_bounds(m);
    lemma_isqrt_bounds(n);
    if isqrt_s(m) > isqrt_s(n) {
        assert(false) by (nonlinear_arith)
            requires
                isqrt_s(n) + 1 <= isqrt_s(m),
                isqrt_s(m) * isqrt_s(m) <= m,
                m <= n,
                n < (isqrt_s(n) + 1) * (isqrt_s(n) + 1),
        ;
    }
}

/// The raw-level square root is monotone.
pub proof fn lemma_sqrt_r_mono(x: int, y: int)
    requires
        x <= y,
    ensures
        sqrt_r(x) <= sqrt_r(y),
        0 <= sqrt_r(x),
{
    if 0 < x {
        assert(x * (SCALE as int) <= y * (SCALE as int)) by (nonlinear_arith)
            requires
                x <= y,
                SCALE as int > 0,
        ;
        lemma_isqrt_mono((x * (SCALE as int)) as nat, (y * (SCALE as int)) as nat);
    }
}

/// On magnitudes that are at least two units and fit well inside the grid,
/// normalizing is exact: the raw length of such a value is within one count
/// of the value itself, and rescaling the value by its length yields exactly
/// the fixed-point one.
pub proof fn lemma_unit_scalar(c: int)
    requires
        131074 <= c <= 549755813888,
    ensures
        ({
            let len = sqrt_r(mul_r(c, c));
            &&& 0 < len <= c
            &&& tdiv_raw(c * (SCALE as int), len) == SCALE as int
        }),
{
    let s = SCALE as int;
    let q = (c * c) / s;
    assert(131074 * 131074 <= c * c <= 549755813888 * 549755813888) by (nonlinear_arith)
        requires
            131074 <= c <= 549755813888,
    ;
    assert(17180393476int / 65536int == 262152int && 302231454903657293676544int / 65536int
        == 4611686018427387904int) by (nonlinear_arith);
    vstd::arithmetic::div_mod::lemma_div_is_ordered(17180393476, c * c, s);
    vstd::arithmetic::div_mod::lemma_div_is_ordered(c * c, 302231454903657293676544, s);
    assert(262152 <= q <= 4611686018427387904);
    assert(tdiv_raw(c * c, s) == q);
    assert(mul_r(c, c) == q);
    // The rescaled square sits just below the true square:
    // q * s <= c * c < q * s + s.
    vstd::arithmetic::div_mod::lemma_fundamental_div_mod(c * c, s);
    assert(0 <= (c * c) % s < s) by {
        vstd::arithmetic::div_mod::lemma_mod_bound(c * c, s);
    }
    assert(q * s <= c * c < q * s + s) by (nonlinear_arith)
        requires
            c * c == s * q + (c * c) % s,
            0 <= (c * c) % s < s,
    ;
    // The integer square root of q * s is c - 1 or c.
    let n = (q * s) as nat;
    lemma_isqrt_bounds(n);
    let len = isqrt_s(n) as int;
    assert(sqrt_r(q) == len);
    assert(len <= c) by (nonlinear_arith)
        requires
            len >= 0,
            c >= 0,
            len * len <= n,
            n <= c * c,
    ;
    assert(len >= c - 1) by (nonlinear_arith)
        requires
            len >= 0,
            c >= 131074,
            n < (len + 1) * (len + 1),
            c * c - 65536 < n,
    ;
    // With the length within one count of c, the quotient c * s / len is
    // exactly s: it is at least s because len <= c, and below s + 1
    // because (s + 1) * len exceeds c * s once c is at least 2 s + 2.
    assert(s * len <= c * s) by (nonlinear_arith)
        requires
            len <= c,
            s == 65536,
    ;
    vstd::arithmetic::div_mod::lemma_div_is_ordered(s * len, c * s, len);
    vstd::arithmetic::div_mod::lemma_div_multiples_vanish(s, len);
    assert((c * s) / len >= s);
    assert(c * s < len * (s + 1)) by (nonlinear_arith)
        requires
            len >= c - 1,
            c >= 131074,
            s == 65536,
    ;
    vstd::arithmetic::div_mod::lemma_multiply_divide_lt(c * s, len, s + 1);
    assert((c * s) / len < s + 1);
    assert(tdiv_raw(c * s, len) == (c * s) / len);
}

/// Truncating division by a positive divisor is monotone in the dividend.
pub proof fn lemma_tdiv_mono(a1: int, a2: int, b: int)
    requires
        a1 <= a2,
        0 < b,
    ensures
        tdiv_raw(a1, b) <= tdiv_raw(a2, b),
{
    if a1 >= 0 {
        vstd::arithmetic::div_mod::lemma_div_is_ordered(a1, a2, b);
    } else if a2 < 0 {
        vstd::arithmetic::div_mod::lemma_div_is_ordered(-a2, -a1, b);
    } else {
        vstd::arithmetic::div_mod::lemma_div_pos_is_pos(-a1, b);
        vstd::arithmetic::div_mod::lemma_div_pos_is_pos(a2, b);
    }
}

/// Raw-level division by a positive divisor is monotone in the dividend.
pub proof fn lemma_div_r_mono(n1: int, n2: int, d: int)
    requires
        n1 <= n2,
        0 < d,
    ensures
        div_r(n1, d) <= div_r(n2, d),
{
    assert(n1 * (SCALE as int) <= n2 * (SCALE as int)) by (nonlinear_arith)
        requires
            n1 <= n2,
            SCALE as int > 0,
    ;
    lemma_tdiv_mono(n1 * (SCALE as int), n2 * (SCALE as int), d);
}

/// The `Real` whose raw count is the (in-range) integer `x`.
pub open spec fn real_from_raw(x: int) -> Real {
    Real { raw: x as i64 }
}

impl Real {
    /// Spec-level addition.
    pub open spec fn s_add(self, rhs: Real) -> Real {
        real_from_raw(add_r(self.raw as int, rhs.raw as int))
    }

    /// Spec-level subtraction.
    pub open spec fn s_sub(self, rhs: Real) -> Real {
        real_from_raw(sub_r(self.raw as int, rhs.raw as int))
    }

    /// Spec-level multiplication.
    pub open spec fn s_mul(self, rhs: Real) -> Real {
        real_from_raw(mul_r(self.raw as int, rhs.raw as int))
    }

    /// Spec-level division.
    pub open spec fn s_div(self, rhs: Real) -> Real {
        real_from_raw(div_r(self.raw as int, rhs.raw as int))
    }

    /// Spec-level negation.
    pub open spec fn s_neg(self) -> Real {
        real_from_raw(neg_r(self.raw as int))
    }

    /// Spec-level minimum.
    pub open spec fn s_min(self, rhs: Real) -> Real {
        real_from_raw(min_r(self.raw as int, rhs.raw as int))
    }

    /// Spec-level square root.
    pub open spec fn s_sqrt(self) -> Real {
        real_from_raw(sqrt_r(self.raw as int))
    }

    /// The real number zero.
    pub fn zero() -> (r: Real)
        ensures
            r.raw == 0,
    {
        Real { raw: 0 }
    }

    /// The real number `i`, saturated into range.
    pub fn from_int(i: i64) -> (r: Real)
        ensures
            r.raw == clamp_raw(i * (SCALE as int)),
    {
        let wide: i128 = (i as i128) * 65536i128;
        Real { raw: clamp_i128(wide) }
    }

    /// The real number `n / d`, truncated toward zero and saturated.
    pub fn from_ratio(n: i64, d: i64) -> (r: Real)
        requires
            d != 0,
        ensures
            r.raw == clamp_raw(tdiv_raw(n * (SCALE as int), d as int)),
    {
        let wide: i128 = (n as i128) * 65536i128;
        Real { raw: clamp_i128(tdiv_i128(wide, d as i128)) }
    }

    /// Saturating addition.
    pub fn add(self, rhs: Real) -> (r: Real)
        ensures
            r.raw == add_r(self.raw as int, rhs.raw as int),
    {
        let wide: i128 = (self.raw as i128) + (rhs.raw as i128);
        Real { raw: clamp_i128(wide) }
    }

    /// Saturating subtraction.
    pub fn sub(self, rhs: Real) -> (r: Real)
        ensures
            r.raw == sub_r(self.raw as int, rhs.raw as int),
    {
        let wide: i128 = (self.raw as i128) - (rhs.raw as i128);
        Real { raw: clamp_i128(wide) }
    }

    /// Exact negation (saturating only on the unused lowest raw value).
    pub fn neg(self) -> (r: Real)
        ensures
            r.raw == neg_r(self.raw as int),
    {
        if self.raw == i64::MIN {
            Real { raw: BOUND }
        } else {
            Real { raw: -self.raw }
        }
    }
}

/// Raw-level minimum.
pub open spec fn min_r(a: int, b: int) -> int {
    if a <= b { a } else { b }
}

/// Raw-level maximum.
pub open spec fn max_r(a: int, b: int) -> int {
    if a >= b { a } else { b }
}

/// The integer square root: the unique `r` with `r * r <= n < (r + 1) * (r + 1)`.
pub open spec fn isqrt_s(n: nat) -> nat
    decreases n,
{
    if n == 0 {
        0
    } else {
        let r = isqrt_s((n - 1) as nat);
        if (r + 1) * (r + 1) <= n { r + 1 } else { r }
    }
}

/// Raw-level square root: the square root of `x/SCALE`, rescaled by `SCALE`
/// and rounded down.  Negative inputs (outside the square root's domain)
/// give zero.
pub open spec fn sqrt_r(x: int) -> int {
    if x <= 0 { 0 } else { isqrt_s((x * (SCALE as int)) as nat) as int }
}

/// The integer square root sits between the two enclosing perfect squares.
pub proof fn lemma_isqrt_bounds(n: nat)
    ensures
        isqrt_s(n) * isqrt_s(n) <= n,
        n < (isqrt_s(n) + 1) * (isqrt_s(n) + 1),
    decreases n,
{
    if n == 0 {
        let s = isqrt_s(n);
        assert(s == 0);
        assert(n < (s + 1) * (s + 1)) by (nonlinear_arith)
            requires
                s == 0,
                n == 0,
        ;
    } else {
        lemma_isqrt_bounds((n - 1) as nat);
        let r = isqrt_s((n - 1) as nat);
        assert(isqrt_s(n) == if (r + 1) * (r + 1) <= n { r + 1 } else { r });
        if (r + 1) * (r + 1) <= n {
            assert(isqrt_s(n) == r + 1);
            assert(n <= (r + 1) * (r + 1));
            assert(n < (r + 2) * (r + 2)) by (nonlinear_arith)
                requires
                    n <= (r + 1) * (r + 1),
                    r >= 0,
            ;
            assert((isqrt_s(n) + 1) * (isqrt_s(n) + 1) == (r + 2) * (r + 2));
        } else {
            assert(isqrt_s(n) == r);
            assert(n < (r + 1) * (r + 1));
        }
    }
}

/// Any integer between the same enclosing squares equals the integer
/// square root.
pub proof fn lemma_isqrt_unique(n: nat, r: nat)
    requires
        r * r <= n,
        n < (r + 1) * (r + 1),
    ensures
        r == isqrt_s(n),
{
    lemma_isqrt_bounds(n);
    let s = isqrt_s(n);
    if r < s {
        assert(false) by (nonlinear_arith)
            requires
                r < s,
                s * s <= n,
                n < (r + 1) * (r + 1),
        ;
    }
    if s < r {
        assert(false) by (nonlinear_arith)
            requires
                s < r,
                r * r <= n,
                n < (s + 1) * (s + 1),
        ;
    }
}

impl Real {
    /// Saturating multiplication, truncating the rescaled product toward zero.
    pub fn mul(self, rhs: Real) -> (r: Real)
        ensures
            r.raw == mul_r(self.raw as int, rhs.raw as int),
    {
        proof {
            lemma_i64_product_fits(self.raw as int, rhs.raw as int);
        }
        let wide: i128 = (self.raw as i128) * (rhs.raw as i128);
        Real { raw: clamp_i128(tdiv_i128(wide, 65536i128)) }
    }

    /// Saturating division, truncating the rescaled quotient toward zero.
    /// A zero divisor saturates with the dividend's sign.
    pub fn div(self, rhs: Real) -> (r: Real)
        ensures
            r.raw == div_r(self.raw as int, rhs.raw as int),
    {
        if rhs.raw == 0 {
            if self.raw > 0 {
                Real { raw: BOUND }
            } else if self.raw < 0 {
                Real { raw: -BOUND }
            } else {
                Real { raw: 0 }
            }
        } else {
            let wide: i128 = (self.raw as i128) * 65536i128;
            Real { raw: clamp_i128(tdiv_i128(wide, rhs.raw as i128)) }
        }
    }

    /// The smaller of two values.
    pub fn min(self, rhs: Real) -> (r: Real)
        ensures
            r.raw == min_r(self.raw as int, rhs.raw as int),
    {
        if self.raw <= rhs.raw { self } else { rhs }
    }

    /// The larger of two values.
    pub fn max(self, rhs: Real) -> (r: Real)
        ensures
            r.raw == max_r(self.raw as int, rhs.raw as int),
    {
        if self.raw >= rhs.raw { self } else { rhs }
    }

    /// Absolute value (exact; the range is symmetric).
    pub fn abs(self) -> (r: Real)
        ensures
            r.raw == abs_int(self.raw as int) || (self.raw == i64::MIN && r.raw == BOUND),
            r.raw == clamp_raw(abs_int(self.raw as int)),
    {
        if self.raw < 0 { self.neg() } else { self }
    }

    /// Square root, rounded down to the fixed-point grid; zero on
    /// negative inputs.
    pub fn sqrt(self) -> (r: Real)
        ensures
            r.raw == sqrt_r(self.raw as int),
    {
        if self.raw <= 0 {
            return Real { raw: 0 };
        }
        let n: u128 = (self.raw as u128) * 65536u128;
        let mut lo: u128 = 0;
        let mut hi: u128 = 1099511627776u128;
        proof {
            assert(n < hi * hi) by (nonlinear_arith)
                requires
                    n <= 0x7fffffffffffffffu128 * 65536u128,
                    hi == 1099511627776u128,
            ;
        }
        while hi - lo > 1
            invariant
                lo < hi,
                hi <= 1099511627776u128,
                lo * lo <= n,
                n < hi * hi,
            decreases hi - lo,
        {
            let mid: u128 = lo + (hi - lo) / 2;
            proof {
                assert(mid * mid <= 1099511627776u128 * 1099511627776u128) by (nonlinear_arith)
                    requires
                        0 <= mid <= 1099511627776u128,
                ;
            }
            if mid * mid <= n {
                lo = mid;
            } else {
                hi = mid;
            }
        }
        proof {
            lemma_isqrt_unique(n as nat, lo as nat);
        }
        Real { raw: lo as i64 }
    }
}

/// The product of two `i64`-range values fits comfortably inside `i128`.
proof fn lemma_i64_product_fits(a: int, b: int)
    requires
        -0x8000000000000000 <= a <= 0x7fffffffffffffff,
        -0x8000000000000000 <= b <= 0x7fffffffffffffff,
    ensures
        -0x40000000000000000000000000000000 <= a * b,
        a * b <= 0x40000000000000000000000000000000,
{
    assert(-0x40000000000000000000000000000000 <= a * b
        && a * b <= 0x40000000000000000000000000000000) by (nonlinear_arith)
        requires
            -0x8000000000000000 <= a <= 0x7fffffffffffffff,
            -0x8000000000000000 <= b <= 0x7fffffffffffffff,
    ;
}

/// Saturates a wide intermediate into the raw `i64` range.
fn clamp_i128(x: i128) -> (r: i64)
    ensures
        r as int == clamp_raw(x as int),
{
    if x > BOUND as i128 {
        BOUND
    } else if x < -(BOUND as i128) {
        -BOUND
    } else {
        x as i64
    }
}

/// Division of raw values, truncating toward zero.
pub(crate) fn tdiv_i64(a: i64, b: i64) -> (r: i64)
    requires
        b > 0,
    ensures
        r as int == tdiv_raw(a as int, b as int),
{
    let wide = tdiv_i128(a as i128, b as i128);
    proof {
        if a as int >= 0 {
            vstd::arithmetic::div_mod::lemma_div_nonincreasing(a as int, b as int);
            vstd::arithmetic::div_mod::lemma_div_pos_is_pos(a as int, b as int);
            assert(0 <= wide as int <= a as int);
        } else {
            vstd::arithmetic::div_mod::lemma_div_nonincreasing(-(a as int), b as int);
            vstd::arithmetic::div_mod::lemma_div_pos_is_pos(-(a as int), b as int);
            assert(-(a as int) >= wide as int >= a as int);
        }
    }
    wide as i64
}

/// Division of wide intermediates, truncating toward zero.
fn tdiv_i128(a: i128, b: i128) -> (r: i128)
    requires
        a != i128::MIN,
        b != i128::MIN,
    ensures
        r as int == tdiv_raw(a as int, b as int),
{
    if b == 0 {
        0
    } else {
        let ua: u128 = if a < 0 { (-a) as u128 } else { a as u128 };
        let ub: u128 = if b < 0 { (-b) as u128 } else { b as u128 };
        let q: u128 = ua / ub;
        assert(ua as int == abs_int(a as int));
        assert(ub as int == abs_int(b as int));
        assert(q as int == abs_int(a as int) / abs_int(b as int));
        assert(q <= ua) by {
            vstd::arithmetic::div_mod::lemma_div_nonincreasing(ua as int, ub as int);
        }
        if (a < 0) == (b < 0) {
            q as i128
        } else {
            -(q as i128)
        }
    }
}

} // verus!
