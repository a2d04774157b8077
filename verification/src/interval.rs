//! Closed numeric ranges over fixed-point reals.
//!
//! An interval bounds the acceptable ray parameter of a hit (the lower end
//! keeps a bounced ray from re-hitting its own origin, the upper end shrinks
//! to the best hit found so far) and clamps color channels into displayable
//! range.

use crate::fixed::{Real, BOUND};
use vstd::prelude::*;

verus! {

/// A numeric range `[min, max]`.
#[derive(Clone, Copy, PartialEq, Eq, Structural, Debug)]
pub struct Interval {
    pub min: Real,
    pub max: Real,
}

impl Default for Interval {
    /// The all-encompassing interval: the whole representable line.
    fn default() -> (r: Interval)
        ensures
            r.min.raw == -BOUND,
            r.max.raw == BOUND,
    {
        Interval { min: Real { raw: -BOUND }, max: Real { raw: BOUND } }
    }
}

impl Interval {
    /// Whether `x` lies in the closed range `[min, max]`.
    pub open spec fn spec_contains(self, x: Real) -> bool {
        self.min.raw <= x.raw && x.raw <= self.max.raw
    }

    /// Whether `x` lies strictly inside the range: `min < x < max`.
    pub open spec fn spec_surrounds(self, x: Real) -> bool {
        self.min.raw < x.raw && x.raw < self.max.raw
    }

    /// `x` forced into the closed range (meaningful when `min <= max`).
    pub open spec fn spec_clamp(self, x: Real) -> Real {
        if x.raw < self.min.raw {
            self.min
        } else if x.raw > self.max.raw {
            self.max
        } else {
            x
        }
    }

    /// Builds the range `[min, max]`.
    pub fn new(min: Real, max: Real) -> (r: Interval)
        ensures
            r == (Interval { min, max }),
    {
        Interval { min, max }
    }

    /// Closed containment test.
    pub fn contains(&self, x: Real) -> (r: bool)
        ensures
            r == self.spec_contains(x),
    {
        self.min.raw <= x.raw && x.raw <= self.max.raw
    }

    /// Strict containment test.
    pub fn surrounds(&self, x: Real) -> (r: bool)
        ensures
            r == self.spec_surrounds(x),
    {
        self.min.raw < x.raw && x.raw < self.max.raw
    }

    /// Forces `x` into the closed range.
    pub fn clamp(&self, x: Real) -> (r: Real)
        ensures
            r == self.spec_clamp(x),
    {
        if x.raw < self.min.raw {
            return self.min;
        }
        if x.raw > self.max.raw {
            return self.max;
        }
        x
    }
}

} // verus!
