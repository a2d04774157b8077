//! Sources of uniform fixed-point samples.
//!
//! Every sampling site of the renderer (anti-aliasing jitter, defocus
//! offsets, material scattering) draws through a [`RandomSource`], so a
//! render can run either from the process-wide generator or from a small
//! deterministic generator that reproduces a render exactly.

use crate::fixed::{tdiv_raw, Real, SCALE};
use vstd::prelude::*;

verus! {

/// A pluggable source of uniform samples on the fixed-point grid.
#[derive(Clone, Copy, Debug)]
pub enum RandomSource {
    /// Draws from the process-wide generator of the `rand` crate.
    Thread,
    /// A linear-congruential generator: deterministic, seedable, and good
    /// enough to decorrelate sampling sites for a reproducible render.
    Lcg { state: u64 },
}

/// One step of the deterministic generator: the state is reduced into the
/// generator's modulus and advanced by the linear-congruential rule.
pub open spec fn lcg_next(s: int) -> int {
    ((s % 2147483648) * 1103515245 + 12345) % 2147483648
}

/// The unit sample a deterministic-generator state yields: sixteen of its
/// upper bits.
pub open spec fn lcg_out(s: int) -> int {
    (s / 32768) % 65536
}

/// Relies on `rand::Rng::gen_range` over `0..n`: the sample lies in the
/// (non-empty) range, so in particular it is below `n`.
#[verifier::external_body]
fn thread_sample_below(n: u64) -> (r: u64)
    requires
        1 <= n,
    ensures
        r < n,
{
    rand::Rng::gen_range(&mut rand::thread_rng(), 0..n)
}

impl RandomSource {
    /// A deterministic source seeded with `seed`.
    pub fn lcg(seed: u64) -> (r: RandomSource)
        ensures
            r == (RandomSource::Lcg { state: seed }),
    {
        RandomSource::Lcg { state: seed }
    }

    /// A source backed by the process-wide generator.
    pub fn thread() -> (r: RandomSource)
        ensures
            r is Thread,
    {
        RandomSource::Thread
    }

    /// A uniform sample in `[0, 1)`: the raw value lies on `[0, SCALE)`.
    /// A deterministic source advances by exactly one generator step and
    /// yields exactly that step's output; the process-wide source is left
    /// as it was.
    pub fn next_unit(&mut self) -> (r: Real)
        ensures
            0 <= r.raw < SCALE,
            match *old(self) {
                RandomSource::Thread => *final(self) == *old(self),
                RandomSource::Lcg { state } => {
                    &&& *final(self) == (RandomSource::Lcg {
                        state: lcg_next(state as int) as u64,
                    })
                    &&& r.raw == lcg_out(lcg_next(state as int))
                },
            },
    {
        let cur = *self;
        match cur {
            RandomSource::Thread => {
                let v = thread_sample_below(65536);
                Real { raw: v as i64 }
            },
            RandomSource::Lcg { state } => {
                let s: u64 = state % 2147483648;
                let next: u64 = (s * 1103515245 + 12345) % 2147483648;
                *self = RandomSource::Lcg { state: next };
                Real { raw: ((next / 32768) % 65536) as i64 }
            },
        }
    }

    /// A uniform sample in `[min, max)`: one unit sample, rescaled onto
    /// the range.  A deterministic source advances by exactly one step and
    /// the sample is pinned by that step's output.
    pub fn in_range(&mut self, min: Real, max: Real) -> (r: Real)
        requires
            min.raw < max.raw,
        ensures
            min.raw <= r.raw < max.raw,
            match *old(self) {
                RandomSource::Thread => *final(self) == *old(self),
                RandomSource::Lcg { state } => {
                    &&& *final(self) == (RandomSource::Lcg {
                        state: lcg_next(state as int) as u64,
                    })
                    &&& r.raw == min.raw + tdiv_raw(
                        (max.raw - min.raw) * lcg_out(lcg_next(state as int)),
                        SCALE as int,
                    )
                },
            },
    {
        let u = self.next_unit();
        let d: i128 = (max.raw as i128) - (min.raw as i128);
        proof {
            assert(0 <= (d as int) * (u.raw as int) && (d as int) * (u.raw as int) < (d as int)
                * 65536) by (nonlinear_arith)
                requires
                    0 < d as int,
                    0 <= u.raw < 65536,
            ;
            assert((d as int) * 65536 <= 0x10000000000000000 * 65536) by (nonlinear_arith)
                requires
                    0 < d as int <= 0x10000000000000000,
            ;
        }
        let q: i128 = (d * (u.raw as i128)) / 65536i128;
        proof {
            assert(0 <= ((d as int) * (u.raw as int)) / 65536 && ((d as int) * (u.raw as int))
                / 65536 < d as int) by (nonlinear_arith)
                requires
                    0 <= (d as int) * (u.raw as int),
                    (d as int) * (u.raw as int) < (d as int) * 65536,
                    0 < d as int,
            ;
            assert(tdiv_raw((d as int) * (u.raw as int), 65536) == ((d as int) * (u.raw as int))
                / 65536);
        }
        Real { raw: (min.raw as i128 + q) as i64 }
    }
}

} // verus!
