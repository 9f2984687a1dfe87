//! Wall-clock time in whole microseconds, and the time that the workers spend
//! in each of the two instrumented phases.

use vstd::prelude::*;
use std::time::Instant;

verus! {

/// The most microseconds that a `Duration` can hold: `u64::MAX` whole seconds
/// and a fraction just short of one second.
pub const MAX_MICROS: u128 = 18446744073709551615999999;

/// `std::time::Instant`: a reading of the monotonic clock. It is carried
/// through as it is; nothing inside it is known here.
#[verifier::external_type_specification]
#[verifier::external_body]
pub struct ExInstant(std::time::Instant);

/// `std::time::Instant::elapsed`: the time that has passed since the instant
/// was taken. It depends on the clock, so nothing is claimed of the result.
pub assume_specification[ std::time::Instant::elapsed ](i: &std::time::Instant) -> (d:
    std::time::Duration)
;

/// `core::time::Duration::as_micros`: the whole microseconds in a duration. A
/// duration holds a number of seconds that fits 64 bits and a fraction of less
/// than one second, which bounds the result; no more is claimed of it.
pub assume_specification[ core::time::Duration::as_micros ](d: &core::time::Duration) -> (micros:
    u128)
    ensures
        micros <= MAX_MICROS,
;

/// The whole microseconds that have passed since `i`.
pub fn elapsed(i: &Instant) -> (micros: u128)
    ensures
        micros <= MAX_MICROS,
{
    i.elapsed().as_micros()
}

/// The microseconds spent in each instrumented phase.
#[derive(Clone, Copy, Debug, PartialEq, Eq, Structural)]
pub struct PhaseTimes {
    /// Time spent turning uniform pairs into Gaussian pairs and counting them.
    pub pairs: u128,
    /// Time spent deriving seeds and generating uniform deviates.
    pub uniforms: u128,
}

impl PhaseTimes {
    /// No time spent in either phase.
    pub fn zero() -> (t: PhaseTimes)
        ensures
            t == (PhaseTimes { pairs: 0, uniforms: 0 }),
    {
        PhaseTimes { pairs: 0, uniforms: 0 }
    }

    /// Adds the times of another worker, phase by phase.
    pub fn accumulate(&mut self, other: &PhaseTimes)
        requires
            old(self).pairs + other.pairs <= u128::MAX,
            old(self).uniforms + other.uniforms <= u128::MAX,
        ensures
            final(self).pairs == old(self).pairs + other.pairs,
            final(self).uniforms == old(self).uniforms + other.uniforms,
    {
        self.pairs = self.pairs + other.pairs;
        self.uniforms = self.uniforms + other.uniforms;
    }

    /// The time per worker: each phase's total divided by the number of
    /// workers, rounded down.
    pub fn per_worker(&self, workers: usize) -> (t: PhaseTimes)
        requires
            workers > 0,
        ensures
            t.pairs == self.pairs / (workers as u128),
            t.uniforms == self.uniforms / (workers as u128),
    {
        PhaseTimes {
            pairs: self.pairs / (workers as u128),
            uniforms: self.uniforms / (workers as u128),
        }
    }
}

} // verus!
