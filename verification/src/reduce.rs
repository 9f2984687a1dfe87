//! The reduction of what the workers report into the result of the run.
//!
//! Every worker reports once: its tally and the time it spent in each phase.
//! The reduction adds them up, in whatever order they arrive, and is finished
//! only when every worker has reported: a run with a missing worker has no
//! result.

use vstd::prelude::*;
use crate::histogram::{add_bins, bins_total, empty_bins, Histogram};
use crate::timing::PhaseTimes;

verus! {

/// Why a report was not taken.
#[derive(Clone, Copy, Debug, PartialEq, Eq, Structural)]
pub enum ReduceError {
    /// Every worker has reported already.
    UnexpectedReport,
    /// The number of accepted pairs would not fit a 64-bit counter.
    CounterOverflow,
    /// The time spent in a phase would not fit 128 bits.
    TimeOverflow,
}

/// The result of a run, as far as it is counted: the merged tally, the number
/// of accepted pairs and the time that a worker spent in each phase on
/// average.
pub struct Summary {
    pub histogram: Histogram,
    pub pair_count: u64,
    pub times: PhaseTimes,
}

/// The reduction on its way: the number of workers, the number of them that
/// have reported, and the sum of what they reported.
pub struct Reducer {
    expected: usize,
    heard: usize,
    histogram: Histogram,
    times: PhaseTimes,
}

impl Reducer {
    #[verifier::type_invariant]
    spec fn well_formed(self) -> bool {
        self.heard <= self.expected && self.expected > 0
    }

    /// The number of workers.
    pub closed spec fn expected(self) -> nat {
        self.expected as nat
    }

    /// The number of workers that have reported.
    pub closed spec fn heard(self) -> nat {
        self.heard as nat
    }

    /// The sum of the tallies reported so far.
    pub closed spec fn bins(self) -> Seq<nat> {
        self.histogram@
    }

    /// The sum of the times reported so far.
    pub closed spec fn times(self) -> PhaseTimes {
        self.times
    }

    /// A reduction that waits for the reports of `workers` workers.
    pub fn new(workers: usize) -> (r: Reducer)
        requires
            workers > 0,
        ensures
            r.expected() == workers,
            r.heard() == 0,
            r.bins() == empty_bins(),
            r.times() == (PhaseTimes { pairs: 0, uniforms: 0 }),
    {
        Reducer {
            expected: workers,
            heard: 0,
            histogram: Histogram::new(),
            times: PhaseTimes::zero(),
        }
    }

    /// Whether every worker has reported.
    pub fn is_complete(&self) -> (done: bool)
        ensures
            done == (self.heard() == self.expected()),
    {
        self.heard == self.expected
    }

    /// Takes the report of one worker. A report beyond the last worker's, or
    /// one whose sums would overflow, is refused and changes nothing.
    pub fn absorb(&mut self, histogram: &Histogram, times: &PhaseTimes) -> (result: Result<
        (),
        ReduceError,
    >)
        ensures
            final(self).expected() == old(self).expected(),
            (match result {
                Ok(_) => {
                    &&& old(self).heard() < old(self).expected()
                    &&& final(self).heard() == old(self).heard() + 1
                    &&& final(self).bins() == add_bins(old(self).bins(), histogram@)
                    &&& bins_total(final(self).bins()) == bins_total(old(self).bins()) + bins_total(
                        histogram@,
                    )
                    &&& final(self).times().pairs == old(self).times().pairs + times.pairs
                    &&& final(self).times().uniforms == old(self).times().uniforms + times.uniforms
                },
                Err(ReduceError::UnexpectedReport) => {
                    &&& old(self).heard() == old(self).expected()
                    &&& *final(self) == *old(self)
                },
                Err(ReduceError::CounterOverflow) => {
                    &&& old(self).heard() < old(self).expected()
                    &&& bins_total(old(self).bins()) + bins_total(histogram@) > u64::MAX
                    &&& *final(self) == *old(self)
                },
                Err(ReduceError::TimeOverflow) => {
                    &&& old(self).heard() < old(self).expected()
                    &&& bins_total(old(self).bins()) + bins_total(histogram@) <= u64::MAX
                    &&& (old(self).times().pairs + times.pairs > u128::MAX || old(
                        self,
                    ).times().uniforms + times.uniforms > u128::MAX)
                    &&& *final(self) == *old(self)
                },
            }),
    {
        proof {
            use_type_invariant(&*self);
        }
        if self.heard == self.expected {
            return Err(ReduceError::UnexpectedReport);
        }
        if self.histogram.pair_count().checked_add(histogram.pair_count()).is_none() {
            return Err(ReduceError::CounterOverflow);
        }
        if self.times.pairs.checked_add(times.pairs).is_none() || self.times.uniforms.checked_add(
            times.uniforms,
        ).is_none() {
            return Err(ReduceError::TimeOverflow);
        }
        let mut merged: Histogram = self.histogram;
        merged.merge(histogram);
        let mut spent: PhaseTimes = self.times;
        spent.accumulate(times);
        *self = Reducer {
            expected: self.expected,
            heard: self.heard + 1,
            histogram: merged,
            times: spent,
        };
        Ok(())
    }

    /// The result of the run, or `None` where a worker has not reported.
    pub fn finish(self) -> (summary: Option<Summary>)
        ensures
            summary.is_some() <==> self.heard() == self.expected(),
            summary.is_some() ==> ({
                &&& summary.unwrap().histogram@ == self.bins()
                &&& summary.unwrap().pair_count == bins_total(self.bins())
                &&& summary.unwrap().times.pairs == self.times().pairs / (self.expected() as u128)
                &&& summary.unwrap().times.uniforms == self.times().uniforms / (
                self.expected() as u128)
            }),
    {
        proof {
            use_type_invariant(&self);
        }
        if self.heard != self.expected {
            return None;
        }
        let pair_count = self.histogram.pair_count();
        let times = self.times.per_worker(self.expected);
        Some(Summary { histogram: self.histogram, pair_count, times })
    }
}

} // verus!
