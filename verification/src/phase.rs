//! The phases of a run. A run passes through them once, in order, and ends
//! with its report.

use vstd::prelude::*;

verus! {

/// A phase of a run.
#[derive(Clone, Copy, Debug, PartialEq, Eq, Structural)]
pub enum Phase {
    /// The problem is chosen.
    Init,
    /// The batch multiplier is derived.
    SkipAheadSetup,
    /// The workers generate and tally their batches.
    ParallelGenerate,
    /// The reports of the workers are merged.
    Reduce,
    /// The sums are compared with their reference values.
    Verify,
    /// The result is reported; nothing follows.
    Report,
}

impl Phase {
    /// The place of the phase in the order of a run.
    pub open spec fn rank(self) -> nat {
        match self {
            Phase::Init => 0,
            Phase::SkipAheadSetup => 1,
            Phase::ParallelGenerate => 2,
            Phase::Reduce => 3,
            Phase::Verify => 4,
            Phase::Report => 5,
        }
    }

    /// The phase that follows, where one does.
    pub open spec fn successor(self) -> Option<Phase> {
        match self {
            Phase::Init => Some(Phase::SkipAheadSetup),
            Phase::SkipAheadSetup => Some(Phase::ParallelGenerate),
            Phase::ParallelGenerate => Some(Phase::Reduce),
            Phase::Reduce => Some(Phase::Verify),
            Phase::Verify => Some(Phase::Report),
            Phase::Report => None,
        }
    }

    /// The phase reached after `steps` steps, where the run lasts that long.
    pub open spec fn after(self, steps: nat) -> Option<Phase>
        decreases steps,
    {
        if steps == 0 {
            Some(self)
        } else {
            match self.successor() {
                Some(next) => next.after((steps - 1) as nat),
                None => None,
            }
        }
    }

    /// The phase in which every run starts.
    pub fn first() -> (p: Phase)
        ensures
            p == Phase::Init,
    {
        Phase::Init
    }

    /// The phase that follows this one, or `None` after the report.
    pub fn next(self) -> (n: Option<Phase>)
        ensures
            n == self.successor(),
            n.is_none() <==> self == Phase::Report,
            n.is_some() ==> n.unwrap().rank() == self.rank() + 1,
    {
        match self {
            Phase::Init => Some(Phase::SkipAheadSetup),
            Phase::SkipAheadSetup => Some(Phase::ParallelGenerate),
            Phase::ParallelGenerate => Some(Phase::Reduce),
            Phase::Reduce => Some(Phase::Verify),
            Phase::Verify => Some(Phase::Report),
            Phase::Report => None,
        }
    }

    /// Whether the run is over.
    pub fn is_terminal(self) -> (t: bool)
        ensures
            t == (self == Phase::Report),
    {
        match self {
            Phase::Report => true,
            _ => false,
        }
    }
}

/// A single pass without re-entry: each step moves exactly one place on, so
/// no phase is ever reached again once it has been left, and the run is over
/// after five steps from its start.
pub proof fn lemma_single_pass(from: Phase, steps: nat)
    ensures
        from.after(steps).is_some() ==> from.after(steps).unwrap().rank() == from.rank() + steps,
        from.after(steps).is_some() <==> from.rank() + steps <= 5,
        steps > 0 ==> from.after(steps) != Some(from),
    decreases steps,
{
    if steps > 0 {
        match from.successor() {
            Some(next) => {
                lemma_single_pass(next, (steps - 1) as nat);
            },
            None => {},
        }
    }
}

} // verus!
