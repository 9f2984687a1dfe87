//! The tally of accepted pairs by magnitude, and its reduction.
//!
//! A pair of uniform deviates is either rejected, because it falls outside
//! the unit disk, or accepted and turned into a pair of Gaussian deviates
//! `(X, Y)`. An accepted pair is counted in the bin numbered by the whole part
//! of `max(|X|, |Y|)`; a magnitude beyond the last bin is counted in the last
//! bin. Tallies of disjoint parts of the stream are merged bin by bin.

use vstd::prelude::*;

verus! {

/// The number of bins.
pub const BINS: usize = 10;

/// What became of one pair of uniform deviates.
#[derive(Clone, Copy, Debug, PartialEq, Eq, Structural)]
pub enum PairOutcome {
    /// The pair fell outside the unit disk.
    Rejected,
    /// The pair was accepted; the field is the whole part of the larger
    /// magnitude of its two Gaussian deviates.
    Accepted(u64),
}

/// The sum of all bins.
pub open spec fn bins_total(bins: Seq<nat>) -> nat
    decreases bins.len(),
{
    if bins.len() == 0 {
        0
    } else {
        bins_total(bins.drop_last()) + bins.last()
    }
}

/// As many bins as a histogram has, all of them zero.
pub open spec fn empty_bins() -> Seq<nat> {
    Seq::new(BINS as nat, |i: int| 0nat)
}

/// The bin in which a magnitude is counted: its whole part, or the last bin
/// where that lies beyond it.
pub open spec fn bin_index(magnitude: nat) -> int {
    if magnitude < BINS {
        magnitude as int
    } else {
        BINS - 1
    }
}

/// The bins after one more pair of the given magnitude has been counted.
pub open spec fn record_bins(bins: Seq<nat>, magnitude: nat) -> Seq<nat> {
    bins.update(bin_index(magnitude), bins[bin_index(magnitude)] + 1)
}

/// The bins after the outcomes have been counted in order: an accepted pair
/// adds one to its bin, a rejected pair changes nothing.
pub open spec fn tally_bins(bins: Seq<nat>, outcomes: Seq<PairOutcome>) -> Seq<nat>
    decreases outcomes.len(),
{
    if outcomes.len() == 0 {
        bins
    } else {
        let before = tally_bins(bins, outcomes.drop_last());
        match outcomes.last() {
            PairOutcome::Rejected => before,
            PairOutcome::Accepted(magnitude) => record_bins(before, magnitude as nat),
        }
    }
}

/// The number of accepted pairs among the outcomes.
pub open spec fn accepted(outcomes: Seq<PairOutcome>) -> nat
    decreases outcomes.len(),
{
    if outcomes.len() == 0 {
        0
    } else {
        accepted(outcomes.drop_last()) + (match outcomes.last() {
            PairOutcome::Rejected => 0nat,
            PairOutcome::Accepted(_) => 1nat,
        })
    }
}

/// The sum of two tallies, bin by bin.
pub open spec fn add_bins(a: Seq<nat>, b: Seq<nat>) -> Seq<nat> {
    Seq::new(a.len(), |i: int| a[i] + b[i])
}

/// Changing one bin changes the total by the same amount.
pub proof fn lemma_total_update(bins: Seq<nat>, i: int, value: nat)
    requires
        0 <= i < bins.len(),
    ensures
        bins_total(bins.update(i, value)) + bins[i] == bins_total(bins) + value,
        bins[i] <= bins_total(bins),
    decreases bins.len(),
{
    let changed = bins.update(i, value);
    if i == bins.len() - 1 {
        assert(changed.drop_last() =~= bins.drop_last());
    } else {
        lemma_total_update(bins.drop_last(), i, value);
        assert(changed.drop_last() =~= bins.drop_last().update(i, value));
    }
}

/// Bins that are all zero sum to zero.
pub proof fn lemma_total_zero(bins: Seq<nat>)
    requires
        forall|i: int| 0 <= i < bins.len() ==> bins[i] == 0,
    ensures
        bins_total(bins) == 0,
    decreases bins.len(),
{
    if bins.len() > 0 {
        lemma_total_zero(bins.drop_last());
    }
}

/// The total of a sum of two tallies is the sum of their totals.
pub proof fn lemma_total_add(a: Seq<nat>, b: Seq<nat>)
    requires
        a.len() == b.len(),
    ensures
        bins_total(add_bins(a, b)) == bins_total(a) + bins_total(b),
    decreases a.len(),
{
    if a.len() > 0 {
        lemma_total_add(a.drop_last(), b.drop_last());
        assert(add_bins(a, b).drop_last() =~= add_bins(a.drop_last(), b.drop_last()));
    }
}

/// Merging does not depend on the order of the two tallies.
pub proof fn lemma_add_commutes(a: Seq<nat>, b: Seq<nat>)
    requires
        a.len() == b.len(),
    ensures
        add_bins(a, b) == add_bins(b, a),
{
    assert(add_bins(a, b) =~= add_bins(b, a));
}

/// Merging three tallies does not depend on which two are merged first.
pub proof fn lemma_add_associates(a: Seq<nat>, b: Seq<nat>, c: Seq<nat>)
    requires
        a.len() == b.len(),
        b.len() == c.len(),
    ensures
        add_bins(add_bins(a, b), c) == add_bins(a, add_bins(b, c)),
{
    assert(add_bins(add_bins(a, b), c) =~= add_bins(a, add_bins(b, c)));
}

/// Counting keeps the number of bins.
pub proof fn lemma_tally_len(bins: Seq<nat>, outcomes: Seq<PairOutcome>)
    requires
        bins.len() == BINS,
    ensures
        tally_bins(bins, outcomes).len() == BINS,
    decreases outcomes.len(),
{
    if outcomes.len() > 0 {
        lemma_tally_len(bins, outcomes.drop_last());
    }
}

/// The sum of all bins grows by exactly the number of accepted pairs, which
/// is at most the number of pairs.
pub proof fn lemma_tally_total(bins: Seq<nat>, outcomes: Seq<PairOutcome>)
    requires
        bins.len() == BINS,
    ensures
        bins_total(tally_bins(bins, outcomes)) == bins_total(bins) + accepted(outcomes),
        accepted(outcomes) <= outcomes.len(),
    decreases outcomes.len(),
{
    if outcomes.len() > 0 {
        let before = tally_bins(bins, outcomes.drop_last());
        lemma_tally_total(bins, outcomes.drop_last());
        lemma_tally_len(bins, outcomes.drop_last());
        match outcomes.last() {
            PairOutcome::Rejected => {},
            PairOutcome::Accepted(magnitude) => {
                let i = bin_index(magnitude as nat);
                lemma_total_update(before, i, before[i] + 1);
            },
        }
    }
}

/// Starting from empty bins, the sum of all bins is the number of accepted
/// pairs; where `total_batches` batches of `batch_size` pairs each were
/// counted, it is at most `batch_size * total_batches`.
pub proof fn lemma_pair_count_bounded(
    outcomes: Seq<PairOutcome>,
    batch_size: nat,
    total_batches: nat,
)
    requires
        outcomes.len() == batch_size * total_batches,
    ensures
        bins_total(tally_bins(empty_bins(), outcomes)) == accepted(outcomes),
        bins_total(tally_bins(empty_bins(), outcomes)) <= batch_size * total_batches,
{
    lemma_total_zero(empty_bins());
    lemma_tally_total(empty_bins(), outcomes);
}

/// Counting onto a tally adds what counting onto empty bins gives.
pub proof fn lemma_tally_onto(bins: Seq<nat>, outcomes: Seq<PairOutcome>)
    requires
        bins.len() == BINS,
    ensures
        tally_bins(bins, outcomes) == add_bins(bins, tally_bins(empty_bins(), outcomes)),
    decreases outcomes.len(),
{
    if outcomes.len() == 0 {
        assert(bins =~= add_bins(bins, empty_bins()));
    } else {
        lemma_tally_onto(bins, outcomes.drop_last());
        lemma_tally_len(empty_bins(), outcomes.drop_last());
        let before = tally_bins(bins, outcomes.drop_last());
        let alone = tally_bins(empty_bins(), outcomes.drop_last());
        match outcomes.last() {
            PairOutcome::Rejected => {},
            PairOutcome::Accepted(magnitude) => {
                assert(record_bins(before, magnitude as nat) =~= add_bins(
                    bins,
                    record_bins(alone, magnitude as nat),
                ));
            },
        }
    }
}

/// The tally of a stream cut in two at any point is the merge of the tallies
/// of its two parts: the result does not depend on where the work was divided.
pub proof fn lemma_tally_split(first: Seq<PairOutcome>, second: Seq<PairOutcome>)
    ensures
        tally_bins(empty_bins(), first + second) == add_bins(
            tally_bins(empty_bins(), first),
            tally_bins(empty_bins(), second),
        ),
    decreases second.len(),
{
    let head = tally_bins(empty_bins(), first);
    lemma_tally_len(empty_bins(), first);
    lemma_tally_len(empty_bins(), second);
    if second.len() == 0 {
        assert(first + second =~= first);
        assert(head =~= add_bins(head, empty_bins()));
    } else {
        lemma_tally_split(first, second.drop_last());
        lemma_tally_len(empty_bins(), second.drop_last());
        assert((first + second).drop_last() =~= first + second.drop_last());
        assert((first + second).last() == second.last());
        let before = tally_bins(empty_bins(), second.drop_last());
        match second.last() {
            PairOutcome::Rejected => {},
            PairOutcome::Accepted(magnitude) => {
                assert(record_bins(add_bins(head, before), magnitude as nat) =~= add_bins(
                    head,
                    record_bins(before, magnitude as nat),
                ));
            },
        }
    }
}

/// The outcomes of consecutive parts of the stream, joined in order.
pub open spec fn joined(parts: Seq<Seq<PairOutcome>>) -> Seq<PairOutcome>
    decreases parts.len(),
{
    if parts.len() == 0 {
        Seq::empty()
    } else {
        joined(parts.drop_last()) + parts.last()
    }
}

/// The merge of the tallies that the parts give one by one.
pub open spec fn merged_tally(parts: Seq<Seq<PairOutcome>>) -> Seq<nat>
    decreases parts.len(),
{
    if parts.len() == 0 {
        empty_bins()
    } else {
        add_bins(merged_tally(parts.drop_last()), tally_bins(empty_bins(), parts.last()))
    }
}

/// However many workers share the stream, and wherever it is cut between
/// them, the merge of their tallies is the tally of the whole stream.
pub proof fn lemma_tally_of_parts(parts: Seq<Seq<PairOutcome>>)
    ensures
        tally_bins(empty_bins(), joined(parts)) == merged_tally(parts),
    decreases parts.len(),
{
    if parts.len() > 0 {
        lemma_tally_of_parts(parts.drop_last());
        lemma_tally_split(joined(parts.drop_last()), parts.last());
    }
}

/// The bin in which a pair of the given magnitude is counted.
pub fn bin_for(magnitude: u64) -> (bin: usize)
    ensures
        bin == bin_index(magnitude as nat),
        bin < BINS,
{
    if magnitude < BINS as u64 {
        magnitude as usize
    } else {
        BINS - 1
    }
}

/// A tally of accepted pairs by magnitude. The sum of its bins always fits a
/// 64-bit counter.
#[derive(Clone, Copy, Debug)]
pub struct Histogram {
    counts: [u64; BINS],
}

impl View for Histogram {
    type V = Seq<nat>;

    closed spec fn view(&self) -> Seq<nat> {
        Seq::new(BINS as nat, |i: int| self.counts[i] as nat)
    }
}

impl Histogram {
    #[verifier::type_invariant]
    spec fn fits(self) -> bool {
        bins_total(self@) <= u64::MAX
    }

    /// A histogram has one count for each bin.
    pub proof fn lemma_bins(self)
        ensures
            self@.len() == BINS,
    {
    }

    /// A histogram in which nothing has been counted.
    pub fn new() -> (h: Histogram)
        ensures
            h@ == empty_bins(),
            bins_total(h@) == 0,
    {
        let counts: [u64; BINS] = [0u64; BINS];
        proof {
            assert(Seq::new(BINS as nat, |i: int| counts[i] as nat) =~= empty_bins());
            lemma_total_zero(empty_bins());
        }
        Histogram { counts }
    }

    /// The count in one bin.
    pub fn count(&self, bin: usize) -> (c: u64)
        requires
            bin < BINS,
        ensures
            c == self@[bin as int],
    {
        self.counts[bin]
    }

    /// The counts of all bins, in order.
    pub fn counts(&self) -> (c: Vec<u64>)
        ensures
            c.len() == BINS,
            forall|i: int| 0 <= i < BINS ==> c[i] == self@[i],
    {
        let mut c: Vec<u64> = Vec::new();
        let mut i: usize = 0;
        while i < BINS
            invariant
                i <= BINS,
                c.len() == i,
                forall|j: int| 0 <= j < i ==> c[j] == self@[j],
            decreases BINS - i,
        {
            c.push(self.counts[i]);
            i += 1;
        }
        c
    }

    /// The number of accepted pairs that were counted: the sum of all bins.
    pub fn pair_count(&self) -> (n: u64)
        ensures
            n == bins_total(self@),
    {
        proof {
            use_type_invariant(self);
        }
        let mut n: u64 = 0;
        let mut i: usize = 0;
        while i < BINS
            invariant
                i <= BINS,
                n == bins_total(self@.take(i as int)),
                bins_total(self@) <= u64::MAX,
                self@.len() == BINS,
            decreases BINS - i,
        {
            proof {
                let next = self@.take(i + 1);
                assert(next.drop_last() =~= self@.take(i as int));
                lemma_total_prefix(self@, i + 1);
            }
            n += self.counts[i];
            i += 1;
        }
        proof {
            assert(self@.take(BINS as int) =~= self@);
        }
        n
    }

    /// Counts one accepted pair of the given magnitude.
    pub fn record(&mut self, magnitude: u64)
        requires
            bins_total(old(self)@) < u64::MAX,
        ensures
            final(self)@ == record_bins(old(self)@, magnitude as nat),
            bins_total(final(self)@) == bins_total(old(self)@) + 1,
    {
        let bin = bin_for(magnitude);
        proof {
            use_type_invariant(&*self);
            lemma_total_update(self@, bin as int, self@[bin as int] + 1);
            let counted = self.counts@.update(bin as int, (self.counts[bin as int] + 1) as u64);
            assert(Seq::new(BINS as nat, |i: int| counted[i] as nat) =~= record_bins(
                self@,
                magnitude as nat,
            ));
        }
        let counts = update_count(self.counts, bin, self.counts[bin] + 1);
        self.counts = counts;
    }

    /// Counts the outcomes of a run of pairs, in order.
    pub fn tally(&mut self, outcomes: &[PairOutcome])
        requires
            bins_total(old(self)@) + outcomes@.len() <= u64::MAX,
        ensures
            final(self)@ == tally_bins(old(self)@, outcomes@),
            bins_total(final(self)@) == bins_total(old(self)@) + accepted(outcomes@),
            bins_total(final(self)@) <= bins_total(old(self)@) + outcomes@.len(),
    {
        let mut i: usize = 0;
        proof {
            assert(outcomes@.take(0) =~= Seq::<PairOutcome>::empty());
        }
        while i < outcomes.len()
            invariant
                i <= outcomes@.len(),
                old(self)@.len() == BINS,
                bins_total(old(self)@) + outcomes@.len() <= u64::MAX,
                self@ == tally_bins(old(self)@, outcomes@.take(i as int)),
            decreases outcomes@.len() - i,
        {
            proof {
                let done = outcomes@.take(i as int);
                let next = outcomes@.take(i + 1);
                assert(next.drop_last() =~= done);
                assert(next.last() == outcomes@[i as int]);
                lemma_tally_total(old(self)@, done);
            }
            match outcomes[i] {
                PairOutcome::Rejected => {},
                PairOutcome::Accepted(magnitude) => {
                    self.record(magnitude);
                },
            }
            i += 1;
        }
        proof {
            assert(outcomes@.take(outcomes@.len() as int) =~= outcomes@);
            lemma_tally_total(old(self)@, outcomes@);
        }
    }

    /// Adds the counts of another histogram to this one, bin by bin.
    pub fn merge(&mut self, other: &Histogram)
        requires
            bins_total(old(self)@) + bins_total(other@) <= u64::MAX,
        ensures
            final(self)@ == add_bins(old(self)@, other@),
            bins_total(final(self)@) == bins_total(old(self)@) + bins_total(other@),
    {
        proof {
            use_type_invariant(&*self);
            use_type_invariant(other);
            lemma_total_add(self@, other@);
            assert forall|j: int| 0 <= j < BINS implies self@[j] + other@[j] <= u64::MAX by {
                lemma_total_update(self@, j, 0);
                lemma_total_update(other@, j, 0);
            }
        }
        let mut counts: [u64; BINS] = self.counts;
        let mut i: usize = 0;
        while i < BINS
            invariant
                i <= BINS,
                self@.len() == BINS,
                other@.len() == BINS,
                forall|j: int| 0 <= j < BINS ==> self@[j] + other@[j] <= u64::MAX,
                forall|j: int| 0 <= j < i ==> counts[j] == self@[j] + other@[j],
                forall|j: int| i <= j < BINS ==> counts[j] == self@[j],
            decreases BINS - i,
        {
            proof {
                assert(other@[i as int] == other.counts[i as int]);
                assert(self@[i as int] + other@[i as int] <= u64::MAX);
            }
            counts = update_count(counts, i, counts[i] + other.counts[i]);
            i += 1;
        }
        proof {
            assert(Seq::new(BINS as nat, |j: int| counts[j] as nat) =~= add_bins(self@, other@));
        }
        self.counts = counts;
    }
}

/// The sum of the first `n` bins is the sum of the first `n - 1` and the bin
/// numbered `n - 1`, and no more than the sum of all.
proof fn lemma_total_prefix(bins: Seq<nat>, n: int)
    requires
        0 < n <= bins.len(),
    ensures
        bins_total(bins.take(n)) == bins_total(bins.take(n - 1)) + bins[n - 1],
        bins_total(bins.take(n)) <= bins_total(bins),
    decreases bins.len() - n,
{
    assert(bins.take(n).drop_last() =~= bins.take(n - 1));
    if n < bins.len() {
        lemma_total_prefix(bins, n + 1);
    } else {
        assert(bins.take(n) =~= bins);
    }
}

/// The counts with one of them replaced.
fn update_count(counts: [u64; BINS], bin: usize, value: u64) -> (r: [u64; BINS])
    requires
        bin < BINS,
    ensures
        r@ == counts@.update(bin as int, value),
{
    let mut r = counts;
    r[bin] = value;
    r
}

} // verus!
