//! The split of the batch range `[0, total)` into one contiguous range for
//! each worker. Where the total is no multiple of the number of workers, the
//! first `total mod workers` workers take one batch more than the others, so
//! that every batch belongs to exactly one worker.

use vstd::prelude::*;
use vstd::arithmetic::div_mod::lemma_fundamental_div_mod;

verus! {

/// A contiguous range of batch indices, `start` included and `end` excluded.
#[derive(Clone, Copy, Debug, PartialEq, Eq, Structural)]
pub struct BatchRange {
    pub start: u64,
    pub end: u64,
}

impl BatchRange {
    /// The number of batches in the range.
    pub fn len(&self) -> (n: u64)
        requires
            self.start <= self.end,
        ensures
            n == self.end - self.start,
    {
        self.end - self.start
    }
}

/// The first batch of worker `w`: every worker before it has taken
/// `total / workers` batches, and each of the first `total mod workers` of
/// them one more.
pub open spec fn range_start(total: nat, workers: nat, w: nat) -> nat
    recommends
        workers > 0,
{
    let extra = if w <= total % workers {
        w
    } else {
        total % workers
    };
    w * (total / workers) + extra
}

/// The range of worker `w`: from its first batch to the first batch of the
/// worker after it.
pub open spec fn range_of(total: nat, workers: nat, w: nat) -> BatchRange
    recommends
        workers > 0,
{
    BatchRange {
        start: range_start(total, workers, w) as u64,
        end: range_start(total, workers, w + 1) as u64,
    }
}

/// The worker to whose range the batch `b` belongs.
pub open spec fn owner(total: nat, workers: nat, b: nat) -> nat
    recommends
        workers > 0,
        b < total,
{
    let base = total / workers;
    let extra = total % workers;
    if b < extra * (base + 1) {
        b / (base + 1)
    } else {
        (extra + (b - extra * (base + 1)) / (base as int)) as nat
    }
}

/// The ranges begin at batch 0 and end at batch `total`.
pub proof fn lemma_range_ends(total: nat, workers: nat)
    requires
        workers > 0,
    ensures
        range_start(total, workers, 0) == 0,
        range_start(total, workers, workers) == total,
{
    lemma_fundamental_div_mod(total as int, workers as int);
    assert(0 * (total / workers) == 0) by (nonlinear_arith);
}

/// Each range holds `total / workers` batches, or one more for the first
/// `total mod workers` workers; so the ranges follow one another in order.
pub proof fn lemma_range_size(total: nat, workers: nat, w: nat)
    requires
        workers > 0,
    ensures
        range_start(total, workers, w + 1) - range_start(total, workers, w) == total / workers + (
        if w < total % workers {
            1nat
        } else {
            0nat
        }),
        range_start(total, workers, w) <= range_start(total, workers, w + 1),
{
    let base = total / workers;
    assert((w + 1) * base == w * base + base) by (nonlinear_arith);
}

/// The starts of the ranges never decrease with the worker's number.
pub proof fn lemma_range_monotone(total: nat, workers: nat, v: nat, w: nat)
    requires
        workers > 0,
        v <= w,
    ensures
        range_start(total, workers, v) <= range_start(total, workers, w),
    decreases w - v,
{
    if v < w {
        lemma_range_monotone(total, workers, v, (w - 1) as nat);
        lemma_range_size(total, workers, (w - 1) as nat);
    }
}

/// No range reaches beyond `total`.
pub proof fn lemma_range_bounded(total: nat, workers: nat, w: nat)
    requires
        workers > 0,
        w <= workers,
    ensures
        range_start(total, workers, w) <= total,
{
    lemma_range_monotone(total, workers, w, workers);
    lemma_range_ends(total, workers);
}

/// No gap and no overlap: every batch below `total` lies in the range of
/// exactly one worker, its owner.
pub proof fn lemma_exactly_one_owner(total: nat, workers: nat, b: nat)
    requires
        workers > 0,
        b < total,
    ensures
        owner(total, workers, b) < workers,
        range_start(total, workers, owner(total, workers, b)) <= b < range_start(
            total,
            workers,
            owner(total, workers, b) + 1,
        ),
        forall|w: nat|
            w < workers && #[trigger] range_start(total, workers, w) <= b && b < range_start(
                total,
                workers,
                w + 1,
            ) ==> w == owner(total, workers, b),
{
    let base = total / workers;
    let extra = total % workers;
    let o = owner(total, workers, b);
    lemma_fundamental_div_mod(total as int, workers as int);
    assert(total == workers * base + extra);
    assert(workers * base == extra * base + (workers - extra) * base) by (nonlinear_arith);
    assert(extra * (base + 1) == extra * base + extra) by (nonlinear_arith);
    if b < extra * (base + 1) {
        lemma_fundamental_div_mod(b as int, (base + 1) as int);
        assert(o < extra) by (nonlinear_arith)
            requires
                b < extra * (base + 1),
                b == (base + 1) * o + b % ((base + 1) as nat),
                0 <= b % ((base + 1) as nat),
        ;
        assert(o * (base + 1) == o * base + o) by (nonlinear_arith);
        assert((o + 1) * (base + 1) == (o + 1) * base + (o + 1)) by (nonlinear_arith);
        assert((base + 1) * o == o * (base + 1)) by (nonlinear_arith);
        assert((o + 1) * (base + 1) == o * (base + 1) + (base + 1)) by (nonlinear_arith);
    } else {
        let rest = (b - extra * (base + 1)) as nat;
        assert(base > 0) by (nonlinear_arith)
            requires
                b < workers * base + extra,
                b >= extra * base + extra,
                workers >= extra,
                workers * base == extra * base + (workers - extra) * base,
        ;
        lemma_fundamental_div_mod(rest as int, base as int);
        let q = rest / base;
        assert(o == extra + q);
        assert(q < workers - extra) by (nonlinear_arith)
            requires
                rest < (workers - extra) * base,
                rest == base * q + rest % base,
                0 <= rest % base,
                base > 0,
        ;
        assert(o * base == extra * base + q * base) by (nonlinear_arith)
            requires
                o == extra + q,
        ;
        assert((o + 1) * base == o * base + base) by (nonlinear_arith);
        assert(base * q == q * base) by (nonlinear_arith);
    }
    assert(range_start(total, workers, o) <= b < range_start(total, workers, o + 1));
    assert forall|w: nat|
        w < workers && #[trigger] range_start(total, workers, w) <= b && b < range_start(
            total,
            workers,
            w + 1,
        ) implies w == o by {
        if w < o {
            lemma_range_monotone(total, workers, w + 1, o);
        } else if w > o {
            lemma_range_monotone(total, workers, o + 1, w);
        }
    }
}

/// The range of batches that worker `w` of `workers` works through, out of
/// `total` batches.
pub fn worker_range(total: u64, workers: usize, w: usize) -> (r: BatchRange)
    requires
        w < workers,
    ensures
        r == range_of(total as nat, workers as nat, w as nat),
        r.start == range_start(total as nat, workers as nat, w as nat),
        r.end == range_start(total as nat, workers as nat, (w + 1) as nat),
        r.start <= r.end <= total,
{
    let count: u64 = workers as u64;
    let base: u64 = total / count;
    let extra: u64 = total % count;
    let index: u64 = w as u64;
    proof {
        lemma_range_size(total as nat, workers as nat, w as nat);
        lemma_range_bounded(total as nat, workers as nat, (w + 1) as nat);
        assert(index * base <= range_start(total as nat, workers as nat, w as nat));
    }
    let start: u64 = index * base + if index <= extra {
        index
    } else {
        extra
    };
    let size: u64 = if index < extra {
        base + 1
    } else {
        base
    };
    BatchRange { start, end: start + size }
}

/// The ranges of all workers, in the order of the workers.
pub fn worker_ranges(total: u64, workers: usize) -> (ranges: Vec<BatchRange>)
    requires
        workers > 0,
    ensures
        ranges.len() == workers,
        forall|w: int|
            0 <= w < workers ==> #[trigger] ranges[w] == range_of(
                total as nat,
                workers as nat,
                w as nat,
            ),
{
    let mut ranges: Vec<BatchRange> = Vec::new();
    let mut w: usize = 0;
    while w < workers
        invariant
            w <= workers,
            ranges.len() == w,
            forall|v: int|
                0 <= v < w ==> #[trigger] ranges[v] == range_of(
                    total as nat,
                    workers as nat,
                    v as nat,
                ),
        decreases workers - w,
    {
        ranges.push(worker_range(total, workers, w));
        w += 1;
    }
    ranges
}

} // verus!
