//! The stream of uniform deviates cut into batches.
//!
//! Batch `k` of a stream holds the `2 * batch_size` states that follow the
//! first `2 * batch_size * k` states of the generator, two for each pair. A
//! batch is reached by skip-ahead, so what it holds depends on the stream and
//! on `k` alone: not on the worker that generates it, nor on what was
//! generated before.

use vstd::prelude::*;
use crate::lcg::{lcg_nth, lemma_nth_adds, nrandlc, valid_state};
use crate::partition::BatchRange;
use crate::skip::{batch_multiplier, lemma_skip_ahead, pow_mod, seed_for_batch};

verus! {

/// The deviate at position `i` of batch `k`: the state that
/// `2 * batch_size * k + i + 1` steps under `a` reach from `seed`.
pub open spec fn batch_value(seed: int, a: int, batch_size: nat, k: nat, i: nat) -> int {
    lcg_nth(seed, a, 2 * batch_size * k + i + 1)
}

/// A stream of uniform deviates: a global seed, the multiplier of the
/// generator and the number of pairs in a batch.
#[derive(Clone, Copy, Debug)]
pub struct Stream {
    seed: u64,
    multiplier: u64,
    jump: u64,
    batch_size: usize,
}

impl Stream {
    #[verifier::type_invariant]
    spec fn well_formed(self) -> bool {
        &&& valid_state(self.seed as int)
        &&& valid_state(self.multiplier as int)
        &&& 2 * self.batch_size <= usize::MAX
        &&& self.jump == pow_mod(self.multiplier as int, (2 * self.batch_size) as nat)
        &&& valid_state(self.jump as int)
    }

    /// The global seed.
    pub closed spec fn seed(self) -> int {
        self.seed as int
    }

    /// The multiplier of the generator.
    pub closed spec fn multiplier(self) -> int {
        self.multiplier as int
    }

    /// The number of pairs in a batch.
    pub closed spec fn batch_size(self) -> nat {
        self.batch_size as nat
    }

    /// The deviate at position `i` of batch `k`.
    pub open spec fn value(self, k: nat, i: nat) -> int {
        batch_value(self.seed(), self.multiplier(), self.batch_size(), k, i)
    }

    /// The state from which batch `k` starts.
    pub open spec fn start_of(self, k: nat) -> int {
        lcg_nth(self.seed(), self.multiplier(), 2 * self.batch_size() * k)
    }

    /// The stream that starts from `seed` under `multiplier`, in batches of
    /// `batch_size` pairs.
    pub fn new(seed: u64, multiplier: u64, batch_size: usize) -> (s: Stream)
        requires
            valid_state(seed as int),
            valid_state(multiplier as int),
            2 * batch_size <= usize::MAX,
        ensures
            s.seed() == seed,
            s.multiplier() == multiplier,
            s.batch_size() == batch_size,
    {
        let jump = batch_multiplier(multiplier, batch_size as u64);
        Stream { seed, multiplier, jump, batch_size }
    }

    /// The multiplier that advances the generator by one whole batch:
    /// `multiplier^(2 * batch_size) mod 2^46`.
    pub fn batch_multiplier(&self) -> (an: u64)
        ensures
            an == pow_mod(self.multiplier(), 2 * self.batch_size()),
    {
        proof {
            use_type_invariant(self);
        }
        self.jump
    }

    /// The number of deviates in a batch, two for each pair.
    pub fn batch_len(&self) -> (n: usize)
        ensures
            n == 2 * self.batch_size(),
    {
        proof {
            use_type_invariant(self);
        }
        2 * self.batch_size
    }

    /// The state from which batch `k` starts, by skip-ahead.
    pub fn seed_of(&self, k: u64) -> (state: u64)
        ensures
            state == self.start_of(k as nat),
            valid_state(state as int),
    {
        proof {
            use_type_invariant(self);
            lemma_skip_ahead(
                self.seed as int,
                self.multiplier as int,
                self.batch_size as nat,
                k as nat,
            );
        }
        seed_for_batch(self.seed, self.jump, k)
    }

    /// The deviates of batch `k`, in order.
    pub fn batch(&self, k: u64) -> (values: Vec<u64>)
        ensures
            values.len() == 2 * self.batch_size(),
            forall|i: int| 0 <= i < values.len() ==> values[i] == self.value(k as nat, i as nat),
    {
        proof {
            use_type_invariant(self);
        }
        let n: usize = 2 * self.batch_size;
        let mut state = self.seed_of(k);
        let mut values: Vec<u64> = zeros(n);
        nrandlc(&n, &mut state, &self.multiplier, &mut values);
        proof {
            assert forall|i: int| 0 <= i < values.len() implies values[i] == self.value(
                k as nat,
                i as nat,
            ) by {
                lemma_nth_adds(
                    self.seed(),
                    self.multiplier(),
                    2 * self.batch_size() * (k as nat),
                    (i + 1) as nat,
                );
            }
        }
        values
    }

    /// A worker that generates the batches of `range` one after the other.
    pub fn worker(&self, range: BatchRange) -> (w: Worker)
        requires
            range.start <= range.end,
        ensures
            w.stream() == *self,
            w.next() == range.start,
            w.end() == range.end,
    {
        proof {
            use_type_invariant(self);
        }
        let state = self.seed_of(range.start);
        Worker { stream: *self, next: range.start, end: range.end, state }
    }
}

/// A worker on its way through a range of batches. It finds the seed of its
/// first batch by skip-ahead and from then on lets each batch start where the
/// one before it ended.
#[derive(Debug)]
pub struct Worker {
    stream: Stream,
    next: u64,
    end: u64,
    state: u64,
}

impl Worker {
    #[verifier::type_invariant]
    spec fn well_formed(self) -> bool {
        &&& self.stream.well_formed()
        &&& self.next <= self.end
        &&& self.state == self.stream.start_of(self.next as nat)
        &&& valid_state(self.state as int)
    }

    /// The stream that the worker generates from.
    pub closed spec fn stream(self) -> Stream {
        self.stream
    }

    /// The batch that the worker generates next.
    pub closed spec fn next(self) -> int {
        self.next as int
    }

    /// The end of the worker's range: the first batch that is not its own.
    pub closed spec fn end(self) -> int {
        self.end as int
    }

    /// The number of batches that the worker has still to generate.
    pub fn remaining(&self) -> (n: u64)
        ensures
            n == self.end() - self.next(),
    {
        proof {
            use_type_invariant(self);
        }
        self.end - self.next
    }

    /// Generates the worker's next batch into `buffer` and returns its number,
    /// or returns `None` and leaves `buffer` alone when the range is done. The
    /// buffer is resized to the length of a batch where it has another.
    pub fn next_batch(&mut self, buffer: &mut Vec<u64>) -> (batch: Option<u64>)
        ensures
            final(self).stream() == old(self).stream(),
            final(self).end() == old(self).end(),
            old(self).next() == old(self).end() ==> ({
                &&& batch.is_none()
                &&& final(self).next() == old(self).next()
                &&& final(buffer)@ == old(buffer)@
            }),
            old(self).next() < old(self).end() ==> ({
                &&& batch == Some(old(self).next() as u64)
                &&& final(self).next() == old(self).next() + 1
                &&& final(buffer).len() == 2 * old(self).stream().batch_size()
                &&& forall|i: int|
                    0 <= i < final(buffer).len() ==> final(buffer)[i] == old(self).stream().value(
                        old(self).next() as nat,
                        i as nat,
                    )
            }),
    {
        proof {
            use_type_invariant(&*self);
        }
        if self.next == self.end {
            return None;
        }
        let k: u64 = self.next;
        let n: usize = 2 * self.stream.batch_size;
        if buffer.len() != n {
            *buffer = zeros(n);
        }
        let mut state: u64 = self.state;
        nrandlc(&n, &mut state, &self.stream.multiplier, buffer);
        proof {
            let s = self.stream;
            let from = 2 * s.batch_size() * (k as nat);
            assert forall|i: int| 0 <= i < buffer.len() implies buffer[i] == s.value(
                k as nat,
                i as nat,
            ) by {
                lemma_nth_adds(s.seed(), s.multiplier(), from, (i + 1) as nat);
            }
            lemma_nth_adds(s.seed(), s.multiplier(), from, n as nat);
            assert(from + n == 2 * s.batch_size() * ((k + 1) as nat)) by (nonlinear_arith)
                requires
                    from == 2 * s.batch_size() * (k as nat),
                    n == 2 * s.batch_size(),
            ;
        }
        *self = Worker { stream: self.stream, next: k + 1, end: self.end, state };
        Some(k)
    }
}

/// A buffer of `n` zeros.
fn zeros(n: usize) -> (v: Vec<u64>)
    ensures
        v.len() == n,
{
    let mut v: Vec<u64> = Vec::new();
    let mut i: usize = 0;
    while i < n
        invariant
            i <= n,
            v.len() == i,
        decreases n - i,
    {
        v.push(0);
        i += 1;
    }
    v
}

} // verus!
