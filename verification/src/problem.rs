//! The size of a run: the problem class, the exponent that it selects, and
//! the numbers of batches and of deviates that follow from it.

use vstd::prelude::*;
use vstd::arithmetic::power2::{lemma_pow2_adds, lemma_pow2_strictly_increases, pow2};
use vstd::bits::lemma_u64_shl_is_mul;
use crate::batch::Stream;

verus! {

/// The multiplier of the generator, `5^13`.
pub const BASE_MULTIPLIER: u64 = 1220703125;

/// The seed from which every run starts.
pub const GLOBAL_SEED: u64 = 271828183;

/// The binary logarithm of the number of pairs in a batch.
pub const BATCH_EXPONENT: u32 = 16;

/// The number of pairs in a batch, `2^16`.
pub const BATCH_SIZE: usize = 65536;

/// The largest exponent for which the number of deviates fits 64 bits.
pub const MAX_EXPONENT: u32 = 62;

/// The exponent that a problem class selects, where the class is known.
pub open spec fn exponent_of_class(class: char) -> Option<u32> {
    if class == 'S' {
        Some(24u32)
    } else if class == 'W' {
        Some(25u32)
    } else if class == 'A' {
        Some(28u32)
    } else if class == 'B' {
        Some(30u32)
    } else if class == 'C' {
        Some(32u32)
    } else if class == 'D' {
        Some(36u32)
    } else if class == 'E' {
        Some(40u32)
    } else {
        None
    }
}

/// Whether a run of `2^exponent` pairs can be cut into whole batches and
/// counted in 64 bits.
pub open spec fn supported(exponent: u32) -> bool {
    BATCH_EXPONENT <= exponent <= MAX_EXPONENT
}

/// The exponent that a problem class selects, or `None` for a letter that
/// names no class.
pub fn class_exponent(class: char) -> (m: Option<u32>)
    ensures
        m == exponent_of_class(class),
{
    if class == 'S' {
        Some(24)
    } else if class == 'W' {
        Some(25)
    } else if class == 'A' {
        Some(28)
    } else if class == 'B' {
        Some(30)
    } else if class == 'C' {
        Some(32)
    } else if class == 'D' {
        Some(36)
    } else if class == 'E' {
        Some(40)
    } else {
        None
    }
}

/// `2^k` for an exponent below 64.
fn two_to_the(k: u32) -> (r: u64)
    requires
        k < 64,
    ensures
        r == pow2(k as nat),
{
    proof {
        vstd::arithmetic::power2::lemma2_to64();
        if k < 63 {
            lemma_pow2_strictly_increases(k as nat, 63);
        }
        assert(pow2(63) == 0x8000000000000000) by {
            vstd::arithmetic::power2::lemma2_to64_rest();
        }
        lemma_u64_shl_is_mul(1, k as u64);
    }
    1u64 << k
}

/// A run of `2^exponent` pairs of deviates, generated in batches of `2^16`
/// pairs.
#[derive(Clone, Copy, Debug)]
pub struct Problem {
    exponent: u32,
}

impl Problem {
    #[verifier::type_invariant]
    spec fn well_formed(self) -> bool {
        supported(self.exponent)
    }

    /// The binary logarithm of the number of pairs.
    pub closed spec fn exponent(self) -> u32 {
        self.exponent
    }

    /// The run of `2^exponent` pairs, where that is supported.
    pub fn new(exponent: u32) -> (p: Option<Problem>)
        ensures
            p.is_some() <==> supported(exponent),
            p.is_some() ==> p.unwrap().exponent() == exponent,
    {
        if BATCH_EXPONENT <= exponent && exponent <= MAX_EXPONENT {
            Some(Problem { exponent })
        } else {
            None
        }
    }

    /// The run that a problem class selects, or `None` for a letter that names
    /// no class.
    pub fn for_class(class: char) -> (p: Option<Problem>)
        ensures
            p.is_some() <==> exponent_of_class(class).is_some(),
            p.is_some() ==> Some(p.unwrap().exponent()) == exponent_of_class(class),
    {
        match class_exponent(class) {
            Some(m) => Problem::new(m),
            None => None,
        }
    }

    /// The binary logarithm of the number of pairs.
    pub fn log2_pairs(&self) -> (m: u32)
        ensures
            m == self.exponent(),
            supported(m),
    {
        proof {
            use_type_invariant(self);
        }
        self.exponent
    }

    /// The number of batches, `2^(exponent - 16)`.
    pub fn total_batches(&self) -> (n: u64)
        ensures
            n == pow2((self.exponent() - BATCH_EXPONENT) as nat),
    {
        proof {
            use_type_invariant(self);
        }
        two_to_the(self.exponent - BATCH_EXPONENT)
    }

    /// The stream that every run draws from: it starts from the global seed
    /// under the base multiplier, in batches of `2^16` pairs.
    pub fn stream(&self) -> (s: Stream)
        ensures
            s.seed() == GLOBAL_SEED,
            s.multiplier() == BASE_MULTIPLIER,
            s.batch_size() == BATCH_SIZE,
    {
        Stream::new(GLOBAL_SEED, BASE_MULTIPLIER, BATCH_SIZE)
    }

    /// The number of deviates that the run generates, two for each pair:
    /// `2^(exponent + 1)`.
    pub fn stream_length(&self) -> (n: u64)
        ensures
            n == pow2((self.exponent() + 1) as nat),
    {
        proof {
            use_type_invariant(self);
        }
        two_to_the(self.exponent + 1)
    }
}

/// The batches make up the whole stream: the batches of `2^16` pairs, two
/// deviates to a pair, hold `2^(exponent + 1)` deviates between them.
pub proof fn lemma_batches_fill_stream(exponent: u32)
    requires
        supported(exponent),
    ensures
        BATCH_SIZE == pow2(BATCH_EXPONENT as nat),
        2 * BATCH_SIZE * pow2((exponent - BATCH_EXPONENT) as nat) == pow2((exponent + 1) as nat),
{
    vstd::arithmetic::power2::lemma2_to64();
    lemma_pow2_adds(17, (exponent - BATCH_EXPONENT) as nat);
}

} // verus!
