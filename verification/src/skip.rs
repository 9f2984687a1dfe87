//! Skip-ahead: the state of the generator after any number of steps, found by
//! modular exponentiation instead of by taking the steps.

use vstd::prelude::*;
use vstd::arithmetic::div_mod::{lemma_mul_mod_noop_general, lemma_small_mod};
use vstd::arithmetic::mul::lemma_mul_is_associative;
use vstd::arithmetic::power::{
    lemma_pow0, lemma_pow1, lemma_pow_adds, lemma_pow_mod_noop, lemma_pow_multiplies, pow,
};
use crate::lcg::{lcg_nth, lemma_nth_adds, lemma_nth_is_power, randlc, valid_state, MODULUS};

verus! {

/// `a^e mod 2^46`.
pub open spec fn pow_mod(a: int, e: nat) -> int {
    pow(a, e) % (MODULUS as int)
}

/// The state from which batch number `k` starts: the global seed advanced by
/// `k` steps under the batch multiplier `an`.
pub open spec fn batch_seed(seed: int, an: int, k: nat) -> int {
    (seed * pow(an, k)) % (MODULUS as int)
}

/// One round of square-and-multiply keeps `acc * base^k` fixed modulo `2^46`:
/// with `k == 2 * half + bit`, the factor `base^bit` moves into the
/// accumulator and the base is squared.
proof fn lemma_square_and_multiply(acc: int, base: int, k: nat, half: nat, bit: nat)
    requires
        k == 2 * half + bit,
        bit <= 1,
    ensures
        (acc * pow(base, k)) % (MODULUS as int) == (((acc * pow(base, bit)) % (MODULUS as int))
            * pow((base * base) % (MODULUS as int), half)) % (MODULUS as int),
{
    let m = MODULUS as int;
    let sq = base * base;
    let head = acc * pow(base, bit);
    assert(pow(sq, half) == pow(base, 2 * half)) by {
        assert(sq == pow(base, 2)) by {
            reveal_with_fuel(pow, 3);
        }
        lemma_pow_multiplies(base, 2, half);
    }
    assert(pow(base, k) == pow(base, bit) * pow(sq, half)) by {
        lemma_pow_adds(base, bit, 2 * half);
    }
    assert(acc * pow(base, k) == head * pow(sq, half)) by {
        lemma_mul_is_associative(acc, pow(base, bit), pow(sq, half));
    }
    assert(pow(sq % m, half) % m == pow(sq, half) % m) by {
        lemma_pow_mod_noop(sq, half, m);
    }
    assert(((head % m) * pow(sq % m, half)) % m == (head * pow(sq, half)) % m) by {
        lemma_mul_mod_noop_general(head, pow(sq % m, half), m);
        lemma_mul_mod_noop_general(head, pow(sq, half), m);
    }
}

/// `a^e mod 2^46`, by repeated squaring over the bits of `e`, each
/// multiplication being one step of the generator.
pub fn power(a: u64, e: u64) -> (r: u64)
    requires
        valid_state(a as int),
    ensures
        r == pow_mod(a as int, e as nat),
        valid_state(r as int),
{
    let ghost m = MODULUS as int;
    let mut acc: u64 = 1;
    let mut base: u64 = a;
    let mut k: u64 = e;
    proof {
        assert(1 * pow(a as int, e as nat) == pow(a as int, e as nat));
    }
    while k > 0
        invariant
            valid_state(acc as int),
            valid_state(base as int),
            m == MODULUS,
            (acc * pow(base as int, k as nat)) % m == pow_mod(a as int, e as nat),
        decreases k,
    {
        let half: u64 = k / 2;
        let ghost bit: nat = (k - 2 * half) as nat;
        let ghost acc0 = acc as int;
        let ghost base0 = base as int;
        if 2 * half != k {
            randlc(&mut acc, &base);
            proof {
                lemma_pow1(base0);
                assert(acc == (acc0 * pow(base0, bit)) % m) by (nonlinear_arith)
                    requires
                        acc == (base0 * acc0) % m,
                        pow(base0, bit) == base0,
                ;
            }
        } else {
            proof {
                lemma_pow0(base0);
                assert(acc0 * pow(base0, bit) == acc0) by (nonlinear_arith)
                    requires
                        pow(base0, bit) == 1,
                ;
                lemma_small_mod(acc0 as nat, m as nat);
            }
        }
        proof {
            lemma_square_and_multiply(acc0, base0, k as nat, half as nat, bit);
        }
        if half > 0 {
            let b: u64 = base;
            randlc(&mut base, &b);
        } else {
            proof {
                lemma_pow0(base0);
                lemma_pow0((base0 * base0) % m);
            }
        }
        k = half;
    }
    proof {
        lemma_pow0(base as int);
        assert(acc * pow(base as int, 0) == acc) by (nonlinear_arith)
            requires
                pow(base as int, 0) == 1,
        ;
        lemma_small_mod(acc as nat, m as nat);
    }
    acc
}

/// The multiplier that advances the generator by one whole batch of
/// `batch_size` pairs, that is by `2 * batch_size` steps: `a^(2 * batch_size)
/// mod 2^46`.
pub fn batch_multiplier(a: u64, batch_size: u64) -> (an: u64)
    requires
        valid_state(a as int),
        2 * batch_size <= u64::MAX,
    ensures
        an == pow_mod(a as int, (2 * batch_size) as nat),
        valid_state(an as int),
{
    power(a, 2 * batch_size)
}

/// The state from which batch number `batch_index` starts, computed without
/// generating anything that precedes it: the batch multiplier is raised to the
/// power `batch_index` and applied to the global seed in one step.
pub fn seed_for_batch(global_seed: u64, batch_multiplier: u64, batch_index: u64) -> (seed: u64)
    requires
        valid_state(global_seed as int),
        valid_state(batch_multiplier as int),
    ensures
        seed == batch_seed(global_seed as int, batch_multiplier as int, batch_index as nat),
        valid_state(seed as int),
{
    let jump: u64 = power(batch_multiplier, batch_index);
    let mut seed: u64 = global_seed;
    randlc(&mut seed, &jump);
    proof {
        let m = MODULUS as int;
        let p = pow(batch_multiplier as int, batch_index as nat);
        assert(((p % m) * global_seed) % m == (global_seed * p) % m) by {
            lemma_mul_mod_noop_general(p, global_seed as int, m);
            assert(p * global_seed == global_seed * p) by (nonlinear_arith);
        }
    }
    seed
}

/// Skip-ahead agrees with sequential generation: where `an` is the batch
/// multiplier of `a` for batches of `batch_size` pairs, the seed of batch `k`
/// is the state that `2 * batch_size * k` single steps under `a` reach from the
/// global seed, which is the state left behind by generating batches `0` to
/// `k - 1` one after the other.
pub proof fn lemma_skip_ahead(seed: int, a: int, batch_size: nat, k: nat)
    requires
        0 <= seed < MODULUS,
    ensures
        batch_seed(seed, pow_mod(a, 2 * batch_size), k) == lcg_nth(seed, a, 2 * batch_size * k),
{
    let m = MODULUS as int;
    let n = 2 * batch_size;
    let an = pow_mod(a, n);
    assert(pow(an, k) % m == pow(a, n * k) % m) by {
        lemma_pow_mod_noop(pow(a, n), k, m);
        lemma_pow_multiplies(a, n, k);
    }
    assert((seed * pow(an, k)) % m == (seed * pow(a, n * k)) % m) by {
        lemma_mul_mod_noop_general(seed, pow(an, k), m);
        lemma_mul_mod_noop_general(seed, pow(a, n * k), m);
    }
    lemma_nth_is_power(seed, a, n * k);
}

/// The seed of the next batch is what generating the current batch leaves
/// behind: `2 * batch_size` steps from the seed of batch `k` reach the seed of
/// batch `k + 1`.
pub proof fn lemma_next_batch_seed(seed: int, a: int, batch_size: nat, k: nat)
    requires
        0 <= seed < MODULUS,
    ensures
        lcg_nth(batch_seed(seed, pow_mod(a, 2 * batch_size), k), a, 2 * batch_size) == batch_seed(
            seed,
            pow_mod(a, 2 * batch_size),
            k + 1,
        ),
{
    let n = 2 * batch_size;
    lemma_skip_ahead(seed, a, batch_size, k);
    lemma_skip_ahead(seed, a, batch_size, k + 1);
    lemma_nth_adds(seed, a, n * k, n);
    assert(n * k + n == n * (k + 1)) by (nonlinear_arith);
}

} // verus!
