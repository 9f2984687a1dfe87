//! The 46-bit linear congruential generator `x' = a * x mod 2^46`.
//!
//! States and multipliers are odd integers in the open interval `(0, 2^46)`.
//! A state `x` stands for the uniform deviate `x / 2^46`, which therefore lies
//! strictly between 0 and 1. The product `a * x` needs up to 92 bits, so one
//! step splits both factors at bit 23 and folds the partial products back
//! under the modulus without ever leaving 64 bits.

use vstd::prelude::*;
use vstd::arithmetic::div_mod::{
    lemma_fundamental_div_mod, lemma_mod_mod, lemma_mod_multiples_vanish, lemma_mul_mod_noop,
    lemma_mul_mod_noop_general, lemma_small_mod,
};
use vstd::arithmetic::mul::lemma_mul_is_associative;
use vstd::arithmetic::power::{lemma_pow0, pow};

verus! {

/// The modulus of the generator, `2^46`.
pub const MODULUS: u64 = 70368744177664;

/// The point at which a factor is split into a high and a low part, `2^23`.
pub const SPLIT: u64 = 8388608;

/// A generator state or a multiplier: an odd integer in `(0, 2^46)`.
pub open spec fn valid_state(x: int) -> bool {
    0 < x < MODULUS && x % 2 == 1
}

/// The state that follows `x` under the multiplier `a`.
pub open spec fn lcg_step(x: int, a: int) -> int {
    (a * x) % (MODULUS as int)
}

/// The state reached from `x` by `n` successive steps under the multiplier `a`.
pub open spec fn lcg_nth(x: int, a: int, n: nat) -> int
    decreases n,
{
    if n == 0 {
        x
    } else {
        lcg_step(lcg_nth(x, a, (n - 1) as nat), a)
    }
}

/// The product of two odd numbers, reduced modulo `2^46`, is again an odd
/// number in `(0, 2^46)`.
pub proof fn lemma_step_valid(x: int, a: int)
    requires
        x % 2 == 1,
        a % 2 == 1,
    ensures
        valid_state(lcg_step(x, a)),
{
    let m = MODULUS as int;
    let p = a * x;
    assert(p % 2 == 1) by {
        lemma_mul_mod_noop(a, x, 2);
    }
    assert((p % m) % 2 == p % 2) by {
        assert(m == 2 * 35184372088832);
        lemma_mod_mod(p, 2, 35184372088832);
    }
}

/// Every state reached from a valid state under a valid multiplier is valid.
pub proof fn lemma_nth_valid(x: int, a: int, n: nat)
    requires
        valid_state(x),
        valid_state(a),
    ensures
        valid_state(lcg_nth(x, a, n)),
    decreases n,
{
    if n > 0 {
        lemma_nth_valid(x, a, (n - 1) as nat);
        lemma_step_valid(lcg_nth(x, a, (n - 1) as nat), a);
    }
}

/// A sequence of `n` states is what `n` single steps give, each taken from
/// the state that the step before it left behind.
pub proof fn lemma_sequence_is_repeated_steps(x: int, a: int, n: nat)
    ensures
        lcg_nth(x, a, 0) == x,
        forall|i: nat|
            i < n ==> #[trigger] lcg_nth(x, a, i + 1) == lcg_step(lcg_nth(x, a, i), a),
{
    assert forall|i: nat| i < n implies #[trigger] lcg_nth(x, a, i + 1) == lcg_step(
        lcg_nth(x, a, i),
        a,
    ) by {
        assert((i + 1 - 1) as nat == i);
    }
}

/// Steps compose: `n` steps followed by `k` steps are `n + k` steps.
pub proof fn lemma_nth_adds(x: int, a: int, n: nat, k: nat)
    ensures
        lcg_nth(lcg_nth(x, a, n), a, k) == lcg_nth(x, a, n + k),
    decreases k,
{
    if k > 0 {
        lemma_nth_adds(x, a, n, (k - 1) as nat);
        assert((n + k - 1) as nat == n + (k - 1) as nat);
    }
}

/// The closed form of the generator: `n` steps from `x` multiply it by
/// `a^n` modulo `2^46`.
pub proof fn lemma_nth_is_power(x: int, a: int, n: nat)
    requires
        0 <= x < MODULUS,
    ensures
        lcg_nth(x, a, n) == (x * pow(a, n)) % (MODULUS as int),
    decreases n,
{
    let m = MODULUS as int;
    if n == 0 {
        lemma_pow0(a);
        lemma_small_mod(x as nat, m as nat);
    } else {
        let k = (n - 1) as nat;
        lemma_nth_is_power(x, a, k);
        let q = x * pow(a, k);
        assert(pow(a, n) == a * pow(a, k)) by {
            reveal(pow);
        }
        assert((a * (q % m)) % m == (a * q) % m) by {
            lemma_mul_mod_noop_general(a, q, m);
        }
        assert(a * q == x * pow(a, n)) by {
            lemma_mul_is_associative(x, a, pow(a, k));
            lemma_mul_is_associative(a, x, pow(a, k));
        }
    }
}

/// The fold of the split partial products is congruent to the full product.
proof fn lemma_split_product(a: int, x: int, a1: int, a2: int, x1: int, x2: int, t2: int, z: int)
    requires
        a == SPLIT * a1 + a2,
        x == SPLIT * x1 + x2,
        a1 * x2 + a2 * x1 == SPLIT * t2 + z,
    ensures
        (a * x) % (MODULUS as int) == (SPLIT * z + a2 * x2) % (MODULUS as int),
{
    let h = SPLIT as int;
    let m = MODULUS as int;
    let t3 = h * z + a2 * x2;
    assert(h * h == m);
    let cross = a1 * x2 + a2 * x1;
    assert(a * x == (h * a1) * (h * x1) + (h * a1) * x2 + a2 * (h * x1) + a2 * x2)
        by (nonlinear_arith)
        requires
            a == h * a1 + a2,
            x == h * x1 + x2,
    ;
    assert((h * a1) * (h * x1) == (h * h) * (a1 * x1)) by (nonlinear_arith);
    assert((h * a1) * x2 + a2 * (h * x1) == h * cross) by (nonlinear_arith)
        requires
            cross == a1 * x2 + a2 * x1,
    ;
    assert(h * cross == (h * h) * t2 + h * z) by (nonlinear_arith)
        requires
            cross == h * t2 + z,
    ;
    assert(m * (a1 * x1) + m * t2 == m * (a1 * x1 + t2)) by (nonlinear_arith);
    assert(a * x == m * (a1 * x1 + t2) + t3);
    lemma_mod_multiples_vanish(a1 * x1 + t2, t3, m);
}

/// Whether `x` can serve as a state or as a multiplier of the generator.
pub fn is_valid_state(x: u64) -> (valid: bool)
    ensures
        valid == valid_state(x as int),
{
    0 < x && x < MODULUS && x % 2 == 1
}

/// Advances the state `x` by one step under the multiplier `a` and returns the
/// new state, which is the numerator of the uniform deviate `x / 2^46`.
pub fn randlc(x: &mut u64, a: &u64) -> (r: u64)
    requires
        valid_state(*old(x) as int),
        valid_state(*a as int),
    ensures
        *final(x) == lcg_step(*old(x) as int, *a as int),
        r == *final(x),
        valid_state(r as int),
{
    let a: u64 = *a;
    // a = 2^23 * a1 + a2
    let a1: u64 = a / SPLIT;
    let a2: u64 = a - SPLIT * a1;

    // x = 2^23 * x1 + x2
    let x1: u64 = *x / SPLIT;
    let x2: u64 = *x - SPLIT * x1;

    proof {
        lemma_fundamental_div_mod(a as int, SPLIT as int);
        lemma_fundamental_div_mod(*x as int, SPLIT as int);
        assert(a1 < SPLIT && a2 < SPLIT && x1 < SPLIT && x2 < SPLIT);
        assert(a1 * x2 <= 8388607 * 8388607) by (nonlinear_arith)
            requires
                a1 <= 8388607,
                x2 <= 8388607,
        ;
        assert(a2 * x1 <= 8388607 * 8388607) by (nonlinear_arith)
            requires
                a2 <= 8388607,
                x1 <= 8388607,
        ;
        assert(a2 * x2 <= 8388607 * 8388607) by (nonlinear_arith)
            requires
                a2 <= 8388607,
                x2 <= 8388607,
        ;
    }

    // z = a1 * x2 + a2 * x1 (mod 2^23)
    let t1: u64 = a1 * x2 + a2 * x1;
    let t2: u64 = t1 / SPLIT;
    let z: u64 = t1 - SPLIT * t2;

    proof {
        lemma_fundamental_div_mod(t1 as int, SPLIT as int);
        assert(z < SPLIT);
    }

    // x = 2^23 * z + a2 * x2 (mod 2^46)
    let t3: u64 = SPLIT * z + a2 * x2;
    let t4: u64 = t3 / MODULUS;
    let next: u64 = t3 - MODULUS * t4;

    proof {
        lemma_fundamental_div_mod(t3 as int, MODULUS as int);
        lemma_split_product(
            a as int,
            *x as int,
            a1 as int,
            a2 as int,
            x1 as int,
            x2 as int,
            t2 as int,
            z as int,
        );
        lemma_step_valid(*x as int, a as int);
    }

    *x = next;
    next
}

/// Advances the state `x` by `n` steps under the multiplier `a` and writes the
/// `n` states it visits into the first `n` slots of `y`, in order. Slots
/// beyond the first `n` keep their contents.
pub fn nrandlc(n: &usize, x: &mut u64, a: &u64, y: &mut [u64])
    requires
        valid_state(*old(x) as int),
        valid_state(*a as int),
        *n <= old(y)@.len(),
    ensures
        *final(x) == lcg_nth(*old(x) as int, *a as int, *n as nat),
        valid_state(*final(x) as int),
        final(y)@.len() == old(y)@.len(),
        forall|i: int|
            0 <= i < *n ==> final(y)@[i] == lcg_nth(*old(x) as int, *a as int, (i + 1) as nat),
        forall|i: int| *n <= i < old(y)@.len() ==> final(y)@[i] == old(y)@[i],
{
    let mut i: usize = 0;
    while i < *n
        invariant
            i <= *n <= y@.len(),
            y@.len() == old(y)@.len(),
            valid_state(*a as int),
            valid_state(*x as int),
            *x == lcg_nth(*old(x) as int, *a as int, i as nat),
            forall|j: int|
                0 <= j < i ==> y@[j] == lcg_nth(*old(x) as int, *a as int, (j + 1) as nat),
            forall|j: int| i <= j < y@.len() ==> y@[j] == old(y)@[j],
        decreases *n - i,
    {
        let u = randlc(x, a);
        y[i] = u;
        i += 1;
    }
}

} // verus!
