//! What the report of a run states: the size of the problem and how the
//! verification ended.
//!
//! The size depends on the kernel. The integer sort reports the product of
//! its first two dimensions; the kernel of this library, whose name is `EP`,
//! reports two to the power of its first dimension; any other kernel with one
//! dimension reports that dimension; and a kernel with a grid reports the
//! grid.

use vstd::prelude::*;
use vstd::arithmetic::power2::{lemma_pow2_strictly_increases, lemma_pow2_unfold, pow2};
use crate::verify::Verification;

verus! {

/// The size of a problem, as the report states it.
#[derive(Clone, Copy, Debug, PartialEq, Eq, Structural)]
pub enum Size {
    /// A number of items.
    Count(i128),
    /// A grid of three dimensions.
    Grid(i64, i64, i64),
}

/// Whether `name` is the name of the integer sort, `IS`.
pub open spec fn is_integer_sort(name: Seq<char>) -> bool {
    name =~= seq!['I', 'S']
}

/// Whether `name` is the name of the embarrassingly parallel kernel, `EP`.
pub open spec fn is_embarrassingly_parallel(name: Seq<char>) -> bool {
    name =~= seq!['E', 'P']
}

/// One shifted left by `k` places in a signed 128-bit number: `2^k`, except
/// that the sign bit alone is the least number.
pub open spec fn one_shifted(k: int) -> i128 {
    if k == 127 {
        i128::MIN
    } else {
        pow2(k as nat) as i128
    }
}

/// The size that the report states for the kernel `name` with the dimensions
/// `n1`, `n2` and `n3`.
pub open spec fn size_of(name: Seq<char>, n1: i64, n2: i64, n3: i64) -> Size {
    if is_integer_sort(name) && n3 == 0 {
        Size::Count(
            (n1 * (if n2 != 0 {
                n2
            } else {
                1
            })) as i128,
        )
    } else if n2 == 0 && n3 == 0 {
        if is_embarrassingly_parallel(name) {
            Size::Count(one_shifted(n1 as int))
        } else {
            Size::Count(n1 as i128)
        }
    } else {
        Size::Grid(n1, n2, n3)
    }
}

/// Whether the size can be computed: the product of the integer sort must
/// fit 64 bits, and the exponent of the embarrassingly parallel kernel must
/// be a shift within 128 bits.
pub open spec fn size_defined(name: Seq<char>, n1: i64, n2: i64, n3: i64) -> bool {
    if is_integer_sort(name) && n3 == 0 {
        i64::MIN <= n1 * n2 <= i64::MAX
    } else if n2 == 0 && n3 == 0 && is_embarrassingly_parallel(name) {
        0 <= n1 < 128
    } else {
        true
    }
}

/// Whether `name` consists of the two given characters.
fn is_pair(name: &str, first: char, second: char) -> (r: bool)
    ensures
        r == (name@ =~= seq![first, second]),
{
    if name.unicode_len() != 2 {
        return false;
    }
    name.get_char(0) == first && name.get_char(1) == second
}

/// `2^k` for an exponent below 128.
fn two_to_the(k: u32) -> (r: u128)
    requires
        k < 128,
    ensures
        r == pow2(k as nat),
{
    let mut r: u128 = 1;
    let mut i: u32 = 0;
    proof {
        vstd::arithmetic::power2::lemma2_to64();
        vstd::arithmetic::power2::lemma2_to64_rest();
        lemma_pow2_bound(k as nat);
    }
    while i < k
        invariant
            i <= k < 128,
            r == pow2(i as nat),
            pow2(k as nat) <= 0x80000000000000000000000000000000,
        decreases k - i,
    {
        proof {
            lemma_pow2_unfold((i + 1) as nat);
            if i + 1 < k {
                lemma_pow2_strictly_increases((i + 1) as nat, k as nat);
            }
        }
        r = r * 2;
        i += 1;
    }
    r
}

/// A power of two with an exponent below 128 fits 128 bits.
proof fn lemma_pow2_bound(k: nat)
    requires
        k < 128,
    ensures
        pow2(k) <= 0x80000000000000000000000000000000,
        k < 127 ==> pow2(k) <= 0x40000000000000000000000000000000,
{
    vstd::arithmetic::power2::lemma2_to64();
    vstd::arithmetic::power2::lemma2_to64_rest();
    vstd::arithmetic::power2::lemma_pow2_adds(63, 63);
    assert(pow2(126) == 0x40000000000000000000000000000000);
    lemma_pow2_unfold(127);
    if k < 126 {
        lemma_pow2_strictly_increases(k, 126);
    }
}

/// The size that the report states for the kernel `name` with the dimensions
/// `n1`, `n2` and `n3`.
pub fn problem_size(name: &str, n1: i64, n2: i64, n3: i64) -> (size: Size)
    requires
        size_defined(name@, n1, n2, n3),
    ensures
        size == size_of(name@, n1, n2, n3),
{
    if is_pair(name, 'I', 'S') && n3 == 0 {
        let factor: i64 = if n2 != 0 {
            n2
        } else {
            1
        };
        proof {
            assert(n1 * 0 == 0) by (nonlinear_arith);
            assert(n1 * 1 == n1) by (nonlinear_arith);
        }
        Size::Count((n1 * factor) as i128)
    } else if n2 == 0 && n3 == 0 {
        if is_pair(name, 'E', 'P') {
            if n1 == 127 {
                Size::Count(i128::MIN)
            } else {
                proof {
                    lemma_pow2_bound(n1 as nat);
                }
                Size::Count(two_to_the(n1 as u32) as i128)
            }
        } else {
            Size::Count(n1 as i128)
        }
    } else {
        Size::Grid(n1, n2, n3)
    }
}

/// The size that the report states, or `None` where it cannot be computed.
pub fn checked_problem_size(name: &str, n1: i64, n2: i64, n3: i64) -> (size: Option<Size>)
    ensures
        size == (if size_defined(name@, n1, n2, n3) {
            Some(size_of(name@, n1, n2, n3))
        } else {
            None
        }),
{
    if is_pair(name, 'I', 'S') && n3 == 0 {
        match n1.checked_mul(n2) {
            Some(_) => Some(problem_size(name, n1, n2, n3)),
            None => None,
        }
    } else if n2 == 0 && n3 == 0 && is_pair(name, 'E', 'P') {
        if 0 <= n1 && n1 < 128 {
            Some(problem_size(name, n1, n2, n3))
        } else {
            None
        }
    } else {
        Some(problem_size(name, n1, n2, n3))
    }
}

/// The words in which the report states how the verification ended.
pub fn verification_label(outcome: Verification) -> (label: &'static str)
    ensures
        label@ == (match outcome {
            Verification::Successful => "SUCCESSFUL"@,
            Verification::Unsuccessful => "UNSUCCESSFUL"@,
            Verification::NotPerformed => "NOT PERFORMED"@,
        }),
{
    match outcome {
        Verification::Successful => "SUCCESSFUL",
        Verification::Unsuccessful => "UNSUCCESSFUL",
        Verification::NotPerformed => "NOT PERFORMED",
    }
}

} // verus!
