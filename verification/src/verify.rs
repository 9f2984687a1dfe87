//! The verification of the two sums against their reference values.
//!
//! A sum arrives as the bit pattern of a double-precision number, which
//! stands for an exact binary fraction; a reference value is an exact decimal
//! fraction. The sum passes where its relative error is at most `10^-8`, and
//! that is decided in whole numbers, without rounding.

use vstd::prelude::*;
use vstd::arithmetic::mul::{lemma_mul_inequality, lemma_mul_strictly_positive};
use vstd::arithmetic::power::{lemma_pow_increases, lemma_pow_positive, pow};
use vstd::arithmetic::power2::{
    lemma_pow2_pos, lemma_pow2_strictly_increases, lemma_pow2_unfold, pow2,
};

verus! {

/// The reciprocal of the tolerance: a relative error of up to `10^-8` passes.
pub const TOLERANCE_RECIPROCAL: u128 = 100000000;

/// The most decimal places that a reference value may have.
pub const MAX_SCALE: u32 = 18;

/// The decimal fraction `digits / 10^scale`.
#[derive(Clone, Copy, Debug, PartialEq, Eq, Structural)]
pub struct Decimal {
    pub digits: i64,
    pub scale: u32,
}

/// The binary fraction `mantissa * 2^exponent`, negated where `negative`.
#[derive(Clone, Copy, Debug, PartialEq, Eq, Structural)]
pub struct Binary {
    pub negative: bool,
    pub mantissa: u64,
    pub exponent: i32,
}

/// The reference values of the two sums.
#[derive(Clone, Copy, Debug, PartialEq, Eq, Structural)]
pub struct ReferenceSums {
    pub sum_x: Decimal,
    pub sum_y: Decimal,
}

/// How the verification of a run ended.
#[derive(Clone, Copy, Debug, PartialEq, Eq, Structural)]
pub enum Verification {
    /// Both sums are within the tolerance of their reference values.
    Successful,
    /// A sum is not a number, or is too far from its reference value.
    Unsuccessful,
    /// There are no reference values for the size of the run.
    NotPerformed,
}

/// The reference values for a run of `2^exponent` pairs, where they are known.
pub open spec fn reference_of(exponent: u32) -> Option<ReferenceSums> {
    if exponent == 24 {
        Some(
            ReferenceSums {
                sum_x: Decimal { digits: -3247834652034740i64, scale: 12 },
                sum_y: Decimal { digits: -6958407078382297i64, scale: 12 },
            },
        )
    } else if exponent == 25 {
        Some(
            ReferenceSums {
                sum_x: Decimal { digits: -2863319731645753i64, scale: 12 },
                sum_y: Decimal { digits: -6320053679109499i64, scale: 12 },
            },
        )
    } else if exponent == 28 {
        Some(
            ReferenceSums {
                sum_x: Decimal { digits: -4295875165629892i64, scale: 12 },
                sum_y: Decimal { digits: -1580732573678431i64, scale: 11 },
            },
        )
    } else if exponent == 30 {
        Some(
            ReferenceSums {
                sum_x: Decimal { digits: 4033815542441498i64, scale: 11 },
                sum_y: Decimal { digits: -2660669192809235i64, scale: 11 },
            },
        )
    } else if exponent == 32 {
        Some(
            ReferenceSums {
                sum_x: Decimal { digits: 4764367927995374i64, scale: 11 },
                sum_y: Decimal { digits: -8084072988043731i64, scale: 11 },
            },
        )
    } else if exponent == 36 {
        Some(
            ReferenceSums {
                sum_x: Decimal { digits: 1982481200946593i64, scale: 10 },
                sum_y: Decimal { digits: -1020596636361769i64, scale: 10 },
            },
        )
    } else if exponent == 40 {
        Some(
            ReferenceSums {
                sum_x: Decimal { digits: -5319717441530i64, scale: 7 },
                sum_y: Decimal { digits: -3688834557731i64, scale: 7 },
            },
        )
    } else {
        None
    }
}

/// The binary fraction that a double-precision bit pattern stands for: one
/// sign bit, eleven bits of biased exponent and fifty-two bits of fraction.
/// Infinities and patterns that are no number stand for none.
pub open spec fn binary_of(bits: u64) -> Option<Binary> {
    let negative = bits >= 0x8000000000000000;
    let biased = (bits / 0x10000000000000) % 2048;
    let fraction = bits % 0x10000000000000;
    if biased == 2047 {
        None
    } else if biased == 0 {
        Some(Binary { negative, mantissa: fraction as u64, exponent: -1074i32 })
    } else {
        Some(
            Binary {
                negative,
                mantissa: (fraction + 0x10000000000000) as u64,
                exponent: (biased - 1075) as i32,
            },
        )
    }
}

/// The power of two by which the mantissa is multiplied.
pub open spec fn shift_up(value: Binary) -> nat {
    if value.exponent >= 0 {
        value.exponent as nat
    } else {
        0
    }
}

/// The power of two by which the mantissa is divided.
pub open spec fn shift_down(value: Binary) -> nat {
    if value.exponent < 0 {
        (-value.exponent) as nat
    } else {
        0
    }
}

/// The value, multiplied by `10^scale` and by `2^shift_down`, which makes it a
/// whole number.
pub open spec fn scaled_value(value: Binary, scale: nat) -> int {
    let magnitude = value.mantissa * pow2(shift_up(value)) * pow(10, scale);
    if value.negative {
        -magnitude
    } else {
        magnitude
    }
}

/// The reference value, multiplied by the same two factors.
pub open spec fn scaled_reference(reference: Decimal, value: Binary) -> int {
    reference.digits * pow2(shift_down(value))
}

/// Whether the relative error of `value` against `reference` is at most
/// `10^-8`: `|value - reference| * 10^8 <= |reference|`, both sides
/// multiplied by the same positive factor.
pub open spec fn within_tolerance(value: Binary, reference: Decimal) -> bool {
    let v = scaled_value(value, reference.scale as nat);
    let r = scaled_reference(reference, value);
    vstd::math::abs(v - r) * TOLERANCE_RECIPROCAL <= vstd::math::abs(r)
}

/// Whether the sum with the given bit pattern is a number within the
/// tolerance of `reference`.
pub open spec fn sum_passes(bits: u64, reference: Decimal) -> bool {
    match binary_of(bits) {
        Some(value) => within_tolerance(value, reference),
        None => false,
    }
}

/// How the verification of the two sums of a run of `2^exponent` pairs ends.
pub open spec fn verification_of(exponent: u32, sum_x_bits: u64, sum_y_bits: u64) -> Verification {
    match reference_of(exponent) {
        None => Verification::NotPerformed,
        Some(reference) => if sum_passes(sum_x_bits, reference.sum_x) && sum_passes(
            sum_y_bits,
            reference.sum_y,
        ) {
            Verification::Successful
        } else {
            Verification::Unsuccessful
        },
    }
}

/// The reference values for a run of `2^exponent` pairs, or `None` where
/// there are none for that size.
pub fn reference_sums(exponent: u32) -> (r: Option<ReferenceSums>)
    ensures
        r == reference_of(exponent),
        r.is_some() ==> r.unwrap().sum_x.scale <= MAX_SCALE && r.unwrap().sum_y.scale <= MAX_SCALE,
{
    if exponent == 24 {
        Some(
            ReferenceSums {
                sum_x: Decimal { digits: -3247834652034740i64, scale: 12 },
                sum_y: Decimal { digits: -6958407078382297i64, scale: 12 },
            },
        )
    } else if exponent == 25 {
        Some(
            ReferenceSums {
                sum_x: Decimal { digits: -2863319731645753i64, scale: 12 },
                sum_y: Decimal { digits: -6320053679109499i64, scale: 12 },
            },
        )
    } else if exponent == 28 {
        Some(
            ReferenceSums {
                sum_x: Decimal { digits: -4295875165629892i64, scale: 12 },
                sum_y: Decimal { digits: -1580732573678431i64, scale: 11 },
            },
        )
    } else if exponent == 30 {
        Some(
            ReferenceSums {
                sum_x: Decimal { digits: 4033815542441498i64, scale: 11 },
                sum_y: Decimal { digits: -2660669192809235i64, scale: 11 },
            },
        )
    } else if exponent == 32 {
        Some(
            ReferenceSums {
                sum_x: Decimal { digits: 4764367927995374i64, scale: 11 },
                sum_y: Decimal { digits: -8084072988043731i64, scale: 11 },
            },
        )
    } else if exponent == 36 {
        Some(
            ReferenceSums {
                sum_x: Decimal { digits: 1982481200946593i64, scale: 10 },
                sum_y: Decimal { digits: -1020596636361769i64, scale: 10 },
            },
        )
    } else if exponent == 40 {
        Some(
            ReferenceSums {
                sum_x: Decimal { digits: -5319717441530i64, scale: 7 },
                sum_y: Decimal { digits: -3688834557731i64, scale: 7 },
            },
        )
    } else {
        None
    }
}

/// The binary fraction that a double-precision bit pattern stands for, or
/// `None` for an infinity or a pattern that is no number.
pub fn decode(bits: u64) -> (value: Option<Binary>)
    ensures
        value == binary_of(bits),
{
    let negative: bool = (bits >> 63) == 1;
    let biased: u64 = (bits >> 52) & 0x7ff;
    let fraction: u64 = bits & 0xfffffffffffff;
    proof {
        assert(((bits >> 63) == 1) == (bits >= 0x8000000000000000)) by (bit_vector);
        assert((bits >> 52) & 0x7ff == (bits / 0x10000000000000) % 2048) by (bit_vector);
        assert(bits & 0xfffffffffffff == bits % 0x10000000000000) by (bit_vector);
    }
    if biased == 2047 {
        None
    } else if biased == 0 {
        Some(Binary { negative, mantissa: fraction, exponent: -1074 })
    } else {
        Some(
            Binary {
                negative,
                mantissa: fraction + 0x10000000000000,
                exponent: biased as i32 - 1075,
            },
        )
    }
}

/// `x * 2^k`, or `None` where that does not fit 128 bits.
fn times_pow2(x: u128, k: u32) -> (r: Option<u128>)
    ensures
        (match r {
            Some(y) => y == x * pow2(k as nat),
            None => x * pow2(k as nat) > u128::MAX,
        }),
{
    let mut acc: u128 = x;
    let mut i: u32 = 0;
    proof {
        vstd::arithmetic::power2::lemma2_to64();
    }
    while i < k
        invariant
            i <= k,
            acc == x * pow2(i as nat),
        decreases k - i,
    {
        proof {
            lemma_pow2_unfold((i + 1) as nat);
            assert(x * pow2((i + 1) as nat) == (x * pow2(i as nat)) * 2) by (nonlinear_arith)
                requires
                    pow2((i + 1) as nat) == 2 * pow2(i as nat),
            ;
        }
        match acc.checked_mul(2) {
            Some(next) => {
                acc = next;
            },
            None => {
                proof {
                    if i + 1 < k {
                        lemma_pow2_strictly_increases((i + 1) as nat, k as nat);
                    }
                    lemma_mul_inequality(
                        pow2((i + 1) as nat) as int,
                        pow2(k as nat) as int,
                        x as int,
                    );
                    assert(x * pow2(k as nat) == pow2(k as nat) * x) by (nonlinear_arith);
                    assert(x * pow2((i + 1) as nat) == pow2((i + 1) as nat) * x)
                        by (nonlinear_arith);
                }
                return None;
            },
        }
        i += 1;
    }
    Some(acc)
}

/// `x * 10^k`, or `None` where that does not fit 128 bits.
fn times_pow10(x: u128, k: u32) -> (r: Option<u128>)
    ensures
        (match r {
            Some(y) => y == x * pow(10, k as nat),
            None => x * pow(10, k as nat) > u128::MAX,
        }),
{
    let mut acc: u128 = x;
    let mut i: u32 = 0;
    proof {
        vstd::arithmetic::power::lemma_pow0(10);
    }
    while i < k
        invariant
            i <= k,
            acc == x * pow(10, i as nat),
        decreases k - i,
    {
        proof {
            assert(pow(10, (i + 1) as nat) == 10 * pow(10, i as nat)) by {
                reveal(pow);
            }
            assert(x * pow(10, (i + 1) as nat) == (x * pow(10, i as nat)) * 10)
                by (nonlinear_arith)
                requires
                    pow(10, (i + 1) as nat) == 10 * pow(10, i as nat),
            ;
        }
        match acc.checked_mul(10) {
            Some(next) => {
                acc = next;
            },
            None => {
                proof {
                    lemma_pow_increases(10, (i + 1) as nat, k as nat);
                    lemma_mul_inequality(pow(10, (i + 1) as nat), pow(10, k as nat), x as int);
                    assert(x * pow(10, k as nat) == pow(10, k as nat) * x) by (nonlinear_arith);
                    assert(x * pow(10, (i + 1) as nat) == pow(10, (i + 1) as nat) * x)
                        by (nonlinear_arith);
                }
                return None;
            },
        }
        i += 1;
    }
    Some(acc)
}

/// The two scaled numbers by their magnitudes: `vn` and `rn` are the
/// magnitudes of the scaled value and of the scaled reference, and each is
/// zero exactly where its mantissa or its digits are.
proof fn lemma_magnitudes(value: Binary, reference: Decimal, vn: int, rn: int)
    requires
        vn == value.mantissa * pow2(shift_up(value)) * pow(10, reference.scale as nat),
        rn == vstd::math::abs(reference.digits as int) * pow2(shift_down(value)),
    ensures
        vn >= 0,
        rn >= 0,
        vn == 0 <==> value.mantissa == 0,
        rn == 0 <==> reference.digits == 0,
        value.mantissa * pow2(shift_up(value)) <= vn,
        scaled_value(value, reference.scale as nat) == (if value.negative {
            -vn
        } else {
            vn
        }),
        scaled_reference(reference, value) == (if reference.digits < 0 {
            -rn
        } else {
            rn
        }),
{
    let up = pow2(shift_up(value)) as int;
    let down = pow2(shift_down(value)) as int;
    let ten = pow(10, reference.scale as nat);
    let m = value.mantissa as int;
    let d = reference.digits as int;
    lemma_pow2_pos(shift_up(value));
    lemma_pow2_pos(shift_down(value));
    lemma_pow_positive(10, reference.scale as nat);
    if m > 0 {
        lemma_mul_strictly_positive(m, up);
        lemma_mul_strictly_positive(m * up, ten);
        lemma_mul_inequality(1, ten, m * up);
        assert(ten * (m * up) == m * up * ten) by (nonlinear_arith);
    } else {
        assert(m * up == 0) by (nonlinear_arith)
            requires
                m == 0,
        ;
        assert(m * up * ten == 0) by (nonlinear_arith)
            requires
                m * up == 0,
        ;
    }
    if d > 0 {
        lemma_mul_strictly_positive(d, down);
    } else if d < 0 {
        lemma_mul_strictly_positive(-d, down);
        assert(d * down == -((-d) * down)) by (nonlinear_arith);
    } else {
        assert(d * down == 0) by (nonlinear_arith)
            requires
                d == 0,
        ;
    }
}

/// Whether the relative error of `value` against `reference` is at most
/// `10^-8`.
pub fn close_to(value: &Binary, reference: &Decimal) -> (r: bool)
    requires
        reference.scale <= MAX_SCALE,
    ensures
        r == within_tolerance(*value, *reference),
{
    let ghost vn: int = (value.mantissa * pow2(shift_up(*value)) * pow(
        10,
        reference.scale as nat,
    )) as int;
    let ghost rn: int = (vstd::math::abs(reference.digits as int) * pow2(shift_down(*value)))
        as int;
    proof {
        lemma_magnitudes(*value, *reference, vn, rn);
    }
    if value.mantissa == 0 || reference.digits == 0 {
        return value.mantissa == 0 && reference.digits == 0;
    }
    if value.negative != (reference.digits < 0) {
        return false;
    }
    let digits: i128 = reference.digits as i128;
    let magnitude: u128 = if digits < 0 {
        (-digits) as u128
    } else {
        digits as u128
    };
    let up: u32 = if value.exponent >= 0 {
        value.exponent as u32
    } else {
        0
    };
    let down: u32 = if value.exponent < 0 {
        (-(value.exponent as i64)) as u32
    } else {
        0
    };
    proof {
        vstd::arithmetic::power2::lemma2_to64();
        lemma_pow_increases(10, reference.scale as nat, MAX_SCALE as nat);
        lemma_pow_positive(10, reference.scale as nat);
        assert(pow(10, 18) == 1000000000000000000) by {
            reveal_with_fuel(pow, 19);
        }
        if up == 0 {
            assert(vn <= 0xffffffffffffffff * 1000000000000000000) by (nonlinear_arith)
                requires
                    vn == value.mantissa * 1 * pow(10, reference.scale as nat),
                    value.mantissa <= 0xffffffffffffffff,
                    0 < pow(10, reference.scale as nat) <= 1000000000000000000,
            ;
        }
    }
    let scaled: Option<u128> = match times_pow2(value.mantissa as u128, up) {
        Some(t) => times_pow10(t, reference.scale),
        None => None,
    };
    let target: Option<u128> = times_pow2(magnitude, down);
    match (scaled, target) {
        (Some(v), Some(t)) => {
            let gap: u128 = if v >= t {
                v - t
            } else {
                t - v
            };
            gap <= t / TOLERANCE_RECIPROCAL
        },
        _ => false,
    }
}

/// Verifies the two sums of a run of `2^exponent` pairs, each handed over as
/// the bit pattern of a double-precision number, against their reference
/// values.
pub fn verify(exponent: u32, sum_x_bits: u64, sum_y_bits: u64) -> (outcome: Verification)
    ensures
        outcome == verification_of(exponent, sum_x_bits, sum_y_bits),
{
    match reference_sums(exponent) {
        None => Verification::NotPerformed,
        Some(reference) => {
            let x_passes = match decode(sum_x_bits) {
                Some(value) => close_to(&value, &reference.sum_x),
                None => false,
            };
            let y_passes = match decode(sum_y_bits) {
                Some(value) => close_to(&value, &reference.sum_y),
                None => false,
            };
            if x_passes && y_passes {
                Verification::Successful
            } else {
                Verification::Unsuccessful
            }
        },
    }
}

impl Verification {
    /// Whether the verification was made and passed.
    pub fn passed(&self) -> (r: bool)
        ensures
            r == (*self == Verification::Successful),
    {
        match self {
            Verification::Successful => true,
            _ => false,
        }
    }
}

} // verus!
