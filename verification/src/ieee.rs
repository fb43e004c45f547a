//! IEEE 754 binary32 and binary64 numbers, held as bit patterns.
//!
//! A finite number is `(-1)^negative * significand * 2^scale`; its significand and
//! scale are read from the exponent and fraction fields of the bit pattern.
use vstd::prelude::*;
use vstd::arithmetic::power2::*;
use vstd::arithmetic::div_mod::*;

use crate::exact::{lemma_pow2_values, scaled_integer, scaled_magnitude};

use crate::value::CastError;
use crate::convert::{result_u128, result_i128};

verus! {

// ---------------------------------------------------------------------------
// Fields of an `f32` bit pattern.
// ---------------------------------------------------------------------------

/// The sign bit of an `f32` bit pattern.
pub open spec fn f32_sign_bit(b: u32) -> bool {
    b >= 0x8000_0000
}

/// The biased exponent field of an `f32` bit pattern.
pub open spec fn f32_exponent_field(b: u32) -> int {
    (b as int / 0x80_0000) % 0x100
}

/// The fraction field of an `f32` bit pattern.
pub open spec fn f32_fraction_field(b: u32) -> int {
    b as int % 0x80_0000
}

/// Whether an `f32` bit pattern is a finite number (neither infinite nor NaN).
pub open spec fn f32_is_finite(b: u32) -> bool {
    f32_exponent_field(b) != 0xff
}

/// Whether an `f32` bit pattern is a NaN.
pub open spec fn f32_is_nan(b: u32) -> bool {
    !f32_is_finite(b) && f32_fraction_field(b) != 0
}

/// The significand of a finite `f32`, with the implicit leading bit of a normal number.
pub open spec fn f32_significand(b: u32) -> nat {
    if f32_exponent_field(b) == 0 {
        f32_fraction_field(b) as nat
    } else {
        (f32_fraction_field(b) + 0x80_0000) as nat
    }
}

/// The power of two that scales the significand of a finite `f32`.
pub open spec fn f32_scale(b: u32) -> int {
    if f32_exponent_field(b) == 0 {
        -149
    } else {
        f32_exponent_field(b) - 150
    }
}

// ---------------------------------------------------------------------------
// Fields of an `f64` bit pattern.
// ---------------------------------------------------------------------------

/// The sign bit of an `f64` bit pattern.
pub open spec fn f64_sign_bit(b: u64) -> bool {
    b >= 0x8000_0000_0000_0000
}

/// The biased exponent field of an `f64` bit pattern.
pub open spec fn f64_exponent_field(b: u64) -> int {
    (b as int / 0x10_0000_0000_0000) % 0x800
}

/// The fraction field of an `f64` bit pattern.
pub open spec fn f64_fraction_field(b: u64) -> int {
    b as int % 0x10_0000_0000_0000
}

/// Whether an `f64` bit pattern is a finite number (neither infinite nor NaN).
pub open spec fn f64_is_finite(b: u64) -> bool {
    f64_exponent_field(b) != 0x7ff
}

/// Whether an `f64` bit pattern is a NaN.
pub open spec fn f64_is_nan(b: u64) -> bool {
    !f64_is_finite(b) && f64_fraction_field(b) != 0
}

/// The significand of a finite `f64`, with the implicit leading bit of a normal number.
pub open spec fn f64_significand(b: u64) -> nat {
    if f64_exponent_field(b) == 0 {
        f64_fraction_field(b) as nat
    } else {
        (f64_fraction_field(b) + 0x10_0000_0000_0000) as nat
    }
}

/// The power of two that scales the significand of a finite `f64`.
pub open spec fn f64_scale(b: u64) -> int {
    if f64_exponent_field(b) == 0 {
        -1074
    } else {
        f64_exponent_field(b) - 1075
    }
}

// ---------------------------------------------------------------------------
// Integral values.
// ---------------------------------------------------------------------------

/// The value of an `f32` when it is finite and a whole number.
pub open spec fn f32_integer_value(b: u32) -> Option<int> {
    if f32_is_finite(b) {
        scaled_integer(f32_sign_bit(b), f32_significand(b), f32_scale(b))
    } else {
        None
    }
}

/// The value of an `f64` when it is finite and a whole number.
pub open spec fn f64_integer_value(b: u64) -> Option<int> {
    if f64_is_finite(b) {
        scaled_integer(f64_sign_bit(b), f64_significand(b), f64_scale(b))
    } else {
        None
    }
}

/// A whole number checked against the range `lo..=hi` of a target type.
pub open spec fn integer_in_range(o: Option<int>, lo: int, hi: int) -> Result<int, CastError> {
    match o {
        Some(n) => if lo <= n && n <= hi {
            Ok(n)
        } else {
            Err(CastError::OutOfRange)
        },
        None => Err(CastError::OutOfRange),
    }
}

/// `i128::MIN`, `i128::MAX` and `u128::MAX` as integers.
pub open spec fn i128_min() -> int {
    -0x8000_0000_0000_0000_0000_0000_0000_0000
}

pub open spec fn i128_max() -> int {
    0x7fff_ffff_ffff_ffff_ffff_ffff_ffff_ffff
}

pub open spec fn u128_max() -> int {
    0xffff_ffff_ffff_ffff_ffff_ffff_ffff_ffff
}


// ---------------------------------------------------------------------------
// Lemmas on powers of two.
// ---------------------------------------------------------------------------

proof fn lemma_pow2_le(a: nat, b: nat)
    requires
        a <= b,
    ensures
        pow2(a) <= pow2(b),
{
    if a < b {
        lemma_pow2_strictly_increases(a, b);
    }
}

/// A positive number below `2^s` is not a multiple of `2^s`.
proof fn lemma_small_not_multiple(m: nat, s: nat)
    requires
        0 < m < pow2(s),
    ensures
        m % pow2(s) != 0,
{
    lemma_small_mod(m, pow2(s));
}

// ---------------------------------------------------------------------------
// Executable decoding.
// ---------------------------------------------------------------------------

/// `2^s` for `s < 64`.
pub(crate) fn pow2_u64(s: u32) -> (r: u64)
    requires
        s < 64,
    ensures
        r as nat == pow2(s as nat),
        r > 0,
{
    let mut r: u64 = 1;
    let mut i: u32 = 0;
    proof {
        lemma2_to64();
        lemma_pow2_values();
    }
    while i < s
        invariant
            i <= s < 64,
            r as nat == pow2(i as nat),
            pow2(63) == 0x8000_0000_0000_0000,
        decreases s - i,
    {
        proof {
            lemma_pow2_unfold((i + 1) as nat);
            lemma_pow2_le(i as nat, 62);
            lemma_pow2_unfold(63);
        }
        r = r * 2;
        i = i + 1;
    }
    proof {
        lemma_pow2_pos(s as nat);
    }
    r
}

/// The magnitude `m * 2^k` when it is a whole number that fits in a `u128`;
/// `None` when it is not a whole number or exceeds `u128::MAX`.
fn integral_magnitude(m: u64, k: i32) -> (r: Option<u128>)
    requires
        m < 0x20_0000_0000_0000,
        -1100 <= k <= 1100,
    ensures
        match r {
            Some(n) => scaled_magnitude(m as nat, k as int) == Some(n as nat),
            None => match scaled_magnitude(m as nat, k as int) {
                Some(n) => n > u128_max(),
                None => true,
            },
        },
{
    proof {
        lemma_pow2_values();
    }
    if k >= 0 {
        let mut acc: u128 = m as u128;
        let mut i: i32 = 0;
        assert((m as nat) * pow2(0) == m as nat) by (nonlinear_arith)
            requires
                pow2(0) == 1,
        ;
        while i < k
            invariant
                0 <= i <= k,
                acc as nat == (m as nat) * pow2(i as nat),
            decreases k - i,
        {
            proof {
                lemma_pow2_unfold((i + 1) as nat);
            }
            if acc > 0x7fff_ffff_ffff_ffff_ffff_ffff_ffff_ffff {
                proof {
                    let rest = (k - i - 1) as nat;
                    lemma_pow2_adds((i + 1) as nat, rest);
                    lemma_pow2_pos(rest);
                    assert((i + 1) as nat + rest == k as nat);
                    let a = (m as nat) * pow2((i + 1) as nat);
                    assert(a == 2 * acc) by (nonlinear_arith)
                        requires
                            acc as nat == (m as nat) * pow2(i as nat),
                            pow2((i + 1) as nat) == 2 * pow2(i as nat),
                            a == (m as nat) * pow2((i + 1) as nat),
                    ;
                    assert((m as nat) * pow2(k as nat) >= a) by (nonlinear_arith)
                        requires
                            a == (m as nat) * pow2((i + 1) as nat),
                            pow2(k as nat) == pow2((i + 1) as nat) * pow2(rest),
                            pow2(rest) > 0,
                    ;
                }
                return None;
            }
            proof {
                assert(2 * acc == (m as nat) * pow2((i + 1) as nat)) by (nonlinear_arith)
                    requires
                        acc as nat == (m as nat) * pow2(i as nat),
                        pow2((i + 1) as nat) == 2 * pow2(i as nat),
                ;
            }
            acc = acc * 2;
            i = i + 1;
        }
        Some(acc)
    } else if m == 0 {
        proof {
            lemma_pow2_pos((-k) as nat);
            lemma_small_mod(0, pow2((-k) as nat));
        }
        Some(0)
    } else {
        let s: u32 = (0 - k) as u32;
        if s >= 64 {
            proof {
                lemma_pow2_le(53, s as nat);
                lemma_small_not_multiple(m as nat, s as nat);
            }
            None
        } else {
            let d = pow2_u64(s);
            if m % d == 0 {
                Some((m / d) as u128)
            } else {
                None
            }
        }
    }
}

/// The sign, significand and scale of an `f32` bit pattern, and whether it is finite.
pub(crate) fn f32_parts(b: u32) -> (r: (bool, bool, u64, i32))
    ensures
        r.0 == f32_is_finite(b),
        r.1 == f32_sign_bit(b),
        r.2 as nat == f32_significand(b),
        r.3 as int == f32_scale(b),
        r.2 < 0x100_0000,
{
    let e = (b / 0x80_0000) % 0x100;
    let f = b % 0x80_0000;
    let finite = e != 0xff;
    let negative = b >= 0x8000_0000;
    if e == 0 {
        (finite, negative, f as u64, -149)
    } else {
        (finite, negative, (f + 0x80_0000) as u64, (e as i32) - 150)
    }
}

/// The sign, significand and scale of an `f64` bit pattern, and whether it is finite.
pub(crate) fn f64_parts(b: u64) -> (r: (bool, bool, u64, i32))
    ensures
        r.0 == f64_is_finite(b),
        r.1 == f64_sign_bit(b),
        r.2 as nat == f64_significand(b),
        r.3 as int == f64_scale(b),
        r.2 < 0x20_0000_0000_0000,
{
    let e = (b / 0x10_0000_0000_0000) % 0x800;
    let f = b % 0x10_0000_0000_0000;
    let finite = e != 0x7ff;
    let negative = b >= 0x8000_0000_0000_0000;
    if e == 0 {
        (finite, negative, f, -1074)
    } else {
        (finite, negative, f + 0x10_0000_0000_0000, (e as i32) - 1075)
    }
}

/// The whole number `(-1)^negative * m * 2^k` at `u128`.
fn scaled_to_u128(finite: bool, negative: bool, m: u64, k: i32) -> (r: Result<u128, CastError>)
    requires
        m < 0x20_0000_0000_0000,
        -1100 <= k <= 1100,
    ensures
        r == result_u128(
            integer_in_range(
                if finite { scaled_integer(negative, m as nat, k as int) } else { None },
                0,
                u128_max(),
            ),
        ),
{
    if !finite {
        return Err(CastError::OutOfRange);
    }
    match integral_magnitude(m, k) {
        Some(n) => {
            if negative && n != 0 {
                Err(CastError::OutOfRange)
            } else {
                Ok(n)
            }
        },
        None => Err(CastError::OutOfRange),
    }
}

/// The whole number `(-1)^negative * m * 2^k` at `i128`.
fn scaled_to_i128(finite: bool, negative: bool, m: u64, k: i32) -> (r: Result<i128, CastError>)
    requires
        m < 0x20_0000_0000_0000,
        -1100 <= k <= 1100,
    ensures
        r == result_i128(
            integer_in_range(
                if finite { scaled_integer(negative, m as nat, k as int) } else { None },
                i128_min(),
                i128_max(),
            ),
        ),
{
    if !finite {
        return Err(CastError::OutOfRange);
    }
    match integral_magnitude(m, k) {
        Some(n) => {
            if negative {
                if n <= 0x7fff_ffff_ffff_ffff_ffff_ffff_ffff_ffff {
                    Ok(-(n as i128))
                } else if n == 0x8000_0000_0000_0000_0000_0000_0000_0000 {
                    Ok(i128::MIN)
                } else {
                    Err(CastError::OutOfRange)
                }
            } else if n <= 0x7fff_ffff_ffff_ffff_ffff_ffff_ffff_ffff {
                Ok(n as i128)
            } else {
                Err(CastError::OutOfRange)
            }
        },
        None => Err(CastError::OutOfRange),
    }
}

/// Convert an `f32`, given by its bit pattern, to `u128`.
///
/// Succeeds exactly when the number is finite, a whole number, and in the range of `u128`.
pub fn f32_to_u128(bits: u32) -> (r: Result<u128, CastError>)
    ensures
        r == result_u128(integer_in_range(f32_integer_value(bits), 0, u128_max())),
{
    let (finite, negative, m, k) = f32_parts(bits);
    scaled_to_u128(finite, negative, m, k)
}

/// Convert an `f64`, given by its bit pattern, to `u128`.
///
/// Succeeds exactly when the number is finite, a whole number, and in the range of `u128`.
pub fn f64_to_u128(bits: u64) -> (r: Result<u128, CastError>)
    ensures
        r == result_u128(integer_in_range(f64_integer_value(bits), 0, u128_max())),
{
    let (finite, negative, m, k) = f64_parts(bits);
    scaled_to_u128(finite, negative, m, k)
}

/// Convert an `f32`, given by its bit pattern, to `i128`.
///
/// Succeeds exactly when the number is finite, a whole number, and in the range of `i128`.
pub fn f32_to_i128(bits: u32) -> (r: Result<i128, CastError>)
    ensures
        r == result_i128(integer_in_range(f32_integer_value(bits), i128_min(), i128_max())),
{
    let (finite, negative, m, k) = f32_parts(bits);
    scaled_to_i128(finite, negative, m, k)
}

/// Convert an `f64`, given by its bit pattern, to `i128`.
///
/// Succeeds exactly when the number is finite, a whole number, and in the range of `i128`.
pub fn f64_to_i128(bits: u64) -> (r: Result<i128, CastError>)
    ensures
        r == result_i128(integer_in_range(f64_integer_value(bits), i128_min(), i128_max())),
{
    let (finite, negative, m, k) = f64_parts(bits);
    scaled_to_i128(finite, negative, m, k)
}

} // verus!
