//! Exact encoding of magnitudes `m * 2^k` as `f64` and `f32` bit patterns.
use vstd::prelude::*;
use vstd::arithmetic::power2::*;
use vstd::arithmetic::div_mod::*;

use crate::exact::{
    lemma_decoded_representable, lemma_decoded_unique, lemma_same_magnitude_symmetric, lemma_log2_floor_below, lemma_log2_floor_bounds,
    lemma_odd_part_le, lemma_pow2_values, lemma_representable_same_magnitude,
    lemma_same_magnitude_at, lemma_same_magnitude_odd_part, lemma_same_magnitude_transitive,
    log2_floor, odd_part, representable, same_magnitude, twos,
};
use crate::ieee::{
    f32_exponent_field, f32_fraction_field, f32_is_finite, f32_scale, f32_sign_bit,
    f32_significand, f64_exponent_field, f64_fraction_field, f64_is_finite, f64_scale,
    f32_is_nan, f32_parts, f64_is_nan, f64_parts, f64_sign_bit, f64_significand, pow2_u64,
};

verus! {

/// `b` is the finite `f64` of sign `negative` and magnitude `m * 2^k`.
pub open spec fn f64_encodes(b: u64, negative: bool, m: nat, k: int) -> bool {
    &&& f64_is_finite(b)
    &&& f64_sign_bit(b) == negative
    &&& same_magnitude(f64_significand(b), f64_scale(b), m, k)
}

/// `b` is the finite `f32` of sign `negative` and magnitude `m * 2^k`.
pub open spec fn f32_encodes(b: u32, negative: bool, m: nat, k: int) -> bool {
    &&& f32_is_finite(b)
    &&& f32_sign_bit(b) == negative
    &&& same_magnitude(f32_significand(b), f32_scale(b), m, k)
}

/// Whether `f64` holds the magnitude `m * 2^k` exactly.
pub open spec fn f64_holds(m: nat, k: int) -> bool {
    representable(m, k, 53, -1074, 1023)
}

/// Whether `f32` holds the magnitude `m * 2^k` exactly.
pub open spec fn f32_holds(m: nat, k: int) -> bool {
    representable(m, k, 24, -149, 127)
}

// ---------------------------------------------------------------------------
// Fields of assembled bit patterns.
// ---------------------------------------------------------------------------

pub(crate) proof fn lemma_f64_fields(s: nat, e: nat, f: nat)
    requires
        s <= 1,
        e < 0x800,
        f < 0x10_0000_0000_0000,
    ensures
        s * 0x8000_0000_0000_0000 + e * 0x10_0000_0000_0000 + f <= 0xffff_ffff_ffff_ffff,
        ({
            let b = (s * 0x8000_0000_0000_0000 + e * 0x10_0000_0000_0000 + f) as u64;
            &&& f64_exponent_field(b) == e
            &&& f64_fraction_field(b) == f
            &&& f64_sign_bit(b) == (s == 1)
        }),
{
    let x = s * 0x8000_0000_0000_0000 + e * 0x10_0000_0000_0000 + f;
    let q = s * 0x800 + e;
    assert(x == q * 0x10_0000_0000_0000 + f);
    lemma_fundamental_div_mod_converse(x as int, 0x10_0000_0000_0000, q as int, f as int);
    lemma_fundamental_div_mod_converse(q as int, 0x800, s as int, e as int);
}

pub(crate) proof fn lemma_f32_fields(s: nat, e: nat, f: nat)
    requires
        s <= 1,
        e < 0x100,
        f < 0x80_0000,
    ensures
        s * 0x8000_0000 + e * 0x80_0000 + f <= 0xffff_ffff,
        ({
            let b = (s * 0x8000_0000 + e * 0x80_0000 + f) as u32;
            &&& f32_exponent_field(b) == e
            &&& f32_fraction_field(b) == f
            &&& f32_sign_bit(b) == (s == 1)
        }),
{
    let x = s * 0x8000_0000 + e * 0x80_0000 + f;
    let q = s * 0x100 + e;
    assert(x == q * 0x80_0000 + f);
    lemma_fundamental_div_mod_converse(x as int, 0x80_0000, q as int, f as int);
    lemma_fundamental_div_mod_converse(q as int, 0x100, s as int, e as int);
}

// ---------------------------------------------------------------------------
// A bit pattern is its fields.
// ---------------------------------------------------------------------------

proof fn lemma_f64_bits(b: u64)
    ensures
        b == (if f64_sign_bit(b) { 1int } else { 0int }) * 0x8000_0000_0000_0000
            + f64_exponent_field(b) * 0x10_0000_0000_0000 + f64_fraction_field(b),
{
    let x = b as int;
    let q = x / 0x10_0000_0000_0000;
    lemma_fundamental_div_mod(x, 0x10_0000_0000_0000);
    lemma_fundamental_div_mod(q, 0x800);
    lemma_div_denominator(x, 0x10_0000_0000_0000, 0x800);
    lemma_fundamental_div_mod(x, 0x8000_0000_0000_0000);
}

proof fn lemma_f32_bits(b: u32)
    ensures
        b == (if f32_sign_bit(b) { 1int } else { 0int }) * 0x8000_0000 + f32_exponent_field(b)
            * 0x80_0000 + f32_fraction_field(b),
{
    let x = b as int;
    let q = x / 0x80_0000;
    lemma_fundamental_div_mod(x, 0x80_0000);
    lemma_fundamental_div_mod(q, 0x100);
    lemma_div_denominator(x, 0x80_0000, 0x100);
    lemma_fundamental_div_mod(x, 0x8000_0000);
}

/// Two finite `f64`s of the same sign and magnitude are the same bit pattern.
pub proof fn lemma_f64_encoding_unique(d1: u64, d2: u64, negative: bool, m: nat, k: int)
    requires
        f64_encodes(d1, negative, m, k),
        f64_encodes(d2, negative, m, k),
    ensures
        d1 == d2,
{
    lemma_pow2_values();
    lemma_same_magnitude_symmetric(f64_significand(d2), f64_scale(d2), m, k);
    lemma_same_magnitude_transitive(
        f64_significand(d1),
        f64_scale(d1),
        m,
        k,
        f64_significand(d2),
        f64_scale(d2),
    );
    assert(pow2(52 + 1) == pow2(53));
    lemma_decoded_unique(
        f64_significand(d1),
        f64_scale(d1),
        f64_significand(d2),
        f64_scale(d2),
        52,
        -1074,
    );
    lemma_f64_bits(d1);
    lemma_f64_bits(d2);
}

/// Two finite `f32`s of the same sign and magnitude are the same bit pattern.
pub proof fn lemma_f32_encoding_unique(b1: u32, b2: u32, negative: bool, m: nat, k: int)
    requires
        f32_encodes(b1, negative, m, k),
        f32_encodes(b2, negative, m, k),
    ensures
        b1 == b2,
{
    lemma_pow2_values();
    lemma_same_magnitude_symmetric(f32_significand(b2), f32_scale(b2), m, k);
    lemma_same_magnitude_transitive(
        f32_significand(b1),
        f32_scale(b1),
        m,
        k,
        f32_significand(b2),
        f32_scale(b2),
    );
    assert(pow2(23 + 1) == pow2(24));
    lemma_decoded_unique(
        f32_significand(b1),
        f32_scale(b1),
        f32_significand(b2),
        f32_scale(b2),
        23,
        -149,
    );
    lemma_f32_bits(b1);
    lemma_f32_bits(b2);
}

// ---------------------------------------------------------------------------
// A finite float holds its own magnitude.
// ---------------------------------------------------------------------------

/// Any finite `f64` of magnitude `m * 2^k` shows that `f64` holds that magnitude.
pub proof fn lemma_f64_encodes_holds(b: u64, negative: bool, m: nat, k: int)
    requires
        f64_encodes(b, negative, m, k),
    ensures
        f64_holds(m, k),
{
    lemma_pow2_values();
    lemma_decoded_representable(f64_significand(b), f64_scale(b), 53, -1074, 1023);
    lemma_representable_same_magnitude(
        f64_significand(b),
        f64_scale(b),
        m,
        k,
        53,
        -1074,
        1023,
    );
}

/// Any finite `f32` of magnitude `m * 2^k` shows that `f32` holds that magnitude.
pub proof fn lemma_f32_encodes_holds(b: u32, negative: bool, m: nat, k: int)
    requires
        f32_encodes(b, negative, m, k),
    ensures
        f32_holds(m, k),
{
    lemma_pow2_values();
    lemma_decoded_representable(f32_significand(b), f32_scale(b), 24, -149, 127);
    lemma_representable_same_magnitude(f32_significand(b), f32_scale(b), m, k, 24, -149, 127);
}

/// What `f32` holds, `f64` holds.
pub proof fn lemma_f32_holds_f64_holds(m: nat, k: int)
    requires
        f32_holds(m, k),
    ensures
        f64_holds(m, k),
{
    lemma_pow2_values();
    if m > 0 {
        lemma_pow2_strictly_increases(24, 53);
    }
}

// ---------------------------------------------------------------------------
// Odd part and bit length, computed.
// ---------------------------------------------------------------------------

/// The odd part of `m`, the exponent `k + twos(m)` that goes with it, and the bit
/// length of the odd part less one.
fn odd_decompose(m: u128, k: i32) -> (r: (u128, i32, u32))
    requires
        m > 0,
        -1200 <= k <= 1200,
    ensures
        r.0 as nat == odd_part(m as nat),
        r.1 as int == k + twos(m as nat),
        r.2 as nat == log2_floor(odd_part(m as nat)),
        r.2 < 128,
        k <= r.1 <= k + 127,
{
    proof {
        lemma_pow2_values();
    }
    let mut o: u128 = m;
    let mut t: i32 = k;
    assert((m as nat) * pow2(0) == m as nat) by (nonlinear_arith)
        requires
            pow2(0) == 1,
    ;
    while o % 2 == 0
        invariant
            -1200 <= k <= 1200,
            o > 0,
            k <= t <= k + 127,
            odd_part(o as nat) == odd_part(m as nat),
            twos(m as nat) == twos(o as nat) + (t - k),
            (o as nat) * pow2((t - k) as nat) == m as nat,
            pow2(128) == 0x1_0000_0000_0000_0000_0000_0000_0000_0000,
        decreases o,
    {
        let ghost j = (t - k + 1) as nat;
        proof {
            lemma_pow2_unfold(j);
            let h = (o / 2) as nat;
            assert(h * pow2(j) == m as nat) by (nonlinear_arith)
                requires
                    o as nat == 2 * h,
                    pow2(j) == 2 * pow2((j - 1) as nat),
                    (o as nat) * pow2((j - 1) as nat) == m as nat,
            ;
            assert(pow2(j) <= m as nat) by (nonlinear_arith)
                requires
                    h * pow2(j) == m as nat,
                    h >= 1,
            ;
            if j >= 128 {
                if j > 128 {
                    lemma_pow2_strictly_increases(128, j);
                }
                assert(false);
            }
        }
        o = o / 2;
        t = t + 1;
    }
    proof {
        assert(odd_part(o as nat) == o);
        assert(twos(o as nat) == 0);
        lemma_log2_floor_below(o as nat, 128);
    }
    let mut x: u128 = o;
    let mut p: u32 = 0;
    while x > 1
        invariant
            x >= 1,
            log2_floor(o as nat) == p + log2_floor(x as nat),
            log2_floor(o as nat) < 128,
        decreases x,
    {
        x = x / 2;
        p = p + 1;
    }
    (o, t, p)
}

// ---------------------------------------------------------------------------
// Encoders.
// ---------------------------------------------------------------------------

/// The `f64` of sign `negative` and magnitude `m * 2^k`, when `f64` holds that
/// magnitude exactly.
pub fn encode_f64(negative: bool, m: u128, k: i32) -> (r: Option<u64>)
    requires
        -1200 <= k <= 1200,
    ensures
        r is Some <==> f64_holds(m as nat, k as int),
        r matches Some(b) ==> f64_encodes(b, negative, m as nat, k as int),
{
    proof {
        lemma_pow2_values();
    }
    let s: u64 = if negative { 1 } else { 0 };
    if m == 0 {
        proof {
            lemma_f64_fields(s as nat, 0, 0);
            assert(same_magnitude(0, -1074, 0, k as int)) by (nonlinear_arith);
        }
        return Some(s * 0x8000_0000_0000_0000);
    }
    let (o, t, p) = odd_decompose(m, k);
    if o >= 0x20_0000_0000_0000 || t < -1074 || (p as i32) + t > 1023 {
        return None;
    }
    let ghost om = odd_part(m as nat);
    proof {
        lemma_odd_part_le(m as nat);
        lemma_log2_floor_below(om, 53);
        lemma_log2_floor_bounds(om);
        lemma_same_magnitude_odd_part(m as nat, k as int);
    }
    let e_top: i32 = (p as i32) + t;
    if e_top >= -1022 {
        let shift: u32 = 52 - p;
        let scale_up = pow2_u64(shift);
        proof {
            lemma_pow2_adds((p + 1) as nat, shift as nat);
            lemma_pow2_adds(p as nat, shift as nat);
            lemma_pow2_pos(shift as nat);
            assert(((p + 1) + shift) as nat == 53);
            assert((p + shift) as nat == 52);
            let hi = pow2((p + 1) as nat);
            let lo = pow2(p as nat);
            let sc = pow2(shift as nat);
            assert(hi * sc == pow2(53));
            assert(lo * sc == pow2(52));
            assert((o as nat) * (scale_up as nat) < pow2(53)) by (nonlinear_arith)
                requires
                    (o as nat) < hi,
                    hi * sc == pow2(53),
                    scale_up as nat == sc,
                    sc > 0,
            ;
            assert((o as nat) * (scale_up as nat) >= pow2(52)) by (nonlinear_arith)
                requires
                    (o as nat) >= lo,
                    lo * sc == pow2(52),
                    scale_up as nat == sc,
            ;
        }
        let sig: u64 = (o as u64) * scale_up;
        let biased: u64 = (e_top + 1023) as u64;
        let frac: u64 = sig - 0x10_0000_0000_0000;
        proof {
            lemma_f64_fields(s as nat, biased as nat, frac as nat);
        }
        let b: u64 = s * 0x8000_0000_0000_0000 + biased * 0x10_0000_0000_0000 + frac;
        proof {
            let sc = e_top - 52;
            assert(f64_significand(b) == sig);
            assert(f64_scale(b) == sc);
            lemma_same_magnitude_at(sig as nat, sc as int, o as nat, t as int, sc as int);
            assert((sig as nat) * pow2(0) == sig as nat) by (nonlinear_arith)
                requires
                    pow2(0) == 1,
            ;
            lemma_same_magnitude_transitive(
                sig as nat,
                sc as int,
                o as nat,
                t as int,
                m as nat,
                k as int,
            );
        }
        Some(b)
    } else {
        let shift: u32 = (t + 1074) as u32;
        let scale_up = pow2_u64(shift);
        proof {
            lemma_pow2_adds((p + 1) as nat, shift as nat);
            if p + 1 + shift < 52 {
                lemma_pow2_strictly_increases((p + 1 + shift) as nat, 52);
            }
            lemma_pow2_pos(shift as nat);
            let hi = pow2((p + 1) as nat);
            let sc = pow2(shift as nat);
            assert(hi * sc <= pow2(52));
            assert((o as nat) * (scale_up as nat) < pow2(52)) by (nonlinear_arith)
                requires
                    (o as nat) < hi,
                    hi * sc <= pow2(52),
                    scale_up as nat == sc,
                    sc > 0,
            ;
        }
        let sig: u64 = (o as u64) * scale_up;
        proof {
            lemma_f64_fields(s as nat, 0, sig as nat);
        }
        let b: u64 = s * 0x8000_0000_0000_0000 + sig;
        proof {
            assert(f64_significand(b) == sig);
            assert(f64_scale(b) == -1074);
            lemma_same_magnitude_at(sig as nat, -1074, o as nat, t as int, -1074);
            assert((sig as nat) * pow2(0) == sig as nat) by (nonlinear_arith)
                requires
                    pow2(0) == 1,
            ;
            lemma_same_magnitude_transitive(
                sig as nat,
                -1074,
                o as nat,
                t as int,
                m as nat,
                k as int,
            );
        }
        Some(b)
    }
}

/// The `f32` of sign `negative` and magnitude `m * 2^k`, when `f32` holds that
/// magnitude exactly.
pub fn encode_f32(negative: bool, m: u128, k: i32) -> (r: Option<u32>)
    requires
        -1200 <= k <= 1200,
    ensures
        r is Some <==> f32_holds(m as nat, k as int),
        r matches Some(b) ==> f32_encodes(b, negative, m as nat, k as int),
{
    proof {
        lemma_pow2_values();
    }
    let s: u32 = if negative { 1 } else { 0 };
    if m == 0 {
        proof {
            lemma_f32_fields(s as nat, 0, 0);
            assert(same_magnitude(0, -149, 0, k as int)) by (nonlinear_arith);
        }
        return Some(s * 0x8000_0000);
    }
    let (o, t, p) = odd_decompose(m, k);
    if o >= 0x100_0000 || t < -149 || (p as i32) + t > 127 {
        return None;
    }
    let ghost om = odd_part(m as nat);
    proof {
        lemma_odd_part_le(m as nat);
        lemma_log2_floor_below(om, 24);
        lemma_log2_floor_bounds(om);
        lemma_same_magnitude_odd_part(m as nat, k as int);
    }
    let e_top: i32 = (p as i32) + t;
    if e_top >= -126 {
        let shift: u32 = 23 - p;
        let scale_up = pow2_u64(shift);
        proof {
            lemma_pow2_adds((p + 1) as nat, shift as nat);
            lemma_pow2_adds(p as nat, shift as nat);
            lemma_pow2_pos(shift as nat);
            assert(((p + 1) + shift) as nat == 24);
            assert((p + shift) as nat == 23);
            let hi = pow2((p + 1) as nat);
            let lo = pow2(p as nat);
            let sc = pow2(shift as nat);
            assert(hi * sc == pow2(24));
            assert(lo * sc == pow2(23));
            assert((o as nat) * (scale_up as nat) < pow2(24)) by (nonlinear_arith)
                requires
                    (o as nat) < hi,
                    hi * sc == pow2(24),
                    scale_up as nat == sc,
                    sc > 0,
            ;
            assert((o as nat) * (scale_up as nat) >= pow2(23)) by (nonlinear_arith)
                requires
                    (o as nat) >= lo,
                    lo * sc == pow2(23),
                    scale_up as nat == sc,
            ;
            assert(pow2(24) == 0x100_0000) by {
                lemma2_to64();
            }
        }
        let sig: u32 = ((o as u64) * scale_up) as u32;
        let biased: u32 = (e_top + 127) as u32;
        let frac: u32 = sig - 0x80_0000;
        proof {
            lemma_f32_fields(s as nat, biased as nat, frac as nat);
        }
        let b: u32 = s * 0x8000_0000 + biased * 0x80_0000 + frac;
        proof {
            let sc = e_top - 23;
            assert(f32_significand(b) == sig);
            assert(f32_scale(b) == sc);
            lemma_same_magnitude_at(sig as nat, sc as int, o as nat, t as int, sc as int);
            assert((sig as nat) * pow2(0) == sig as nat) by (nonlinear_arith)
                requires
                    pow2(0) == 1,
            ;
            lemma_same_magnitude_transitive(
                sig as nat,
                sc as int,
                o as nat,
                t as int,
                m as nat,
                k as int,
            );
        }
        Some(b)
    } else {
        let shift: u32 = (t + 149) as u32;
        let scale_up = pow2_u64(shift);
        proof {
            lemma_pow2_adds((p + 1) as nat, shift as nat);
            if p + 1 + shift < 23 {
                lemma_pow2_strictly_increases((p + 1 + shift) as nat, 23);
            }
            lemma_pow2_pos(shift as nat);
            let hi = pow2((p + 1) as nat);
            let sc = pow2(shift as nat);
            assert(hi * sc <= pow2(23));
            assert((o as nat) * (scale_up as nat) < pow2(23)) by (nonlinear_arith)
                requires
                    (o as nat) < hi,
                    hi * sc <= pow2(23),
                    scale_up as nat == sc,
                    sc > 0,
            ;
        }
        let sig: u32 = ((o as u64) * scale_up) as u32;
        proof {
            lemma_f32_fields(s as nat, 0, sig as nat);
        }
        let b: u32 = s * 0x8000_0000 + sig;
        proof {
            assert(f32_significand(b) == sig);
            assert(f32_scale(b) == -149);
            lemma_same_magnitude_at(sig as nat, -149, o as nat, t as int, -149);
            assert((sig as nat) * pow2(0) == sig as nat) by (nonlinear_arith)
                requires
                    pow2(0) == 1,
            ;
            lemma_same_magnitude_transitive(
                sig as nat,
                -149,
                o as nat,
                t as int,
                m as nat,
                k as int,
            );
        }
        Some(b)
    }
}

// ---------------------------------------------------------------------------
// Between the two formats.
// ---------------------------------------------------------------------------

/// `d` is the `f64` that the `f32` `c` widens to: the same number for a finite `c`; for
/// an infinity or a NaN, the same sign, all exponent bits set, and the fraction moved to
/// the top of the wider fraction field (so an infinity stays an infinity, and a NaN stays a
/// NaN with its payload).
pub open spec fn f64_of_f32(c: u32, d: u64) -> bool {
    if !f32_is_finite(c) {
        let sign: int = if f32_sign_bit(c) { 0x8000_0000_0000_0000 } else { 0 };
        d == sign + 0x7ff * 0x10_0000_0000_0000 + f32_fraction_field(c) * 0x2000_0000
    } else {
        f64_encodes(d, f32_sign_bit(c), f32_significand(c), f32_scale(c))
    }
}

/// `b` is the `f32` that the `f64` `d` converts to: the same number for a finite `d`; the
/// infinity of the same sign for an infinity; for a NaN, the quiet NaN of the same sign
/// that keeps the top bits of the payload.
pub open spec fn f32_of_f64(d: u64, b: u32) -> bool {
    let sign: int = if f64_sign_bit(d) { 0x8000_0000 } else { 0 };
    if f64_is_nan(d) {
        b == sign + 0xff * 0x80_0000 + 0x40_0000 + (f64_fraction_field(d) / 0x2000_0000)
            % 0x40_0000
    } else if !f64_is_finite(d) {
        b == sign + 0xff * 0x80_0000
    } else {
        f32_encodes(b, f64_sign_bit(d), f64_significand(d), f64_scale(d))
    }
}

/// Widen an `f32` to the `f64` of the same value. A NaN keeps its sign and payload.
pub fn widen_f32(c: u32) -> (d: u64)
    ensures
        f64_of_f32(c, d),
{
    proof {
        lemma_pow2_values();
    }
    let (finite, negative, m, k) = f32_parts(c);
    let s: u64 = if negative { 1 } else { 0 };
    if !finite {
        let frac: u64 = (c % 0x80_0000) as u64;
        proof {
            lemma_f64_fields(s as nat, 0x7ff, (frac * 0x2000_0000) as nat);
        }
        return s * 0x8000_0000_0000_0000 + 0x7ff * 0x10_0000_0000_0000 + frac * 0x2000_0000;
    }
    proof {
        assert(f32_encodes(c, negative, m as nat, k as int));
        lemma_f32_encodes_holds(c, negative, m as nat, k as int);
        lemma_f32_holds_f64_holds(m as nat, k as int);
    }
    match encode_f64(negative, m as u128, k) {
        Some(d) => d,
        None => {
            proof {
                assert(false);
            }
            0
        },
    }
}

/// Narrow an `f64` to the `f32` of the same value, when there is one; a NaN narrows to a
/// NaN of the same sign.
pub fn narrow_f64(d: u64) -> (r: Option<u32>)
    ensures
        match r {
            Some(b) => f32_of_f64(d, b),
            None => forall|b: u32| !f32_of_f64(d, b),
        },
        !f64_is_finite(d) ==> r is Some,
        f64_is_finite(d) ==> (r is Some <==> f32_holds(f64_significand(d), f64_scale(d))),
{
    proof {
        lemma_pow2_values();
    }
    let (finite, negative, m, k) = f64_parts(d);
    let s: u32 = if negative { 1 } else { 0 };
    if !finite {
        let frac = d % 0x10_0000_0000_0000;
        if frac != 0 {
            let payload: u32 = ((frac / 0x2000_0000) % 0x40_0000) as u32;
            proof {
                lemma_f32_fields(s as nat, 0xff, (0x40_0000 + payload) as nat);
            }
            return Some(s * 0x8000_0000 + 0xff * 0x80_0000 + 0x40_0000 + payload);
        }
        proof {
            lemma_f32_fields(s as nat, 0xff, 0);
        }
        return Some(s * 0x8000_0000 + 0xff * 0x80_0000);
    }
    let r = encode_f32(negative, m as u128, k);
    proof {
        if r is None {
            assert forall|b: u32| !f32_of_f64(d, b) by {
                if f32_of_f64(d, b) {
                    lemma_f32_encodes_holds(b, negative, m as nat, k as int);
                }
            }
        }
    }
    r
}

} // verus!
