//! Properties that hold across the conversions of this crate.
use vstd::prelude::*;
use vstd::arithmetic::power2::*;
use vstd::arithmetic::div_mod::lemma_fundamental_div_mod;

use crate::convert::{
    abs_int, cast_to_range, integer_value, is_f32_of, is_f64_of, result_i128, result_i16,
    result_i32, result_i64, result_i8, result_isize, result_u128, result_u16, result_u32,
    result_u64, result_u8, result_usize,
};
use crate::encode::{
    f32_holds, f32_of_f64, f64_holds, f64_of_f32, lemma_f32_encodes_holds,
    lemma_f32_encoding_unique, lemma_f32_fields, lemma_f32_holds_f64_holds,
    lemma_f64_encoding_unique, lemma_f64_fields,
};
use crate::exact::{
    lemma_log2_floor_below, lemma_log2_floor_shift, lemma_odd_decomposition, lemma_odd_part_le,
    lemma_odd_times_pow2_unique, lemma_pow2_values, lemma_same_magnitude_at,
    lemma_scaled_magnitude_at, lemma_scaled_magnitude_same, log2_floor,
    lemma_same_magnitude_symmetric, lemma_same_magnitude_transitive, odd_part, same_magnitude,
    scaled_integer, scaled_magnitude, twos,
};
use crate::ieee::{
    i128_max, i128_min, u128_max, f32_fraction_field, f32_integer_value, f32_is_finite, f32_is_nan, f32_scale, f32_sign_bit,
    f32_significand, f64_fraction_field, f64_integer_value, f64_is_finite, f64_is_nan, f64_scale,
    f64_sign_bit, f64_significand,
};
use crate::value::{
    has_distinct_keys, inserted, inserted_all, lemma_same_tree_reflexive,
    lemma_same_tree_symmetric, lemma_same_tree_transitive, lemma_same_tree_unfold, same_tree,
    CastError, Value,
};

verus! {

/// A value is an integer exactly when it is a signed or an unsigned integer, and a number
/// exactly when it is an integer or a float.
pub proof fn law_number_kinds(v: Value)
    ensures
        v.spec_is_integer() == (v.spec_is_signed_integer() || v.spec_is_unsigned_integer()),
        v.spec_is_number() == (v.spec_is_integer() || v.spec_is_float()),
        !(v.spec_is_signed_integer() && v.spec_is_unsigned_integer()),
        !(v.spec_is_integer() && v.spec_is_float()),
{
}

/// Converting to an integer type fails with `NotNumeric` exactly for the values that are
/// not numbers.
pub proof fn law_not_numeric(v: Value, lo: int, hi: int)
    ensures
        (cast_to_range(v, lo, hi) == Err::<int, CastError>(CastError::NotNumeric)) <==> !v.spec_is_number(),
{
}

/// An integer value converts to an integer type exactly when the target's range holds it,
/// and then to itself: in particular every integer converts back to its own type.
pub proof fn law_integer_cast_exact(v: Value, lo: int, hi: int)
    requires
        v.spec_is_integer(),
    ensures
        integer_value(v) is Some,
        cast_to_range(v, lo, hi) == if lo <= integer_value(v)->Some_0 <= hi {
            Ok::<int, CastError>(integer_value(v)->Some_0)
        } else {
            Err(CastError::OutOfRange)
        },
{
}

/// A conversion that succeeds into some integer type succeeds, with the same result, into
/// every integer type of wider range.
pub proof fn law_cast_wider_range(v: Value, lo1: int, hi1: int, lo2: int, hi2: int, n: int)
    requires
        cast_to_range(v, lo1, hi1) == Ok::<int, CastError>(n),
        lo2 <= lo1,
        hi1 <= hi2,
    ensures
        cast_to_range(v, lo2, hi2) == Ok::<int, CastError>(n),
{
}

proof fn lemma_integer_encoding(negative: bool, sig: nat, scale: int, x: int)
    requires
        negative == (x < 0),
        same_magnitude(sig, scale, abs_int(x), 0),
    ensures
        scaled_integer(negative, sig, scale) == Some(x),
{
    lemma_scaled_magnitude_same(sig, scale, abs_int(x), 0);
    lemma_pow2_values();
    assert(abs_int(x) * pow2(0) == abs_int(x)) by (nonlinear_arith)
        requires
            pow2(0) == 1,
    ;
    assert(scaled_magnitude(abs_int(x), 0) == Some(abs_int(x)));
}

/// The `f64` that an integer converts to stands for that very integer: it converts back
/// to every integer type exactly as the integer itself does.
pub proof fn law_integer_f64_round_trip(v: Value, d: u64, lo: int, hi: int)
    requires
        v.spec_is_integer(),
        is_f64_of(v, d),
    ensures
        f64_integer_value(d) == integer_value(v),
        cast_to_range(Value::F64(d), lo, hi) == cast_to_range(v, lo, hi),
{
    let x = integer_value(v)->Some_0;
    lemma_integer_encoding(f64_sign_bit(d), f64_significand(d), f64_scale(d), x);
}

/// The `f32` that an integer converts to stands for that very integer: it converts back
/// to every integer type exactly as the integer itself does.
pub proof fn law_integer_f32_round_trip(v: Value, b: u32, lo: int, hi: int)
    requires
        v.spec_is_integer(),
        is_f32_of(v, b),
    ensures
        f32_integer_value(b) == integer_value(v),
        cast_to_range(Value::F32(b), lo, hi) == cast_to_range(v, lo, hi),
{
    let x = integer_value(v)->Some_0;
    lemma_integer_encoding(f32_sign_bit(b), f32_significand(b), f32_scale(b), x);
}

/// Widening an `f32` to an `f64` keeps its whole-number value (and the lack of one), so both
/// convert alike to every integer type.
pub proof fn law_widen_keeps_integer(c: u32, d: u64, lo: int, hi: int)
    requires
        f64_of_f32(c, d),
    ensures
        f64_integer_value(d) == f32_integer_value(c),
        cast_to_range(Value::F64(d), lo, hi) == cast_to_range(Value::F32(c), lo, hi),
{
    if f32_is_finite(c) {
        lemma_scaled_magnitude_same(f64_significand(d), f64_scale(d), f32_significand(c), f32_scale(c));
    }
}

/// Narrowing an `f64` to the `f32` of the same value keeps its whole-number value (and the
/// lack of one), so both convert alike to every integer type.
pub proof fn law_narrow_keeps_integer(d: u64, b: u32, lo: int, hi: int)
    requires
        f32_of_f64(d, b),
    ensures
        f32_integer_value(b) == f64_integer_value(d),
        cast_to_range(Value::F32(b), lo, hi) == cast_to_range(Value::F64(d), lo, hi),
{
    if f64_is_finite(d) {
        lemma_scaled_magnitude_same(f32_significand(b), f32_scale(b), f64_significand(d), f64_scale(d));
    }
}

/// Every integer that converts to an `f32` converts to an `f64` too.
pub proof fn law_integer_f32_then_f64(v: Value, b: u32)
    requires
        v.spec_is_integer(),
        is_f32_of(v, b),
    ensures
        f64_holds(abs_int(integer_value(v)->Some_0), 0),
{
    let x = integer_value(v)->Some_0;
    lemma_f32_encodes_holds(b, x < 0, abs_int(x), 0);
    lemma_f32_holds_f64_holds(abs_int(x), 0);
}

proof fn lemma_small_integer_holds(n: nat, bits: nat)
    requires
        n <= pow2(bits),
    ensures
        n == 0 || {
            &&& odd_part(n) < pow2(bits) || bits == 0
            &&& twos(n) >= 0
            &&& log2_floor(odd_part(n)) + twos(n) <= bits
        },
{
    if n > 0 {
        lemma_odd_decomposition(n);
        lemma_odd_part_le(n);
        lemma_log2_floor_shift(odd_part(n), twos(n));
        lemma_pow2_pos(bits);
        lemma_pow2_adds(bits, 1);
        lemma_pow2_values();
        assert(pow2(bits + 1) == 2 * pow2(bits)) by {
            lemma2_to64();
        }
        lemma_log2_floor_below(n, bits + 1);
        if n == pow2(bits) && bits > 0 {
            assert(1 * pow2(bits) == n);
            lemma_odd_times_pow2_unique(odd_part(n), twos(n), 1, bits);
            lemma_pow2_strictly_increases(0, bits);
            lemma2_to64();
        }
    }
}

/// Every integer of magnitude at most `2^53` has an exact `f64`, so its conversion to
/// `f64` succeeds.
pub proof fn law_small_integers_f64(v: Value)
    requires
        v.spec_is_integer(),
        abs_int(integer_value(v)->Some_0) <= 0x20_0000_0000_0000,
    ensures
        f64_holds(abs_int(integer_value(v)->Some_0), 0),
{
    lemma_pow2_values();
    lemma_small_integer_holds(abs_int(integer_value(v)->Some_0), 53);
}

/// Every integer of magnitude at most `2^24` has an exact `f32`.
pub proof fn law_small_integers_f32(v: Value)
    requires
        v.spec_is_integer(),
        abs_int(integer_value(v)->Some_0) <= 0x100_0000,
    ensures
        f32_holds(abs_int(integer_value(v)->Some_0), 0),
{
    lemma_pow2_values();
    lemma_small_integer_holds(abs_int(integer_value(v)->Some_0), 24);
}

/// Widening an `f32` keeps its sign and its kind: a NaN stays a NaN, an infinity an
/// infinity, a finite number finite.
pub proof fn law_widen_keeps_kind(c: u32, d: u64)
    requires
        f64_of_f32(c, d),
    ensures
        f64_is_nan(d) == f32_is_nan(c),
        f64_is_finite(d) == f32_is_finite(c),
        f64_sign_bit(d) == f32_sign_bit(c),
{
    if !f32_is_finite(c) {
        let s: nat = if f32_sign_bit(c) { 1 } else { 0 };
        lemma_f64_fields(s, 0x7ff, (f32_fraction_field(c) * 0x2000_0000) as nat);
    }
}

/// Narrowing an `f64` keeps its sign and its kind: a NaN stays a NaN, an infinity an
/// infinity, a finite number finite.
pub proof fn law_narrow_keeps_kind(d: u64, b: u32)
    requires
        f32_of_f64(d, b),
    ensures
        f32_is_nan(b) == f64_is_nan(d),
        f32_is_finite(b) == f64_is_finite(d),
        f32_sign_bit(b) == f64_sign_bit(d),
{
    let s: nat = if f64_sign_bit(d) { 1 } else { 0 };
    if f64_is_nan(d) {
        lemma_f32_fields(
            s,
            0xff,
            (0x40_0000 + (f64_fraction_field(d) / 0x2000_0000) % 0x40_0000) as nat,
        );
    } else if !f64_is_finite(d) {
        lemma_f32_fields(s, 0xff, 0);
    }
}

/// Whatever converts to an `f32` and to an `f64` converts to the same thing in both: the
/// same sign and kind, and for a finite result the same number.
pub proof fn law_f32_and_f64_agree(v: Value, b: u32, d: u64)
    requires
        is_f32_of(v, b),
        is_f64_of(v, d),
    ensures
        f32_is_nan(b) == f64_is_nan(d),
        f32_is_finite(b) == f64_is_finite(d),
        f32_sign_bit(b) == f64_sign_bit(d),
        f32_is_finite(b) ==> same_magnitude(
            f32_significand(b),
            f32_scale(b),
            f64_significand(d),
            f64_scale(d),
        ),
{
    if v.spec_is_integer() {
        let x = integer_value(v)->Some_0;
        lemma_same_magnitude_symmetric(f64_significand(d), f64_scale(d), abs_int(x), 0);
        lemma_same_magnitude_transitive(
            f32_significand(b),
            f32_scale(b),
            abs_int(x),
            0,
            f64_significand(d),
            f64_scale(d),
        );
    } else if let Value::F32(c) = v {
        law_widen_keeps_kind(c, d);
        if f32_is_finite(c) {
            lemma_same_magnitude_symmetric(
                f64_significand(d),
                f64_scale(d),
                f32_significand(c),
                f32_scale(c),
            );
        }
    } else if let Value::F64(e) = v {
        law_narrow_keeps_kind(e, b);
    }
}

/// A value converts to one `f64` bit pattern at most: the contract of the conversion pins
/// its result.
pub proof fn law_f64_result_unique(v: Value, d1: u64, d2: u64)
    requires
        is_f64_of(v, d1),
        is_f64_of(v, d2),
    ensures
        d1 == d2,
{
    if v.spec_is_integer() {
        let x = integer_value(v)->Some_0;
        lemma_f64_encoding_unique(d1, d2, x < 0, abs_int(x), 0);
    } else if let Value::F32(c) = v {
        if f32_is_finite(c) {
            lemma_f64_encoding_unique(d1, d2, f32_sign_bit(c), f32_significand(c), f32_scale(c));
        }
    }
}

/// A value converts to one `f32` bit pattern at most: the contract of the conversion pins
/// its result.
pub proof fn law_f32_result_unique(v: Value, b1: u32, b2: u32)
    requires
        is_f32_of(v, b1),
        is_f32_of(v, b2),
    ensures
        b1 == b2,
{
    if v.spec_is_integer() {
        let x = integer_value(v)->Some_0;
        lemma_f32_encoding_unique(b1, b2, x < 0, abs_int(x), 0);
    } else if let Value::F64(e) = v {
        if f64_is_finite(e) {
            lemma_f32_encoding_unique(b1, b2, f64_sign_bit(e), f64_significand(e), f64_scale(e));
        }
    }
}

/// Values that are the same tree (a value and its clone, say) convert alike: to every
/// integer type, to `f64` and to `f32`; and a numeric value is the same tree only as itself.
pub proof fn law_same_trees_convert_alike(a: Value, b: Value, lo: int, hi: int, d: u64, f: u32)
    requires
        same_tree(a, b),
    ensures
        a.spec_is_number() ==> a == b,
        b.spec_is_number() == a.spec_is_number(),
        cast_to_range(a, lo, hi) == cast_to_range(b, lo, hi),
        is_f64_of(a, d) == is_f64_of(b, d),
        is_f32_of(a, f) == is_f32_of(b, f),
{
    lemma_same_tree_unfold(a, b);
}

/// Setting a key in entries with distinct keys keeps the keys distinct and in place, leaves
/// the entries of other keys alone, adds only the new pair, and gives the key the value.
pub proof fn law_inserted(entries: Seq<(Value, Value)>, key: Value, value: Value)
    requires
        has_distinct_keys(entries),
    ensures
        has_distinct_keys(inserted(entries, key, value)),
        inserted(entries, key, value).len() >= entries.len(),
        forall|p: int|
            0 <= p < entries.len() ==> (#[trigger] inserted(entries, key, value)[p]).0
                == entries[p].0,
        forall|p: int|
            0 <= p < entries.len() && !same_tree(entries[p].0, key) ==> #[trigger] inserted(
                entries,
                key,
                value,
            )[p] == entries[p],
        forall|p: int|
            entries.len() <= p < inserted(entries, key, value).len() ==> #[trigger] inserted(
                entries,
                key,
                value,
            )[p] == (key, value),
        exists|i: int|
            0 <= i < inserted(entries, key, value).len() && same_tree(
                #[trigger] inserted(entries, key, value)[i].0,
                key,
            ) && inserted(entries, key, value)[i].1 == value,
{
    let r = inserted(entries, key, value);
    if exists|i: int| 0 <= i < entries.len() && same_tree(#[trigger] entries[i].0, key) {
        let i = choose|i: int| 0 <= i < entries.len() && same_tree(#[trigger] entries[i].0, key);
        assert(r[i].0 == entries[i].0);
        assert forall|p: int, q: int|
            0 <= p < r.len() && 0 <= q < r.len() && p != q implies !same_tree(
            #[trigger] r[p].0,
            #[trigger] r[q].0,
        ) by {
            assert(r[p].0 == entries[p].0);
            assert(r[q].0 == entries[q].0);
        }
    } else {
        lemma_same_tree_reflexive(key);
        let n = entries.len() as int;
        assert(same_tree(r[n].0, key));
        assert forall|p: int, q: int|
            0 <= p < r.len() && 0 <= q < r.len() && p != q implies !same_tree(
            #[trigger] r[p].0,
            #[trigger] r[q].0,
        ) by {
            if q == n && p < n && same_tree(r[p].0, r[q].0) {
                assert(same_tree(entries[p].0, key));
            }
            if p == n && q < n && same_tree(r[p].0, r[q].0) {
                lemma_same_tree_symmetric(key, entries[q].0);
                assert(same_tree(entries[q].0, key));
            }
        }
    }
}

/// Setting pairs in turn, from no entries, keeps the keys distinct.
pub proof fn law_inserted_all_distinct(pairs: Seq<(Value, Value)>)
    ensures
        has_distinct_keys(inserted_all(Seq::empty(), pairs)),
    decreases pairs.len(),
{
    if pairs.len() > 0 {
        law_inserted_all_distinct(pairs.drop_last());
        law_inserted(
            inserted_all(Seq::empty(), pairs.drop_last()),
            pairs.last().0,
            pairs.last().1,
        );
    }
}

/// After setting pairs in turn, the key of a pair that no later pair sets again is in
/// the map, holding that pair's value: each key holds the value of its last pair.
pub proof fn law_inserted_all_last_value(pairs: Seq<(Value, Value)>, j: int)
    requires
        0 <= j < pairs.len(),
        forall|k: int| j < k < pairs.len() ==> !same_tree(#[trigger] pairs[k].0, pairs[j].0),
    ensures
        exists|i: int|
            0 <= i < inserted_all(Seq::empty(), pairs).len() && same_tree(
                #[trigger] inserted_all(Seq::empty(), pairs)[i].0,
                pairs[j].0,
            ) && inserted_all(Seq::empty(), pairs)[i].1 == pairs[j].1,
    decreases pairs.len(),
{
    let prefix = pairs.drop_last();
    let before = inserted_all(Seq::empty(), prefix);
    let key = pairs.last().0;
    let value = pairs.last().1;
    let after = inserted_all(Seq::empty(), pairs);
    law_inserted_all_distinct(prefix);
    law_inserted(before, key, value);
    assert(after == inserted(before, key, value));
    if j == pairs.len() - 1 {
    } else {
        assert forall|k: int| j < k < prefix.len() implies !same_tree(
            #[trigger] prefix[k].0,
            prefix[j].0,
        ) by {
            assert(prefix[k] == pairs[k]);
        }
        law_inserted_all_last_value(prefix, j);
        let i = choose|i: int|
            0 <= i < before.len() && same_tree(#[trigger] before[i].0, prefix[j].0)
                && before[i].1 == prefix[j].1;
        assert(prefix[j] == pairs[j]);
        let n = pairs.len() - 1;
        assert(!same_tree(pairs[n].0, pairs[j].0));
        if same_tree(before[i].0, key) {
            lemma_same_tree_symmetric(before[i].0, pairs[j].0);
            lemma_same_tree_transitive(pairs[j].0, before[i].0, key);
            lemma_same_tree_symmetric(pairs[j].0, key);
        }
        assert(after[i] == before[i]);
    }
}

/// After setting pairs in turn, every key in the map is the key of one of the pairs.
pub proof fn law_inserted_all_keys_from_pairs(pairs: Seq<(Value, Value)>)
    ensures
        forall|i: int|
            0 <= i < inserted_all(Seq::empty(), pairs).len() ==> exists|j: int|
                0 <= j < pairs.len() && (#[trigger] inserted_all(Seq::empty(), pairs)[i]).0
                    == pairs[j].0,
    decreases pairs.len(),
{
    if pairs.len() > 0 {
        let prefix = pairs.drop_last();
        let before = inserted_all(Seq::empty(), prefix);
        let after = inserted_all(Seq::empty(), pairs);
        law_inserted_all_keys_from_pairs(prefix);
        law_inserted_all_distinct(prefix);
        law_inserted(before, pairs.last().0, pairs.last().1);
        assert forall|i: int| 0 <= i < after.len() implies exists|j: int|
            0 <= j < pairs.len() && (#[trigger] after[i]).0 == pairs[j].0 by {
            if i < before.len() {
                let j = choose|j: int| 0 <= j < prefix.len() && before[i].0 == prefix[j].0;
                assert(prefix[j] == pairs[j]);
                assert(after[i].0 == pairs[j].0);
            } else {
                assert(after[i].0 == pairs[pairs.len() - 1].0);
            }
        }
    }
}

/// Setting more pairs never moves an entry: the entries of the first `n` pairs keep their
/// keys and positions, so entries stand in the order of their keys' first pairs.
pub proof fn law_inserted_all_keys_stay(pairs: Seq<(Value, Value)>, n: int)
    requires
        0 <= n <= pairs.len(),
    ensures
        inserted_all(Seq::empty(), pairs.take(n)).len() <= inserted_all(Seq::empty(), pairs).len(),
        forall|p: int|
            0 <= p < inserted_all(Seq::empty(), pairs.take(n)).len() ==> (#[trigger] inserted_all(
                Seq::empty(),
                pairs,
            )[p]).0 == inserted_all(Seq::empty(), pairs.take(n))[p].0,
    decreases pairs.len(),
{
    if n == pairs.len() {
        assert(pairs.take(n) =~= pairs);
    } else {
        let prefix = pairs.drop_last();
        assert(prefix.take(n) =~= pairs.take(n));
        law_inserted_all_keys_stay(prefix, n);
        law_inserted_all_distinct(prefix);
        law_inserted(inserted_all(Seq::empty(), prefix), pairs.last().0, pairs.last().1);
    }
}

/// What an integer variant's conversions give, in terms of the number `x` it holds:
/// that number is `x`; converting to a range gives `x` exactly when the range holds it;
/// an `f64` or `f32` it converts to is finite, stands for `x`, and is negative exactly
/// when `x` is.
pub open spec fn converts_as_integer(v: Value, x: int, lo: int, hi: int, d: u64, b: u32) -> bool {
    &&& integer_value(v) == Some(x)
    &&& cast_to_range(v, lo, hi) == if lo <= x && x <= hi {
        Ok::<int, CastError>(x)
    } else {
        Err(CastError::OutOfRange)
    }
    &&& is_f64_of(v, d) ==> f64_is_finite(d) && f64_integer_value(d) == Some(x) && f64_sign_bit(d)
        == (x < 0)
    &&& is_f32_of(v, b) ==> f32_is_finite(b) && f32_integer_value(b) == Some(x) && f32_sign_bit(b)
        == (x < 0)
}

/// Each integer variant stands for the number it holds (an unsigned variant for its
/// unsigned value, a signed one for its signed value), and converts accordingly.
pub proof fn law_integer_variants_convert(v: Value, lo: int, hi: int, d: u64, b: u32)
    ensures
        match v {
            Value::U8(x) => converts_as_integer(v, x as int, lo, hi, d, b),
            Value::U16(x) => converts_as_integer(v, x as int, lo, hi, d, b),
            Value::U32(x) => converts_as_integer(v, x as int, lo, hi, d, b),
            Value::U64(x) => converts_as_integer(v, x as int, lo, hi, d, b),
            Value::U128(x) => converts_as_integer(v, x as int, lo, hi, d, b),
            Value::I8(x) => converts_as_integer(v, x as int, lo, hi, d, b),
            Value::I16(x) => converts_as_integer(v, x as int, lo, hi, d, b),
            Value::I32(x) => converts_as_integer(v, x as int, lo, hi, d, b),
            Value::I64(x) => converts_as_integer(v, x as int, lo, hi, d, b),
            Value::I128(x) => converts_as_integer(v, x as int, lo, hi, d, b),
            _ => !v.spec_is_integer(),
        },
{
    if v.spec_is_integer() {
        if is_f64_of(v, d) {
            law_integer_f64_round_trip(v, d, lo, hi);
        }
        if is_f32_of(v, b) {
            law_integer_f32_round_trip(v, b, lo, hi);
        }
    }
}

/// The kind of each variant: the unsigned integer variants are unsigned integers and not
/// signed ones, the signed integer variants the other way round, the float variants floats
/// and no integers, and every other variant no number at all. Unsigned integers are never
/// negative, and every negative integer is a signed integer.
pub proof fn law_variant_kinds(v: Value)
    ensures
        match v {
            Value::U8(_) => v.spec_is_unsigned_integer() && !v.spec_is_signed_integer() && !v.spec_is_float(),
            Value::U16(_) => v.spec_is_unsigned_integer() && !v.spec_is_signed_integer() && !v.spec_is_float(),
            Value::U32(_) => v.spec_is_unsigned_integer() && !v.spec_is_signed_integer() && !v.spec_is_float(),
            Value::U64(_) => v.spec_is_unsigned_integer() && !v.spec_is_signed_integer() && !v.spec_is_float(),
            Value::U128(_) => v.spec_is_unsigned_integer() && !v.spec_is_signed_integer() && !v.spec_is_float(),
            Value::I8(_) => v.spec_is_signed_integer() && !v.spec_is_unsigned_integer() && !v.spec_is_float(),
            Value::I16(_) => v.spec_is_signed_integer() && !v.spec_is_unsigned_integer() && !v.spec_is_float(),
            Value::I32(_) => v.spec_is_signed_integer() && !v.spec_is_unsigned_integer() && !v.spec_is_float(),
            Value::I64(_) => v.spec_is_signed_integer() && !v.spec_is_unsigned_integer() && !v.spec_is_float(),
            Value::I128(_) => v.spec_is_signed_integer() && !v.spec_is_unsigned_integer() && !v.spec_is_float(),
            Value::F32(_) | Value::F64(_) => v.spec_is_float() && !v.spec_is_integer(),
            _ => !v.spec_is_number(),
        },
        v.spec_is_unsigned_integer() ==> integer_value(v)->Some_0 >= 0,
        v.spec_is_integer() && integer_value(v)->Some_0 < 0 ==> v.spec_is_signed_integer(),
{
}

/// Converting to `u8` gives the value's whole number exactly when `u8` holds it; a
/// number without one in range is out of range, and anything else is not numeric.
pub proof fn law_to_u8(v: Value)
    ensures
        !v.spec_is_number() ==> result_u8(cast_to_range(v, 0, 0xff)) == Err::<
            u8,
            CastError,
        >(CastError::NotNumeric),
        forall|t: u8|
            result_u8(cast_to_range(v, 0, 0xff)) == Ok::<u8, CastError>(t) ==> integer_value(v)
                == Some(t as int),
        v.spec_is_number() && (integer_value(v) matches Some(n) && 0 <= n && n <= 0xff)
            ==> (result_u8(cast_to_range(v, 0, 0xff)) matches Ok(t) && t as int
            == integer_value(v)->Some_0),
        v.spec_is_number() && !(integer_value(v) matches Some(n) && 0 <= n && n <= 0xff)
            ==> result_u8(cast_to_range(v, 0, 0xff)) == Err::<u8, CastError>(
            CastError::OutOfRange,
        ),
{
}

/// Converting to `u16` gives the value's whole number exactly when `u16` holds it; a
/// number without one in range is out of range, and anything else is not numeric.
pub proof fn law_to_u16(v: Value)
    ensures
        !v.spec_is_number() ==> result_u16(cast_to_range(v, 0, 0xffff)) == Err::<
            u16,
            CastError,
        >(CastError::NotNumeric),
        forall|t: u16|
            result_u16(cast_to_range(v, 0, 0xffff)) == Ok::<u16, CastError>(t) ==> integer_value(v)
                == Some(t as int),
        v.spec_is_number() && (integer_value(v) matches Some(n) && 0 <= n && n <= 0xffff)
            ==> (result_u16(cast_to_range(v, 0, 0xffff)) matches Ok(t) && t as int
            == integer_value(v)->Some_0),
        v.spec_is_number() && !(integer_value(v) matches Some(n) && 0 <= n && n <= 0xffff)
            ==> result_u16(cast_to_range(v, 0, 0xffff)) == Err::<u16, CastError>(
            CastError::OutOfRange,
        ),
{
}

/// Converting to `u32` gives the value's whole number exactly when `u32` holds it; a
/// number without one in range is out of range, and anything else is not numeric.
pub proof fn law_to_u32(v: Value)
    ensures
        !v.spec_is_number() ==> result_u32(cast_to_range(v, 0, 0xffff_ffff)) == Err::<
            u32,
            CastError,
        >(CastError::NotNumeric),
        forall|t: u32|
            result_u32(cast_to_range(v, 0, 0xffff_ffff)) == Ok::<u32, CastError>(t) ==> integer_value(v)
                == Some(t as int),
        v.spec_is_number() && (integer_value(v) matches Some(n) && 0 <= n && n <= 0xffff_ffff)
            ==> (result_u32(cast_to_range(v, 0, 0xffff_ffff)) matches Ok(t) && t as int
            == integer_value(v)->Some_0),
        v.spec_is_number() && !(integer_value(v) matches Some(n) && 0 <= n && n <= 0xffff_ffff)
            ==> result_u32(cast_to_range(v, 0, 0xffff_ffff)) == Err::<u32, CastError>(
            CastError::OutOfRange,
        ),
{
}

/// Converting to `u64` gives the value's whole number exactly when `u64` holds it; a
/// number without one in range is out of range, and anything else is not numeric.
pub proof fn law_to_u64(v: Value)
    ensures
        !v.spec_is_number() ==> result_u64(cast_to_range(v, 0, 0xffff_ffff_ffff_ffff)) == Err::<
            u64,
            CastError,
        >(CastError::NotNumeric),
        forall|t: u64|
            result_u64(cast_to_range(v, 0, 0xffff_ffff_ffff_ffff)) == Ok::<u64, CastError>(t) ==> integer_value(v)
                == Some(t as int),
        v.spec_is_number() && (integer_value(v) matches Some(n) && 0 <= n && n <= 0xffff_ffff_ffff_ffff)
            ==> (result_u64(cast_to_range(v, 0, 0xffff_ffff_ffff_ffff)) matches Ok(t) && t as int
            == integer_value(v)->Some_0),
        v.spec_is_number() && !(integer_value(v) matches Some(n) && 0 <= n && n <= 0xffff_ffff_ffff_ffff)
            ==> result_u64(cast_to_range(v, 0, 0xffff_ffff_ffff_ffff)) == Err::<u64, CastError>(
            CastError::OutOfRange,
        ),
{
}

/// Converting to `usize` gives the value's whole number exactly when `usize` holds it; a
/// number without one in range is out of range, and anything else is not numeric.
pub proof fn law_to_usize(v: Value)
    ensures
        !v.spec_is_number() ==> result_usize(cast_to_range(v, 0, usize::MAX as int)) == Err::<
            usize,
            CastError,
        >(CastError::NotNumeric),
        forall|t: usize|
            result_usize(cast_to_range(v, 0, usize::MAX as int)) == Ok::<usize, CastError>(t) ==> integer_value(v)
                == Some(t as int),
        v.spec_is_number() && (integer_value(v) matches Some(n) && 0 <= n && n <= usize::MAX as int)
            ==> (result_usize(cast_to_range(v, 0, usize::MAX as int)) matches Ok(t) && t as int
            == integer_value(v)->Some_0),
        v.spec_is_number() && !(integer_value(v) matches Some(n) && 0 <= n && n <= usize::MAX as int)
            ==> result_usize(cast_to_range(v, 0, usize::MAX as int)) == Err::<usize, CastError>(
            CastError::OutOfRange,
        ),
{
}

/// Converting to `u128` gives the value's whole number exactly when `u128` holds it; a
/// number without one in range is out of range, and anything else is not numeric.
pub proof fn law_to_u128(v: Value)
    ensures
        !v.spec_is_number() ==> result_u128(cast_to_range(v, 0, u128_max())) == Err::<
            u128,
            CastError,
        >(CastError::NotNumeric),
        forall|t: u128|
            result_u128(cast_to_range(v, 0, u128_max())) == Ok::<u128, CastError>(t) ==> integer_value(v)
                == Some(t as int),
        v.spec_is_number() && (integer_value(v) matches Some(n) && 0 <= n && n <= u128_max())
            ==> (result_u128(cast_to_range(v, 0, u128_max())) matches Ok(t) && t as int
            == integer_value(v)->Some_0),
        v.spec_is_number() && !(integer_value(v) matches Some(n) && 0 <= n && n <= u128_max())
            ==> result_u128(cast_to_range(v, 0, u128_max())) == Err::<u128, CastError>(
            CastError::OutOfRange,
        ),
{
}

/// Converting to `i8` gives the value's whole number exactly when `i8` holds it; a
/// number without one in range is out of range, and anything else is not numeric.
pub proof fn law_to_i8(v: Value)
    ensures
        !v.spec_is_number() ==> result_i8(cast_to_range(v, -0x80, 0x7f)) == Err::<
            i8,
            CastError,
        >(CastError::NotNumeric),
        forall|t: i8|
            result_i8(cast_to_range(v, -0x80, 0x7f)) == Ok::<i8, CastError>(t) ==> integer_value(v)
                == Some(t as int),
        v.spec_is_number() && (integer_value(v) matches Some(n) && -0x80 <= n && n <= 0x7f)
            ==> (result_i8(cast_to_range(v, -0x80, 0x7f)) matches Ok(t) && t as int
            == integer_value(v)->Some_0),
        v.spec_is_number() && !(integer_value(v) matches Some(n) && -0x80 <= n && n <= 0x7f)
            ==> result_i8(cast_to_range(v, -0x80, 0x7f)) == Err::<i8, CastError>(
            CastError::OutOfRange,
        ),
{
}

/// Converting to `i16` gives the value's whole number exactly when `i16` holds it; a
/// number without one in range is out of range, and anything else is not numeric.
pub proof fn law_to_i16(v: Value)
    ensures
        !v.spec_is_number() ==> result_i16(cast_to_range(v, -0x8000, 0x7fff)) == Err::<
            i16,
            CastError,
        >(CastError::NotNumeric),
        forall|t: i16|
            result_i16(cast_to_range(v, -0x8000, 0x7fff)) == Ok::<i16, CastError>(t) ==> integer_value(v)
                == Some(t as int),
        v.spec_is_number() && (integer_value(v) matches Some(n) && -0x8000 <= n && n <= 0x7fff)
            ==> (result_i16(cast_to_range(v, -0x8000, 0x7fff)) matches Ok(t) && t as int
            == integer_value(v)->Some_0),
        v.spec_is_number() && !(integer_value(v) matches Some(n) && -0x8000 <= n && n <= 0x7fff)
            ==> result_i16(cast_to_range(v, -0x8000, 0x7fff)) == Err::<i16, CastError>(
            CastError::OutOfRange,
        ),
{
}

/// Converting to `i32` gives the value's whole number exactly when `i32` holds it; a
/// number without one in range is out of range, and anything else is not numeric.
pub proof fn law_to_i32(v: Value)
    ensures
        !v.spec_is_number() ==> result_i32(cast_to_range(v, -0x8000_0000, 0x7fff_ffff)) == Err::<
            i32,
            CastError,
        >(CastError::NotNumeric),
        forall|t: i32|
            result_i32(cast_to_range(v, -0x8000_0000, 0x7fff_ffff)) == Ok::<i32, CastError>(t) ==> integer_value(v)
                == Some(t as int),
        v.spec_is_number() && (integer_value(v) matches Some(n) && -0x8000_0000 <= n && n <= 0x7fff_ffff)
            ==> (result_i32(cast_to_range(v, -0x8000_0000, 0x7fff_ffff)) matches Ok(t) && t as int
            == integer_value(v)->Some_0),
        v.spec_is_number() && !(integer_value(v) matches Some(n) && -0x8000_0000 <= n && n <= 0x7fff_ffff)
            ==> result_i32(cast_to_range(v, -0x8000_0000, 0x7fff_ffff)) == Err::<i32, CastError>(
            CastError::OutOfRange,
        ),
{
}

/// Converting to `i64` gives the value's whole number exactly when `i64` holds it; a
/// number without one in range is out of range, and anything else is not numeric.
pub proof fn law_to_i64(v: Value)
    ensures
        !v.spec_is_number() ==> result_i64(cast_to_range(v, -0x8000_0000_0000_0000, 0x7fff_ffff_ffff_ffff)) == Err::<
            i64,
            CastError,
        >(CastError::NotNumeric),
        forall|t: i64|
            result_i64(cast_to_range(v, -0x8000_0000_0000_0000, 0x7fff_ffff_ffff_ffff)) == Ok::<i64, CastError>(t) ==> integer_value(v)
                == Some(t as int),
        v.spec_is_number() && (integer_value(v) matches Some(n) && -0x8000_0000_0000_0000 <= n && n <= 0x7fff_ffff_ffff_ffff)
            ==> (result_i64(cast_to_range(v, -0x8000_0000_0000_0000, 0x7fff_ffff_ffff_ffff)) matches Ok(t) && t as int
            == integer_value(v)->Some_0),
        v.spec_is_number() && !(integer_value(v) matches Some(n) && -0x8000_0000_0000_0000 <= n && n <= 0x7fff_ffff_ffff_ffff)
            ==> result_i64(cast_to_range(v, -0x8000_0000_0000_0000, 0x7fff_ffff_ffff_ffff)) == Err::<i64, CastError>(
            CastError::OutOfRange,
        ),
{
}

/// Converting to `isize` gives the value's whole number exactly when `isize` holds it; a
/// number without one in range is out of range, and anything else is not numeric.
pub proof fn law_to_isize(v: Value)
    ensures
        !v.spec_is_number() ==> result_isize(cast_to_range(v, isize::MIN as int, isize::MAX as int)) == Err::<
            isize,
            CastError,
        >(CastError::NotNumeric),
        forall|t: isize|
            result_isize(cast_to_range(v, isize::MIN as int, isize::MAX as int)) == Ok::<isize, CastError>(t) ==> integer_value(v)
                == Some(t as int),
        v.spec_is_number() && (integer_value(v) matches Some(n) && isize::MIN as int <= n && n <= isize::MAX as int)
            ==> (result_isize(cast_to_range(v, isize::MIN as int, isize::MAX as int)) matches Ok(t) && t as int
            == integer_value(v)->Some_0),
        v.spec_is_number() && !(integer_value(v) matches Some(n) && isize::MIN as int <= n && n <= isize::MAX as int)
            ==> result_isize(cast_to_range(v, isize::MIN as int, isize::MAX as int)) == Err::<isize, CastError>(
            CastError::OutOfRange,
        ),
{
}

/// Converting to `i128` gives the value's whole number exactly when `i128` holds it; a
/// number without one in range is out of range, and anything else is not numeric.
pub proof fn law_to_i128(v: Value)
    ensures
        !v.spec_is_number() ==> result_i128(cast_to_range(v, i128_min(), i128_max())) == Err::<
            i128,
            CastError,
        >(CastError::NotNumeric),
        forall|t: i128|
            result_i128(cast_to_range(v, i128_min(), i128_max())) == Ok::<i128, CastError>(t) ==> integer_value(v)
                == Some(t as int),
        v.spec_is_number() && (integer_value(v) matches Some(n) && i128_min() <= n && n <= i128_max())
            ==> (result_i128(cast_to_range(v, i128_min(), i128_max())) matches Ok(t) && t as int
            == integer_value(v)->Some_0),
        v.spec_is_number() && !(integer_value(v) matches Some(n) && i128_min() <= n && n <= i128_max())
            ==> result_i128(cast_to_range(v, i128_min(), i128_max())) == Err::<i128, CastError>(
            CastError::OutOfRange,
        ),
{
}

proof fn lemma_scaled_is_same_magnitude(m: nat, k: int, n: nat)
    requires
        scaled_magnitude(m, k) == Some(n),
    ensures
        same_magnitude(m, k, n, 0),
{
    let l = if k <= 0 { k } else { 0 };
    lemma_scaled_magnitude_at(m, k, l);
    lemma_same_magnitude_at(m, k, n, 0, l);
    let x = m * pow2((k - l) as nat);
    let d = pow2((-l) as nat);
    lemma_pow2_pos((-l) as nat);
    lemma_fundamental_div_mod(x as int, d as int);
}

/// The whole number an `f64` stands for is exactly the number its sign, significand and
/// scale make: an `f64` stands for `n` just when it is finite, its magnitude is `|n|`, and
/// (for a nonzero `n`) its sign is that of `n`.
pub proof fn law_f64_integer_value_exact(d: u64, n: int)
    ensures
        f64_integer_value(d) == Some(n) <==> {
            &&& f64_is_finite(d)
            &&& same_magnitude(f64_significand(d), f64_scale(d), abs_int(n), 0)
            &&& n != 0 ==> f64_sign_bit(d) == (n < 0)
        },
{
    if f64_is_finite(d) {
        if same_magnitude(f64_significand(d), f64_scale(d), abs_int(n), 0) {
            lemma_scaled_magnitude_same(f64_significand(d), f64_scale(d), abs_int(n), 0);
            lemma_pow2_values();
            assert(abs_int(n) * pow2(0) == abs_int(n)) by (nonlinear_arith)
                requires
                    pow2(0) == 1,
            ;
        }
        if f64_integer_value(d) == Some(n) {
            let m = scaled_magnitude(f64_significand(d), f64_scale(d))->Some_0;
            lemma_scaled_is_same_magnitude(f64_significand(d), f64_scale(d), m);
        }
    }
}

/// The whole number an `f32` stands for is exactly the number its sign, significand and
/// scale make: an `f32` stands for `n` just when it is finite, its magnitude is `|n|`, and
/// (for a nonzero `n`) its sign is that of `n`.
pub proof fn law_f32_integer_value_exact(b: u32, n: int)
    ensures
        f32_integer_value(b) == Some(n) <==> {
            &&& f32_is_finite(b)
            &&& same_magnitude(f32_significand(b), f32_scale(b), abs_int(n), 0)
            &&& n != 0 ==> f32_sign_bit(b) == (n < 0)
        },
{
    if f32_is_finite(b) {
        if same_magnitude(f32_significand(b), f32_scale(b), abs_int(n), 0) {
            lemma_scaled_magnitude_same(f32_significand(b), f32_scale(b), abs_int(n), 0);
            lemma_pow2_values();
            assert(abs_int(n) * pow2(0) == abs_int(n)) by (nonlinear_arith)
                requires
                    pow2(0) == 1,
            ;
        }
        if f32_integer_value(b) == Some(n) {
            let m = scaled_magnitude(f32_significand(b), f32_scale(b))->Some_0;
            lemma_scaled_is_same_magnitude(f32_significand(b), f32_scale(b), m);
        }
    }
}

} // verus!
