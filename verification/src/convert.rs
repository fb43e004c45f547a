//! Conversions between [`Value`] and Rust's scalar and collection types.
use vstd::prelude::*;
use vstd::std_specs::convert::FromSpecImpl;
use vstd::std_specs::convert::TryFromSpecImpl;

use crate::ieee::{
    f32_integer_value, f32_scale, f32_significand, f32_to_i128, f32_to_u128,
    f64_integer_value, f64_scale, f64_significand, f64_to_i128, f64_to_u128, i128_max, i128_min,
    integer_in_range, u128_max,
};
use crate::value::{CastError, Value, ValueMap};

use crate::encode::{
    encode_f64, f32_encodes, f32_of_f64, f64_encodes, f64_holds, f64_of_f32,
    lemma_f32_encodes_holds, lemma_f32_holds_f64_holds, lemma_f64_encodes_holds, narrow_f64,
    widen_f32,
};
use crate::exact::{lemma_representable_same_magnitude, lemma_same_magnitude_transitive};

verus! {

// ---------------------------------------------------------------------------
// Into `Value`.
// ---------------------------------------------------------------------------

impl From<bool> for Value {
    fn from(value: bool) -> (r: Self)
        ensures
            r == Value::Bool(value),
    {
        Value::Bool(value)
    }
}

impl FromSpecImpl<bool> for Value {
    open spec fn obeys_from_spec() -> bool {
        true
    }

    open spec fn from_spec(v: bool) -> Value {
        Value::Bool(v)
    }
}

impl From<u8> for Value {
    fn from(value: u8) -> (r: Self)
        ensures
            r == Value::U8(value),
    {
        Value::U8(value)
    }
}

impl FromSpecImpl<u8> for Value {
    open spec fn obeys_from_spec() -> bool {
        true
    }

    open spec fn from_spec(v: u8) -> Value {
        Value::U8(v)
    }
}

impl From<u16> for Value {
    fn from(value: u16) -> (r: Self)
        ensures
            r == Value::U16(value),
    {
        Value::U16(value)
    }
}

impl FromSpecImpl<u16> for Value {
    open spec fn obeys_from_spec() -> bool {
        true
    }

    open spec fn from_spec(v: u16) -> Value {
        Value::U16(v)
    }
}

impl From<u32> for Value {
    fn from(value: u32) -> (r: Self)
        ensures
            r == Value::U32(value),
    {
        Value::U32(value)
    }
}

impl FromSpecImpl<u32> for Value {
    open spec fn obeys_from_spec() -> bool {
        true
    }

    open spec fn from_spec(v: u32) -> Value {
        Value::U32(v)
    }
}

impl From<u64> for Value {
    fn from(value: u64) -> (r: Self)
        ensures
            r == Value::U64(value),
    {
        Value::U64(value)
    }
}

impl FromSpecImpl<u64> for Value {
    open spec fn obeys_from_spec() -> bool {
        true
    }

    open spec fn from_spec(v: u64) -> Value {
        Value::U64(v)
    }
}

impl From<u128> for Value {
    fn from(value: u128) -> (r: Self)
        ensures
            r == Value::U128(value),
    {
        Value::U128(value)
    }
}

impl FromSpecImpl<u128> for Value {
    open spec fn obeys_from_spec() -> bool {
        true
    }

    open spec fn from_spec(v: u128) -> Value {
        Value::U128(v)
    }
}

impl From<i8> for Value {
    fn from(value: i8) -> (r: Self)
        ensures
            r == Value::I8(value),
    {
        Value::I8(value)
    }
}

impl FromSpecImpl<i8> for Value {
    open spec fn obeys_from_spec() -> bool {
        true
    }

    open spec fn from_spec(v: i8) -> Value {
        Value::I8(v)
    }
}

impl From<i16> for Value {
    fn from(value: i16) -> (r: Self)
        ensures
            r == Value::I16(value),
    {
        Value::I16(value)
    }
}

impl FromSpecImpl<i16> for Value {
    open spec fn obeys_from_spec() -> bool {
        true
    }

    open spec fn from_spec(v: i16) -> Value {
        Value::I16(v)
    }
}

impl From<i32> for Value {
    fn from(value: i32) -> (r: Self)
        ensures
            r == Value::I32(value),
    {
        Value::I32(value)
    }
}

impl FromSpecImpl<i32> for Value {
    open spec fn obeys_from_spec() -> bool {
        true
    }

    open spec fn from_spec(v: i32) -> Value {
        Value::I32(v)
    }
}

impl From<i64> for Value {
    fn from(value: i64) -> (r: Self)
        ensures
            r == Value::I64(value),
    {
        Value::I64(value)
    }
}

impl FromSpecImpl<i64> for Value {
    open spec fn obeys_from_spec() -> bool {
        true
    }

    open spec fn from_spec(v: i64) -> Value {
        Value::I64(v)
    }
}

impl From<i128> for Value {
    fn from(value: i128) -> (r: Self)
        ensures
            r == Value::I128(value),
    {
        Value::I128(value)
    }
}

impl FromSpecImpl<i128> for Value {
    open spec fn obeys_from_spec() -> bool {
        true
    }

    open spec fn from_spec(v: i128) -> Value {
        Value::I128(v)
    }
}

impl From<char> for Value {
    fn from(value: char) -> (r: Self)
        ensures
            r == Value::Char(value),
    {
        Value::Char(value)
    }
}

impl FromSpecImpl<char> for Value {
    open spec fn obeys_from_spec() -> bool {
        true
    }

    open spec fn from_spec(v: char) -> Value {
        Value::Char(v)
    }
}

impl From<String> for Value {
    fn from(value: String) -> (r: Self)
        ensures
            r == Value::String(value),
    {
        Value::String(value)
    }
}

impl FromSpecImpl<String> for Value {
    open spec fn obeys_from_spec() -> bool {
        true
    }

    open spec fn from_spec(v: String) -> Value {
        Value::String(v)
    }
}

impl From<Vec<u8>> for Value {
    fn from(value: Vec<u8>) -> (r: Self)
        ensures
            r == Value::Bytes(value),
    {
        Value::Bytes(value)
    }
}

impl FromSpecImpl<Vec<u8>> for Value {
    open spec fn obeys_from_spec() -> bool {
        true
    }

    open spec fn from_spec(v: Vec<u8>) -> Value {
        Value::Bytes(v)
    }
}

impl From<Vec<Value>> for Value {
    fn from(value: Vec<Value>) -> (r: Self)
        ensures
            r == Value::Sequence(value),
    {
        Value::Sequence(value)
    }
}

impl FromSpecImpl<Vec<Value>> for Value {
    open spec fn obeys_from_spec() -> bool {
        true
    }

    open spec fn from_spec(v: Vec<Value>) -> Value {
        Value::Sequence(v)
    }
}

impl From<ValueMap> for Value {
    fn from(value: ValueMap) -> (r: Self)
        ensures
            r == Value::Mapping(value),
    {
        Value::Mapping(value)
    }
}

impl FromSpecImpl<ValueMap> for Value {
    open spec fn obeys_from_spec() -> bool {
        true
    }

    open spec fn from_spec(v: ValueMap) -> Value {
        Value::Mapping(v)
    }
}

impl From<()> for Value {
    fn from(value: ()) -> (r: Self)
        ensures
            r == Value::Unit,
    {
        Value::Unit
    }
}

impl FromSpecImpl<()> for Value {
    open spec fn obeys_from_spec() -> bool {
        true
    }

    open spec fn from_spec(v: ()) -> Value {
        Value::Unit
    }
}

impl From<Option<Value>> for Value {
    fn from(value: Option<Value>) -> (r: Self)
        ensures
            r == Value::Option(
                match value {
                    Some(v) => Some(Box::new(v)),
                    None => None,
                },
            ),
    {
        Value::Option(
            match value {
                Some(v) => Some(Box::new(v)),
                None => None,
            },
        )
    }
}

impl FromSpecImpl<Option<Value>> for Value {
    open spec fn obeys_from_spec() -> bool {
        true
    }

    open spec fn from_spec(v: Option<Value>) -> Value {
        Value::Option(
            match v {
                Some(x) => Some(Box::new(x)),
                None => None,
            },
        )
    }
}

impl From<(Value,)> for Value {
    fn from(value: (Value,)) -> (r: Self)
        ensures
            r is Sequence,
            r->Sequence_0@ == seq![value.0],
    {
        Value::Sequence(vec![value.0])
    }
}

/// The result of this conversion is stated by its own `ensures`, over the view of the
/// vector it builds; there is no spec value of a vector to name here.
impl FromSpecImpl<(Value,)> for Value {
    open spec fn obeys_from_spec() -> bool {
        false
    }

    open spec fn from_spec(v: (Value,)) -> Value {
        Value::Unit
    }
}

impl From<(Value, Value)> for Value {
    fn from(value: (Value, Value)) -> (r: Self)
        ensures
            r is Sequence,
            r->Sequence_0@ == seq![value.0, value.1],
    {
        Value::Sequence(vec![value.0, value.1])
    }
}

/// The result of this conversion is stated by its own `ensures`, over the view of the
/// vector it builds; there is no spec value of a vector to name here.
impl FromSpecImpl<(Value, Value)> for Value {
    open spec fn obeys_from_spec() -> bool {
        false
    }

    open spec fn from_spec(v: (Value, Value)) -> Value {
        Value::Unit
    }
}

impl From<(Value, Value, Value)> for Value {
    fn from(value: (Value, Value, Value)) -> (r: Self)
        ensures
            r is Sequence,
            r->Sequence_0@ == seq![value.0, value.1, value.2],
    {
        Value::Sequence(vec![value.0, value.1, value.2])
    }
}

/// The result of this conversion is stated by its own `ensures`, over the view of the
/// vector it builds; there is no spec value of a vector to name here.
impl FromSpecImpl<(Value, Value, Value)> for Value {
    open spec fn obeys_from_spec() -> bool {
        false
    }

    open spec fn from_spec(v: (Value, Value, Value)) -> Value {
        Value::Unit
    }
}

impl From<(Value, Value, Value, Value)> for Value {
    fn from(value: (Value, Value, Value, Value)) -> (r: Self)
        ensures
            r is Sequence,
            r->Sequence_0@ == seq![value.0, value.1, value.2, value.3],
    {
        Value::Sequence(vec![value.0, value.1, value.2, value.3])
    }
}

/// The result of this conversion is stated by its own `ensures`, over the view of the
/// vector it builds; there is no spec value of a vector to name here.
impl FromSpecImpl<(Value, Value, Value, Value)> for Value {
    open spec fn obeys_from_spec() -> bool {
        false
    }

    open spec fn from_spec(v: (Value, Value, Value, Value)) -> Value {
        Value::Unit
    }
}

impl From<(Value, Value, Value, Value, Value)> for Value {
    fn from(value: (Value, Value, Value, Value, Value)) -> (r: Self)
        ensures
            r is Sequence,
            r->Sequence_0@ == seq![value.0, value.1, value.2, value.3, value.4],
    {
        Value::Sequence(vec![value.0, value.1, value.2, value.3, value.4])
    }
}

/// The result of this conversion is stated by its own `ensures`, over the view of the
/// vector it builds; there is no spec value of a vector to name here.
impl FromSpecImpl<(Value, Value, Value, Value, Value)> for Value {
    open spec fn obeys_from_spec() -> bool {
        false
    }

    open spec fn from_spec(v: (Value, Value, Value, Value, Value)) -> Value {
        Value::Unit
    }
}

impl From<(Value, Value, Value, Value, Value, Value)> for Value {
    fn from(value: (Value, Value, Value, Value, Value, Value)) -> (r: Self)
        ensures
            r is Sequence,
            r->Sequence_0@ == seq![value.0, value.1, value.2, value.3, value.4, value.5],
    {
        Value::Sequence(vec![value.0, value.1, value.2, value.3, value.4, value.5])
    }
}

/// The result of this conversion is stated by its own `ensures`, over the view of the
/// vector it builds; there is no spec value of a vector to name here.
impl FromSpecImpl<(Value, Value, Value, Value, Value, Value)> for Value {
    open spec fn obeys_from_spec() -> bool {
        false
    }

    open spec fn from_spec(v: (Value, Value, Value, Value, Value, Value)) -> Value {
        Value::Unit
    }
}

impl From<(Value, Value, Value, Value, Value, Value, Value)> for Value {
    fn from(value: (Value, Value, Value, Value, Value, Value, Value)) -> (r: Self)
        ensures
            r is Sequence,
            r->Sequence_0@ == seq![value.0, value.1, value.2, value.3, value.4, value.5, value.6],
    {
        Value::Sequence(vec![value.0, value.1, value.2, value.3, value.4, value.5, value.6])
    }
}

/// The result of this conversion is stated by its own `ensures`, over the view of the
/// vector it builds; there is no spec value of a vector to name here.
impl FromSpecImpl<(Value, Value, Value, Value, Value, Value, Value)> for Value {
    open spec fn obeys_from_spec() -> bool {
        false
    }

    open spec fn from_spec(v: (Value, Value, Value, Value, Value, Value, Value)) -> Value {
        Value::Unit
    }
}

impl From<(Value, Value, Value, Value, Value, Value, Value, Value)> for Value {
    fn from(value: (Value, Value, Value, Value, Value, Value, Value, Value)) -> (r: Self)
        ensures
            r is Sequence,
            r->Sequence_0@ == seq![value.0, value.1, value.2, value.3, value.4, value.5, value.6, value.7],
    {
        Value::Sequence(vec![value.0, value.1, value.2, value.3, value.4, value.5, value.6, value.7])
    }
}

/// The result of this conversion is stated by its own `ensures`, over the view of the
/// vector it builds; there is no spec value of a vector to name here.
impl FromSpecImpl<(Value, Value, Value, Value, Value, Value, Value, Value)> for Value {
    open spec fn obeys_from_spec() -> bool {
        false
    }

    open spec fn from_spec(v: (Value, Value, Value, Value, Value, Value, Value, Value)) -> Value {
        Value::Unit
    }
}

/// Move the elements of an array into a new vector, in order
/// (`<Vec<Value> as From<[Value; N]>>::from`).
#[verifier::external_body]
fn array_into_vec<const N: usize>(array: [Value; N]) -> (r: Vec<Value>)
    ensures
        r@ == array@,
{
    Vec::from(array)
}

impl<const N: usize> From<[Value; N]> for Value {
    fn from(value: [Value; N]) -> (r: Self)
        ensures
            r is Sequence,
            r->Sequence_0@ == value@,
    {
        Value::Sequence(array_into_vec(value))
    }
}

/// The result of this conversion is stated by its own `ensures`, over the view of the
/// vector it builds; there is no spec value of a vector to name here.
impl<const N: usize> FromSpecImpl<[Value; N]> for Value {
    open spec fn obeys_from_spec() -> bool {
        false
    }

    open spec fn from_spec(v: [Value; N]) -> Value {
        Value::Unit
    }
}

// ---------------------------------------------------------------------------
// Out of `Value`: the whole number a numeric value stands for.
// ---------------------------------------------------------------------------

/// The whole number that a numeric value stands for: the value of an integer variant,
/// or of a float that is finite and has no fractional part.
pub open spec fn integer_value(v: Value) -> Option<int> {
    match v {
        Value::U8(x) => Some(x as int),
        Value::U16(x) => Some(x as int),
        Value::U32(x) => Some(x as int),
        Value::U64(x) => Some(x as int),
        Value::U128(x) => Some(x as int),
        Value::I8(x) => Some(x as int),
        Value::I16(x) => Some(x as int),
        Value::I32(x) => Some(x as int),
        Value::I64(x) => Some(x as int),
        Value::I128(x) => Some(x as int),
        Value::F32(b) => f32_integer_value(b),
        Value::F64(b) => f64_integer_value(b),
        _ => None,
    }
}

/// What converting a value to an integer type with range `lo..=hi` gives: the value's
/// whole number when there is one in the range; [`CastError::OutOfRange`] for a number
/// without one; [`CastError::NotNumeric`] for any other value.
pub open spec fn cast_to_range(v: Value, lo: int, hi: int) -> Result<int, CastError> {
    if v.spec_is_number() {
        integer_in_range(integer_value(v), lo, hi)
    } else {
        Err(CastError::NotNumeric)
    }
}

/// Convert a numeric [`Value`] to `u128`, returning [`CastError`] on failure.
pub fn value_to_u128(value: &Value) -> (r: Result<u128, CastError>)
    ensures
        r == result_u128(cast_to_range(*value, 0, u128_max())),
{
    match value {
        Value::U8(v) => Ok(*v as u128),
        Value::U16(v) => Ok(*v as u128),
        Value::U32(v) => Ok(*v as u128),
        Value::U64(v) => Ok(*v as u128),
        Value::U128(v) => Ok(*v),
        Value::I8(v) => if *v >= 0 { Ok(*v as u128) } else { Err(CastError::OutOfRange) },
        Value::I16(v) => if *v >= 0 { Ok(*v as u128) } else { Err(CastError::OutOfRange) },
        Value::I32(v) => if *v >= 0 { Ok(*v as u128) } else { Err(CastError::OutOfRange) },
        Value::I64(v) => if *v >= 0 { Ok(*v as u128) } else { Err(CastError::OutOfRange) },
        Value::I128(v) => if *v >= 0 { Ok(*v as u128) } else { Err(CastError::OutOfRange) },
        Value::F32(v) => f32_to_u128(*v),
        Value::F64(v) => f64_to_u128(*v),
        _ => Err(CastError::NotNumeric),
    }
}

/// Convert a numeric [`Value`] to `i128`, returning [`CastError`] on failure.
pub fn value_to_i128(value: &Value) -> (r: Result<i128, CastError>)
    ensures
        r == result_i128(cast_to_range(*value, i128_min(), i128_max())),
{
    match value {
        Value::U8(v) => Ok(*v as i128),
        Value::U16(v) => Ok(*v as i128),
        Value::U32(v) => Ok(*v as i128),
        Value::U64(v) => Ok(*v as i128),
        Value::U128(v) => if *v <= 0x7fff_ffff_ffff_ffff_ffff_ffff_ffff_ffff {
            Ok(*v as i128)
        } else {
            Err(CastError::OutOfRange)
        },
        Value::I8(v) => Ok(*v as i128),
        Value::I16(v) => Ok(*v as i128),
        Value::I32(v) => Ok(*v as i128),
        Value::I64(v) => Ok(*v as i128),
        Value::I128(v) => Ok(*v),
        Value::F32(v) => f32_to_i128(*v),
        Value::F64(v) => f64_to_i128(*v),
        _ => Err(CastError::NotNumeric),
    }
}

// ---------------------------------------------------------------------------
// Out of `Value`: floating-point numbers.
// ---------------------------------------------------------------------------

/// The absolute value of an integer.
pub open spec fn abs_int(x: int) -> nat {
    if x < 0 {
        (-x) as nat
    } else {
        x as nat
    }
}

/// `d` is the `f64` that a numeric value converts to: for an integer, the `f64` of
/// exactly that value (`+0.0` for zero); for an `f32`, the `f64` it widens to (see
/// [`f64_of_f32`]); for an `f64`, itself.
pub open spec fn is_f64_of(v: Value, d: u64) -> bool {
    if v.spec_is_integer() {
        let x = integer_value(v)->Some_0;
        f64_encodes(d, x < 0, abs_int(x), 0)
    } else {
        match v {
            Value::F32(c) => f64_of_f32(c, d),
            Value::F64(e) => d == e,
            _ => false,
        }
    }
}

/// `b` is the `f32` that a numeric value converts to: for an integer, the `f32` of
/// exactly that value (`+0.0` for zero); for an `f32`, itself; for an `f64`, the `f32` it
/// narrows to (see [`f32_of_f64`]).
pub open spec fn is_f32_of(v: Value, b: u32) -> bool {
    if v.spec_is_integer() {
        let x = integer_value(v)->Some_0;
        f32_encodes(b, x < 0, abs_int(x), 0)
    } else {
        match v {
            Value::F32(c) => b == c,
            Value::F64(e) => f32_of_f64(e, b),
            _ => false,
        }
    }
}

/// The magnitude of an `i128`.
fn magnitude_i128(x: i128) -> (r: u128)
    ensures
        r as nat == abs_int(x as int),
{
    if x < 0 {
        ((-(x + 1)) as u128) + 1
    } else {
        x as u128
    }
}

/// The `f64` of exactly the integer `(-1)^negative * magnitude`.
fn integer_to_f64(negative: bool, magnitude: u128) -> (r: Result<u64, CastError>)
    ensures
        r is Ok <==> f64_holds(magnitude as nat, 0),
        match r {
            Ok(d) => f64_encodes(d, negative, magnitude as nat, 0),
            Err(e) => e == CastError::OutOfRange && forall|d: u64|
                !f64_encodes(d, negative, magnitude as nat, 0),
        },
{
    match encode_f64(negative, magnitude, 0) {
        Some(d) => Ok(d),
        None => {
            proof {
                assert forall|d: u64| !f64_encodes(d, negative, magnitude as nat, 0) by {
                    if f64_encodes(d, negative, magnitude as nat, 0) {
                        lemma_f64_encodes_holds(d, negative, magnitude as nat, 0);
                    }
                }
            }
            Err(CastError::OutOfRange)
        },
    }
}

/// Convert a numeric [`Value`] to an `f64`, given by its bit pattern, returning
/// [`CastError`] on failure.
///
/// Integers that cannot be represented exactly in an `f64` yield [`CastError::OutOfRange`].
pub fn value_to_f64(value: &Value) -> (r: Result<u64, CastError>)
    ensures
        !value.spec_is_number() ==> r == Err::<u64, CastError>(CastError::NotNumeric),
        value.spec_is_number() ==> match r {
            Ok(d) => is_f64_of(*value, d),
            Err(e) => e == CastError::OutOfRange && forall|d: u64| !is_f64_of(*value, d),
        },
        value.spec_is_integer() ==> (r is Ok <==> f64_holds(
            abs_int(integer_value(*value)->Some_0),
            0,
        )),
        value.spec_is_float() ==> r is Ok,
{
    match value {
        Value::U8(v) => integer_to_f64(false, *v as u128),
        Value::U16(v) => integer_to_f64(false, *v as u128),
        Value::U32(v) => integer_to_f64(false, *v as u128),
        Value::U64(v) => integer_to_f64(false, *v as u128),
        Value::U128(v) => integer_to_f64(false, *v),
        Value::I8(v) => integer_to_f64(*v < 0, magnitude_i128(*v as i128)),
        Value::I16(v) => integer_to_f64(*v < 0, magnitude_i128(*v as i128)),
        Value::I32(v) => integer_to_f64(*v < 0, magnitude_i128(*v as i128)),
        Value::I64(v) => integer_to_f64(*v < 0, magnitude_i128(*v as i128)),
        Value::I128(v) => integer_to_f64(*v < 0, magnitude_i128(*v)),
        Value::F32(v) => Ok(widen_f32(*v)),
        Value::F64(v) => Ok(*v),
        _ => Err(CastError::NotNumeric),
    }
}

/// Convert a numeric [`Value`] to an `f32`, given by its bit pattern, returning
/// [`CastError`] on failure.
///
/// An `f32` converts to itself. Any other value is first converted to an `f64`; that `f64`
/// converts when an `f32` holds it exactly, and a NaN converts to a NaN.
pub fn value_to_f32(value: &Value) -> (r: Result<u32, CastError>)
    ensures
        !value.spec_is_number() ==> r == Err::<u32, CastError>(CastError::NotNumeric),
        value.spec_is_number() ==> match r {
            Ok(b) => is_f32_of(*value, b),
            Err(e) => e == CastError::OutOfRange && forall|b: u32| !is_f32_of(*value, b),
        },
{
    if let Value::F32(c) = value {
        return Ok(*c);
    }
    match value_to_f64(value) {
        Err(e) => {
            proof {
                if value.spec_is_integer() {
                    let x = integer_value(*value)->Some_0;
                    assert forall|b: u32| !is_f32_of(*value, b) by {
                        if is_f32_of(*value, b) {
                            lemma_f32_encodes_holds(b, x < 0, abs_int(x), 0);
                            lemma_f32_holds_f64_holds(abs_int(x), 0);
                        }
                    }
                }
            }
            Err(e)
        },
        Ok(d) => {
            let r = narrow_f64(d);
            proof {
                if value.spec_is_integer() {
                    let x = integer_value(*value)->Some_0;
                    lemma_representable_same_magnitude(
                        f64_significand(d),
                        f64_scale(d),
                        abs_int(x),
                        0,
                        24,
                        -149,
                        127,
                    );
                    if let Some(b) = r {
                        lemma_same_magnitude_transitive(
                            f32_significand(b),
                            f32_scale(b),
                            f64_significand(d),
                            f64_scale(d),
                            abs_int(x),
                            0,
                        );
                    } else {
                        assert forall|b: u32| !is_f32_of(*value, b) by {
                            if is_f32_of(*value, b) {
                                lemma_f32_encodes_holds(b, x < 0, abs_int(x), 0);
                            }
                        }
                    }
                }
            }
            match r {
                Some(b) => Ok(b),
                None => Err(CastError::OutOfRange),
            }
        },
    }
}

// ---------------------------------------------------------------------------
// Checked conversions to each integer type.
// ---------------------------------------------------------------------------

/// A checked result at `u8`.
pub open spec fn result_u8(r: Result<int, CastError>) -> Result<u8, CastError> {
    match r {
        Ok(n) => Ok(n as u8),
        Err(e) => Err(e),
    }
}

impl<'a> TryFrom<&'a Value> for u8 {
    type Error = CastError;

    fn try_from(value: &'a Value) -> (r: Result<Self, Self::Error>)
        ensures
            r == result_u8(cast_to_range(*value, 0, 0xff)),
    {
        match value_to_u128(value) {
            Ok(n) => if n <= 0xff {
                Ok(n as u8)
            } else {
                Err(CastError::OutOfRange)
            },
            Err(e) => Err(e),
        }
    }
}

impl<'a> TryFromSpecImpl<&'a Value> for u8 {
    open spec fn obeys_try_from_spec() -> bool {
        true
    }

    open spec fn try_from_spec(v: &'a Value) -> Result<u8, CastError> {
        result_u8(cast_to_range(*v, 0, 0xff))
    }
}

impl TryFrom<Value> for u8 {
    type Error = CastError;

    fn try_from(value: Value) -> (r: Result<Self, Self::Error>)
        ensures
            r == result_u8(cast_to_range(value, 0, 0xff)),
    {
        <u8>::try_from(&value)
    }
}

impl TryFromSpecImpl<Value> for u8 {
    open spec fn obeys_try_from_spec() -> bool {
        true
    }

    open spec fn try_from_spec(v: Value) -> Result<u8, CastError> {
        result_u8(cast_to_range(v, 0, 0xff))
    }
}

/// A checked result at `u16`.
pub open spec fn result_u16(r: Result<int, CastError>) -> Result<u16, CastError> {
    match r {
        Ok(n) => Ok(n as u16),
        Err(e) => Err(e),
    }
}

impl<'a> TryFrom<&'a Value> for u16 {
    type Error = CastError;

    fn try_from(value: &'a Value) -> (r: Result<Self, Self::Error>)
        ensures
            r == result_u16(cast_to_range(*value, 0, 0xffff)),
    {
        match value_to_u128(value) {
            Ok(n) => if n <= 0xffff {
                Ok(n as u16)
            } else {
                Err(CastError::OutOfRange)
            },
            Err(e) => Err(e),
        }
    }
}

impl<'a> TryFromSpecImpl<&'a Value> for u16 {
    open spec fn obeys_try_from_spec() -> bool {
        true
    }

    open spec fn try_from_spec(v: &'a Value) -> Result<u16, CastError> {
        result_u16(cast_to_range(*v, 0, 0xffff))
    }
}

impl TryFrom<Value> for u16 {
    type Error = CastError;

    fn try_from(value: Value) -> (r: Result<Self, Self::Error>)
        ensures
            r == result_u16(cast_to_range(value, 0, 0xffff)),
    {
        <u16>::try_from(&value)
    }
}

impl TryFromSpecImpl<Value> for u16 {
    open spec fn obeys_try_from_spec() -> bool {
        true
    }

    open spec fn try_from_spec(v: Value) -> Result<u16, CastError> {
        result_u16(cast_to_range(v, 0, 0xffff))
    }
}

/// A checked result at `u32`.
pub open spec fn result_u32(r: Result<int, CastError>) -> Result<u32, CastError> {
    match r {
        Ok(n) => Ok(n as u32),
        Err(e) => Err(e),
    }
}

impl<'a> TryFrom<&'a Value> for u32 {
    type Error = CastError;

    fn try_from(value: &'a Value) -> (r: Result<Self, Self::Error>)
        ensures
            r == result_u32(cast_to_range(*value, 0, 0xffff_ffff)),
    {
        match value_to_u128(value) {
            Ok(n) => if n <= 0xffff_ffff {
                Ok(n as u32)
            } else {
                Err(CastError::OutOfRange)
            },
            Err(e) => Err(e),
        }
    }
}

impl<'a> TryFromSpecImpl<&'a Value> for u32 {
    open spec fn obeys_try_from_spec() -> bool {
        true
    }

    open spec fn try_from_spec(v: &'a Value) -> Result<u32, CastError> {
        result_u32(cast_to_range(*v, 0, 0xffff_ffff))
    }
}

impl TryFrom<Value> for u32 {
    type Error = CastError;

    fn try_from(value: Value) -> (r: Result<Self, Self::Error>)
        ensures
            r == result_u32(cast_to_range(value, 0, 0xffff_ffff)),
    {
        <u32>::try_from(&value)
    }
}

impl TryFromSpecImpl<Value> for u32 {
    open spec fn obeys_try_from_spec() -> bool {
        true
    }

    open spec fn try_from_spec(v: Value) -> Result<u32, CastError> {
        result_u32(cast_to_range(v, 0, 0xffff_ffff))
    }
}

/// A checked result at `u64`.
pub open spec fn result_u64(r: Result<int, CastError>) -> Result<u64, CastError> {
    match r {
        Ok(n) => Ok(n as u64),
        Err(e) => Err(e),
    }
}

impl<'a> TryFrom<&'a Value> for u64 {
    type Error = CastError;

    fn try_from(value: &'a Value) -> (r: Result<Self, Self::Error>)
        ensures
            r == result_u64(cast_to_range(*value, 0, 0xffff_ffff_ffff_ffff)),
    {
        match value_to_u128(value) {
            Ok(n) => if n <= 0xffff_ffff_ffff_ffff {
                Ok(n as u64)
            } else {
                Err(CastError::OutOfRange)
            },
            Err(e) => Err(e),
        }
    }
}

impl<'a> TryFromSpecImpl<&'a Value> for u64 {
    open spec fn obeys_try_from_spec() -> bool {
        true
    }

    open spec fn try_from_spec(v: &'a Value) -> Result<u64, CastError> {
        result_u64(cast_to_range(*v, 0, 0xffff_ffff_ffff_ffff))
    }
}

impl TryFrom<Value> for u64 {
    type Error = CastError;

    fn try_from(value: Value) -> (r: Result<Self, Self::Error>)
        ensures
            r == result_u64(cast_to_range(value, 0, 0xffff_ffff_ffff_ffff)),
    {
        <u64>::try_from(&value)
    }
}

impl TryFromSpecImpl<Value> for u64 {
    open spec fn obeys_try_from_spec() -> bool {
        true
    }

    open spec fn try_from_spec(v: Value) -> Result<u64, CastError> {
        result_u64(cast_to_range(v, 0, 0xffff_ffff_ffff_ffff))
    }
}

/// A checked result at `usize`.
pub open spec fn result_usize(r: Result<int, CastError>) -> Result<usize, CastError> {
    match r {
        Ok(n) => Ok(n as usize),
        Err(e) => Err(e),
    }
}

impl<'a> TryFrom<&'a Value> for usize {
    type Error = CastError;

    fn try_from(value: &'a Value) -> (r: Result<Self, Self::Error>)
        ensures
            r == result_usize(cast_to_range(*value, 0, usize::MAX as int)),
    {
        match value_to_u128(value) {
            Ok(n) => if n <= usize::MAX as u128 {
                Ok(n as usize)
            } else {
                Err(CastError::OutOfRange)
            },
            Err(e) => Err(e),
        }
    }
}

impl<'a> TryFromSpecImpl<&'a Value> for usize {
    open spec fn obeys_try_from_spec() -> bool {
        true
    }

    open spec fn try_from_spec(v: &'a Value) -> Result<usize, CastError> {
        result_usize(cast_to_range(*v, 0, usize::MAX as int))
    }
}

impl TryFrom<Value> for usize {
    type Error = CastError;

    fn try_from(value: Value) -> (r: Result<Self, Self::Error>)
        ensures
            r == result_usize(cast_to_range(value, 0, usize::MAX as int)),
    {
        <usize>::try_from(&value)
    }
}

impl TryFromSpecImpl<Value> for usize {
    open spec fn obeys_try_from_spec() -> bool {
        true
    }

    open spec fn try_from_spec(v: Value) -> Result<usize, CastError> {
        result_usize(cast_to_range(v, 0, usize::MAX as int))
    }
}

/// A checked result at `u128`.
pub open spec fn result_u128(r: Result<int, CastError>) -> Result<u128, CastError> {
    match r {
        Ok(n) => Ok(n as u128),
        Err(e) => Err(e),
    }
}

impl<'a> TryFrom<&'a Value> for u128 {
    type Error = CastError;

    fn try_from(value: &'a Value) -> (r: Result<Self, Self::Error>)
        ensures
            r == result_u128(cast_to_range(*value, 0, u128_max())),
    {
        match value_to_u128(value) {
            Ok(n) => Ok(n),
            Err(e) => Err(e),
        }
    }
}

impl<'a> TryFromSpecImpl<&'a Value> for u128 {
    open spec fn obeys_try_from_spec() -> bool {
        true
    }

    open spec fn try_from_spec(v: &'a Value) -> Result<u128, CastError> {
        result_u128(cast_to_range(*v, 0, u128_max()))
    }
}

impl TryFrom<Value> for u128 {
    type Error = CastError;

    fn try_from(value: Value) -> (r: Result<Self, Self::Error>)
        ensures
            r == result_u128(cast_to_range(value, 0, u128_max())),
    {
        <u128>::try_from(&value)
    }
}

impl TryFromSpecImpl<Value> for u128 {
    open spec fn obeys_try_from_spec() -> bool {
        true
    }

    open spec fn try_from_spec(v: Value) -> Result<u128, CastError> {
        result_u128(cast_to_range(v, 0, u128_max()))
    }
}

/// A checked result at `i8`.
pub open spec fn result_i8(r: Result<int, CastError>) -> Result<i8, CastError> {
    match r {
        Ok(n) => Ok(n as i8),
        Err(e) => Err(e),
    }
}

impl<'a> TryFrom<&'a Value> for i8 {
    type Error = CastError;

    fn try_from(value: &'a Value) -> (r: Result<Self, Self::Error>)
        ensures
            r == result_i8(cast_to_range(*value, -0x80, 0x7f)),
    {
        match value_to_i128(value) {
            Ok(n) => if -0x80 <= n && n <= 0x7f {
                Ok(n as i8)
            } else {
                Err(CastError::OutOfRange)
            },
            Err(e) => Err(e),
        }
    }
}

impl<'a> TryFromSpecImpl<&'a Value> for i8 {
    open spec fn obeys_try_from_spec() -> bool {
        true
    }

    open spec fn try_from_spec(v: &'a Value) -> Result<i8, CastError> {
        result_i8(cast_to_range(*v, -0x80, 0x7f))
    }
}

impl TryFrom<Value> for i8 {
    type Error = CastError;

    fn try_from(value: Value) -> (r: Result<Self, Self::Error>)
        ensures
            r == result_i8(cast_to_range(value, -0x80, 0x7f)),
    {
        <i8>::try_from(&value)
    }
}

impl TryFromSpecImpl<Value> for i8 {
    open spec fn obeys_try_from_spec() -> bool {
        true
    }

    open spec fn try_from_spec(v: Value) -> Result<i8, CastError> {
        result_i8(cast_to_range(v, -0x80, 0x7f))
    }
}

/// A checked result at `i16`.
pub open spec fn result_i16(r: Result<int, CastError>) -> Result<i16, CastError> {
    match r {
        Ok(n) => Ok(n as i16),
        Err(e) => Err(e),
    }
}

impl<'a> TryFrom<&'a Value> for i16 {
    type Error = CastError;

    fn try_from(value: &'a Value) -> (r: Result<Self, Self::Error>)
        ensures
            r == result_i16(cast_to_range(*value, -0x8000, 0x7fff)),
    {
        match value_to_i128(value) {
            Ok(n) => if -0x8000 <= n && n <= 0x7fff {
                Ok(n as i16)
            } else {
                Err(CastError::OutOfRange)
            },
            Err(e) => Err(e),
        }
    }
}

impl<'a> TryFromSpecImpl<&'a Value> for i16 {
    open spec fn obeys_try_from_spec() -> bool {
        true
    }

    open spec fn try_from_spec(v: &'a Value) -> Result<i16, CastError> {
        result_i16(cast_to_range(*v, -0x8000, 0x7fff))
    }
}

impl TryFrom<Value> for i16 {
    type Error = CastError;

    fn try_from(value: Value) -> (r: Result<Self, Self::Error>)
        ensures
            r == result_i16(cast_to_range(value, -0x8000, 0x7fff)),
    {
        <i16>::try_from(&value)
    }
}

impl TryFromSpecImpl<Value> for i16 {
    open spec fn obeys_try_from_spec() -> bool {
        true
    }

    open spec fn try_from_spec(v: Value) -> Result<i16, CastError> {
        result_i16(cast_to_range(v, -0x8000, 0x7fff))
    }
}

/// A checked result at `i32`.
pub open spec fn result_i32(r: Result<int, CastError>) -> Result<i32, CastError> {
    match r {
        Ok(n) => Ok(n as i32),
        Err(e) => Err(e),
    }
}

impl<'a> TryFrom<&'a Value> for i32 {
    type Error = CastError;

    fn try_from(value: &'a Value) -> (r: Result<Self, Self::Error>)
        ensures
            r == result_i32(cast_to_range(*value, -0x8000_0000, 0x7fff_ffff)),
    {
        match value_to_i128(value) {
            Ok(n) => if -0x8000_0000 <= n && n <= 0x7fff_ffff {
                Ok(n as i32)
            } else {
                Err(CastError::OutOfRange)
            },
            Err(e) => Err(e),
        }
    }
}

impl<'a> TryFromSpecImpl<&'a Value> for i32 {
    open spec fn obeys_try_from_spec() -> bool {
        true
    }

    open spec fn try_from_spec(v: &'a Value) -> Result<i32, CastError> {
        result_i32(cast_to_range(*v, -0x8000_0000, 0x7fff_ffff))
    }
}

impl TryFrom<Value> for i32 {
    type Error = CastError;

    fn try_from(value: Value) -> (r: Result<Self, Self::Error>)
        ensures
            r == result_i32(cast_to_range(value, -0x8000_0000, 0x7fff_ffff)),
    {
        <i32>::try_from(&value)
    }
}

impl TryFromSpecImpl<Value> for i32 {
    open spec fn obeys_try_from_spec() -> bool {
        true
    }

    open spec fn try_from_spec(v: Value) -> Result<i32, CastError> {
        result_i32(cast_to_range(v, -0x8000_0000, 0x7fff_ffff))
    }
}

/// A checked result at `i64`.
pub open spec fn result_i64(r: Result<int, CastError>) -> Result<i64, CastError> {
    match r {
        Ok(n) => Ok(n as i64),
        Err(e) => Err(e),
    }
}

impl<'a> TryFrom<&'a Value> for i64 {
    type Error = CastError;

    fn try_from(value: &'a Value) -> (r: Result<Self, Self::Error>)
        ensures
            r == result_i64(cast_to_range(*value, -0x8000_0000_0000_0000, 0x7fff_ffff_ffff_ffff)),
    {
        match value_to_i128(value) {
            Ok(n) => if -0x8000_0000_0000_0000 <= n && n <= 0x7fff_ffff_ffff_ffff {
                Ok(n as i64)
            } else {
                Err(CastError::OutOfRange)
            },
            Err(e) => Err(e),
        }
    }
}

impl<'a> TryFromSpecImpl<&'a Value> for i64 {
    open spec fn obeys_try_from_spec() -> bool {
        true
    }

    open spec fn try_from_spec(v: &'a Value) -> Result<i64, CastError> {
        result_i64(cast_to_range(*v, -0x8000_0000_0000_0000, 0x7fff_ffff_ffff_ffff))
    }
}

impl TryFrom<Value> for i64 {
    type Error = CastError;

    fn try_from(value: Value) -> (r: Result<Self, Self::Error>)
        ensures
            r == result_i64(cast_to_range(value, -0x8000_0000_0000_0000, 0x7fff_ffff_ffff_ffff)),
    {
        <i64>::try_from(&value)
    }
}

impl TryFromSpecImpl<Value> for i64 {
    open spec fn obeys_try_from_spec() -> bool {
        true
    }

    open spec fn try_from_spec(v: Value) -> Result<i64, CastError> {
        result_i64(cast_to_range(v, -0x8000_0000_0000_0000, 0x7fff_ffff_ffff_ffff))
    }
}

/// A checked result at `isize`.
pub open spec fn result_isize(r: Result<int, CastError>) -> Result<isize, CastError> {
    match r {
        Ok(n) => Ok(n as isize),
        Err(e) => Err(e),
    }
}

impl<'a> TryFrom<&'a Value> for isize {
    type Error = CastError;

    fn try_from(value: &'a Value) -> (r: Result<Self, Self::Error>)
        ensures
            r == result_isize(cast_to_range(*value, isize::MIN as int, isize::MAX as int)),
    {
        match value_to_i128(value) {
            Ok(n) => if isize::MIN as i128 <= n && n <= isize::MAX as i128 {
                Ok(n as isize)
            } else {
                Err(CastError::OutOfRange)
            },
            Err(e) => Err(e),
        }
    }
}

impl<'a> TryFromSpecImpl<&'a Value> for isize {
    open spec fn obeys_try_from_spec() -> bool {
        true
    }

    open spec fn try_from_spec(v: &'a Value) -> Result<isize, CastError> {
        result_isize(cast_to_range(*v, isize::MIN as int, isize::MAX as int))
    }
}

impl TryFrom<Value> for isize {
    type Error = CastError;

    fn try_from(value: Value) -> (r: Result<Self, Self::Error>)
        ensures
            r == result_isize(cast_to_range(value, isize::MIN as int, isize::MAX as int)),
    {
        <isize>::try_from(&value)
    }
}

impl TryFromSpecImpl<Value> for isize {
    open spec fn obeys_try_from_spec() -> bool {
        true
    }

    open spec fn try_from_spec(v: Value) -> Result<isize, CastError> {
        result_isize(cast_to_range(v, isize::MIN as int, isize::MAX as int))
    }
}

/// A checked result at `i128`.
pub open spec fn result_i128(r: Result<int, CastError>) -> Result<i128, CastError> {
    match r {
        Ok(n) => Ok(n as i128),
        Err(e) => Err(e),
    }
}

impl<'a> TryFrom<&'a Value> for i128 {
    type Error = CastError;

    fn try_from(value: &'a Value) -> (r: Result<Self, Self::Error>)
        ensures
            r == result_i128(cast_to_range(*value, i128_min(), i128_max())),
    {
        match value_to_i128(value) {
            Ok(n) => Ok(n),
            Err(e) => Err(e),
        }
    }
}

impl<'a> TryFromSpecImpl<&'a Value> for i128 {
    open spec fn obeys_try_from_spec() -> bool {
        true
    }

    open spec fn try_from_spec(v: &'a Value) -> Result<i128, CastError> {
        result_i128(cast_to_range(*v, i128_min(), i128_max()))
    }
}

impl TryFrom<Value> for i128 {
    type Error = CastError;

    fn try_from(value: Value) -> (r: Result<Self, Self::Error>)
        ensures
            r == result_i128(cast_to_range(value, i128_min(), i128_max())),
    {
        <i128>::try_from(&value)
    }
}

impl TryFromSpecImpl<Value> for i128 {
    open spec fn obeys_try_from_spec() -> bool {
        true
    }

    open spec fn try_from_spec(v: Value) -> Result<i128, CastError> {
        result_i128(cast_to_range(v, i128_min(), i128_max()))
    }
}

} // verus!
