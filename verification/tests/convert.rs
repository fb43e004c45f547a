use serde_valuable::{value_to_f64, CastError, Value};

#[test]
fn from_scalars() {
    assert_eq!(Value::from(1u8), Value::U8(1));
    assert_eq!(Value::from(true), Value::Bool(true));
    assert_eq!(Value::from('a'), Value::Char('a'));
}

#[test]
fn from_tuple_single() {
    assert_eq!(Value::from((Value::U8(1),)), Value::Sequence(vec![Value::U8(1)]));
}

#[test]
fn from_tuple_mixed() {
    assert_eq!(
        Value::from((Value::U8(1), Value::Char('a'), Value::Bool(true))),
        Value::Sequence(vec![Value::U8(1), Value::Char('a'), Value::Bool(true)])
    );
}

#[test]
fn from_tuple_max() {
    let tuple = (
        Value::U8(0),
        Value::U8(1),
        Value::U8(2),
        Value::U8(3),
        Value::U8(4),
        Value::U8(5),
        Value::U8(6),
        Value::U8(7),
    );
    assert_eq!(
        Value::from(tuple),
        Value::Sequence(vec![
            Value::U8(0),
            Value::U8(1),
            Value::U8(2),
            Value::U8(3),
            Value::U8(4),
            Value::U8(5),
            Value::U8(6),
            Value::U8(7),
        ])
    );
}

#[test]
fn as_copy_scalars() {
    assert_eq!(Value::U8(1).as_u8(), Some(1));
    assert_eq!(Value::Bool(true).as_bool(), Some(true));
    assert_eq!(Value::Char('a').as_char(), Some('a'));
    // Wrong variant returns None.
    assert_eq!(Value::U8(1).as_bool(), None);
    assert_eq!(Value::Unit.as_u8(), None);
}

#[test]
fn u128_i128_roundtrip() {
    let big_u = u128::MAX;
    let big_i = i128::MIN;
    assert_eq!(Value::from(big_u), Value::U128(big_u));
    assert_eq!(Value::from(big_i), Value::I128(big_i));
    assert_eq!(Value::U128(big_u).as_u128(), Some(big_u));
    assert_eq!(Value::I128(big_i).as_i128(), Some(big_i));
    assert_eq!(Value::U128(big_u).as_u64(), None);

    // Back to the integers through the checked conversions.
    assert_eq!(u128::try_from(Value::U128(big_u)), Ok(big_u));
    assert_eq!(i128::try_from(Value::I128(big_i)), Ok(big_i));
}

#[test]
fn cast_integer_targets_from_integers() {
    assert_eq!(u64::try_from(&Value::U8(7)), Ok(7));
    assert_eq!(i64::try_from(&Value::I8(-7)), Ok(-7));
    assert_eq!(u128::try_from(&Value::U64(7)), Ok(7));
    assert_eq!(i128::try_from(&Value::I64(-7)), Ok(-7));
    assert_eq!(usize::try_from(&Value::U32(7)), Ok(7usize));
    assert_eq!(isize::try_from(&Value::I32(-7)), Ok(-7isize));

    // Owned Value also works via TryInto.
    let owned: u64 = Value::U8(7).try_into().unwrap();
    assert_eq!(owned, 7);

    // Sign/range failures
    assert_eq!(u64::try_from(&Value::I8(-1)), Err(CastError::OutOfRange));
    assert_eq!(
        u64::try_from(&Value::U128(u64::MAX as u128 + 1)),
        Err(CastError::OutOfRange)
    );
    assert_eq!(
        i64::try_from(&Value::I128(i64::MAX as i128 + 1)),
        Err(CastError::OutOfRange)
    );

    // Non-numeric values
    assert_eq!(u64::try_from(&Value::Unit), Err(CastError::NotNumeric));
    assert_eq!(
        i128::try_from(&Value::String("x".into())),
        Err(CastError::NotNumeric)
    );
}

#[test]
fn cast_integer_targets_from_floats() {
    // Integral floats succeed
    assert_eq!(u64::try_from(&Value::F64(42.0f64.to_bits())), Ok(42));
    assert_eq!(i64::try_from(&Value::F32((-42.0f32).to_bits())), Ok(-42));
    assert_eq!(u128::try_from(&Value::F64(123.0f64.to_bits())), Ok(123));
    assert_eq!(i128::try_from(&Value::F64((-123.0f64).to_bits())), Ok(-123));

    // Non-integral floats fail
    assert_eq!(
        u64::try_from(&Value::F64(42.5f64.to_bits())),
        Err(CastError::OutOfRange)
    );
    assert_eq!(
        i64::try_from(&Value::F32((-42.25f32).to_bits())),
        Err(CastError::OutOfRange)
    );
    assert_eq!(
        u128::try_from(&Value::F64(0.1f64.to_bits())),
        Err(CastError::OutOfRange)
    );
    assert_eq!(
        i128::try_from(&Value::F32((-0.5f32).to_bits())),
        Err(CastError::OutOfRange)
    );

    // Out-of-range / non-finite floats fail
    assert_eq!(
        u64::try_from(&Value::F64((-1.0f64).to_bits())),
        Err(CastError::OutOfRange)
    );
    assert_eq!(
        i128::try_from(&Value::F64(f64::INFINITY.to_bits())),
        Err(CastError::OutOfRange)
    );
    assert_eq!(
        u128::try_from(&Value::F64(f64::NAN.to_bits())),
        Err(CastError::OutOfRange)
    );
}

#[test]
fn as_str_and_string_mut() {
    let mut v = Value::String("hi".into());
    assert_eq!(v.as_str(), Some("hi"));
    assert_eq!(v.as_string().map(String::as_str), Some("hi"));
    v.as_string_mut().unwrap().push_str(" there");
    assert_eq!(v.as_str(), Some("hi there"));
    assert_eq!(Value::Unit.as_str(), None);
}

#[test]
fn as_seq_mut() {
    let mut v = Value::Sequence(vec![Value::U8(1)]);
    v.as_seq_mut().unwrap().push(Value::U8(2));
    assert_eq!(v.as_seq(), Some(&vec![Value::U8(1), Value::U8(2)]));
    assert_eq!(Value::Unit.as_seq(), None);
}

#[test]
fn as_bytes_mut() {
    let mut v = Value::Bytes(vec![1, 2]);
    v.as_bytes_mut().unwrap().push(3);
    assert_eq!(v.as_bytes(), Some(&vec![1u8, 2, 3]));
}

#[test]
fn as_unit() {
    assert_eq!(Value::Unit.as_unit(), Some(()));
    assert_eq!(Value::U8(1).as_unit(), None);
}

#[test]
fn as_option() {
    let v = Value::Option(Some(Box::new(Value::U8(1))));
    assert_eq!(v.as_option(), Some(Some(&Value::U8(1))));

    let empty = Value::Option(None);
    assert_eq!(empty.as_option(), Some(None));

    assert_eq!(Value::Unit.as_option(), None);

    let mut v = Value::Option(Some(Box::new(Value::U8(1))));
    if let Some(Some(inner)) = v.as_option_mut() {
        *inner = Value::U8(2);
    }
    assert_eq!(v.as_option(), Some(Some(&Value::U8(2))));
}

#[test]
fn as_newtype() {
    let mut v = Value::newtype(Value::U8(1));
    assert_eq!(v.as_newtype(), Some(&Value::U8(1)));
    *v.as_newtype_mut().unwrap() = Value::U8(2);
    assert_eq!(v.as_newtype(), Some(&Value::U8(2)));
    assert_eq!(Value::Unit.as_newtype(), None);
}

#[test]
fn cast_to_f64_via_try_from() {
    assert_eq!(value_to_f64(&Value::F32(1.5f32.to_bits())).map(f64::from_bits), Ok(1.5));
    assert_eq!(value_to_f64(&Value::I32(-7)).map(f64::from_bits), Ok(-7.0));
    // Integer too large to represent exactly in f64.
    assert_eq!(
        value_to_f64(&Value::U128((1u128 << 53) + 1)),
        Err(CastError::OutOfRange)
    );
    assert_eq!(value_to_f64(&Value::Unit), Err(CastError::NotNumeric));
}
