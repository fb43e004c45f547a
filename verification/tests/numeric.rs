use serde_valuable::{
    f32_to_i128, f32_to_u128, f64_to_i128, f64_to_u128, value_to_f32, value_to_f64,
    value_to_i128, value_to_u128, CastError, Value, ValueMap,
};

fn f64_of(v: &Value) -> Result<f64, CastError> {
    value_to_f64(v).map(f64::from_bits)
}

fn f32_of(v: &Value) -> Result<f32, CastError> {
    value_to_f32(v).map(f32::from_bits)
}

#[test]
fn integer_targets_edges() {
    assert_eq!(u8::try_from(&Value::U16(255)), Ok(255u8));
    assert_eq!(u8::try_from(&Value::U16(256)), Err(CastError::OutOfRange));
    assert_eq!(i8::try_from(&Value::I64(-128)), Ok(-128i8));
    assert_eq!(i8::try_from(&Value::I64(-129)), Err(CastError::OutOfRange));
    assert_eq!(i16::try_from(&Value::U128(32767)), Ok(32767i16));
    assert_eq!(u32::try_from(&Value::I32(-1)), Err(CastError::OutOfRange));
    assert_eq!(i32::try_from(Value::U32(u32::MAX)), Err(CastError::OutOfRange));
    assert_eq!(u16::try_from(Value::Bool(true)), Err(CastError::NotNumeric));
    assert_eq!(i128::try_from(&Value::U128(u128::MAX)), Err(CastError::OutOfRange));
    assert_eq!(i128::try_from(&Value::U128(i128::MAX as u128)), Ok(i128::MAX));
    assert_eq!(u128::try_from(&Value::I128(-1)), Err(CastError::OutOfRange));
    assert_eq!(value_to_u128(&Value::U8(9)), Ok(9));
    assert_eq!(value_to_i128(&Value::Char('x')), Err(CastError::NotNumeric));
}

#[test]
fn float_to_integer_edges() {
    // Negative zero is the integer zero.
    assert_eq!(u8::try_from(&Value::F64((-0.0f64).to_bits())), Ok(0));
    assert_eq!(f64_to_u128((-0.0f64).to_bits()), Ok(0));
    // The largest whole numbers of each range.
    assert_eq!(f64_to_i128((-(2.0f64.powi(127))).to_bits()), Ok(i128::MIN));
    assert_eq!(f64_to_i128(2.0f64.powi(127).to_bits()), Err(CastError::OutOfRange));
    assert_eq!(f32_to_i128(2.0f32.powi(127).to_bits()), Err(CastError::OutOfRange));
    assert_eq!(f64_to_u128(2.0f64.powi(128).to_bits()), Err(CastError::OutOfRange));
    assert_eq!(f64_to_u128(2.0f64.powi(127).to_bits()), Ok(1u128 << 127));
    assert_eq!(f32_to_u128(f32::MAX.to_bits()), Ok(f32::MAX as u128));
    assert_eq!(f32_to_u128(f32::NEG_INFINITY.to_bits()), Err(CastError::OutOfRange));
    // Subnormal and fractional numbers are not whole.
    assert_eq!(f64_to_i128(f64::from_bits(1).to_bits()), Err(CastError::OutOfRange));
    assert_eq!(f32_to_i128(1.0e-40f32.to_bits()), Err(CastError::OutOfRange));
    assert_eq!(f32_to_i128((-3.0f32).to_bits()), Ok(-3));
    assert_eq!(u8::try_from(&Value::F32(255.0f32.to_bits())), Ok(255));
    assert_eq!(u8::try_from(&Value::F32(256.0f32.to_bits())), Err(CastError::OutOfRange));
    assert_eq!(i64::try_from(&Value::F64(1e300f64.to_bits())), Err(CastError::OutOfRange));
}

#[test]
fn integer_to_f64_exact() {
    assert_eq!(f64_of(&Value::U8(0)), Ok(0.0));
    assert_eq!(value_to_f64(&Value::I8(0)).map(|b| b >> 63), Ok(0));
    assert_eq!(f64_of(&Value::U64(1 << 53)), Ok(9007199254740992.0));
    assert_eq!(f64_of(&Value::U64((1 << 53) + 1)), Err(CastError::OutOfRange));
    assert_eq!(f64_of(&Value::U64((1 << 53) + 2)), Ok(9007199254740994.0));
    // The largest integers of the wide types are not exact in an f64.
    assert_eq!(f64_of(&Value::U64(u64::MAX)), Err(CastError::OutOfRange));
    assert_eq!(f64_of(&Value::I64(i64::MAX)), Err(CastError::OutOfRange));
    assert_eq!(f64_of(&Value::U128(u128::MAX)), Err(CastError::OutOfRange));
    assert_eq!(f64_of(&Value::I128(i128::MAX)), Err(CastError::OutOfRange));
    // Powers of two are exact whatever their size.
    assert_eq!(f64_of(&Value::I64(i64::MIN)), Ok(-9223372036854775808.0));
    assert_eq!(f64_of(&Value::I128(i128::MIN)), Ok(-(2.0f64.powi(127))));
    assert_eq!(f64_of(&Value::U128(1 << 127)), Ok(2.0f64.powi(127)));
    assert_eq!(f64_of(&Value::I16(-300)), Ok(-300.0));
}

#[test]
fn f32_widens_exactly() {
    for x in [0.0f32, -0.0, 1.5, -2.25, 1.0e-45, 1.0e-40, f32::MAX, f32::MIN_POSITIVE, 3.0e38] {
        let d = value_to_f64(&Value::F32(x.to_bits())).unwrap();
        assert_eq!(d, (x as f64).to_bits());
    }
    assert_eq!(f64_of(&Value::F32(f32::INFINITY.to_bits())), Ok(f64::INFINITY));
    assert_eq!(f64_of(&Value::F32(f32::NEG_INFINITY.to_bits())), Ok(f64::NEG_INFINITY));
    assert!(f64_of(&Value::F32(f32::NAN.to_bits())).unwrap().is_nan());
    // The NaN payload moves to the top of the wider fraction.
    assert_eq!(value_to_f64(&Value::F32(0xff80_0001)), Ok(0xfff0_0000_2000_0000));
    assert_eq!(value_to_f64(&Value::F64(0.1f64.to_bits())), Ok(0.1f64.to_bits()));
}

#[test]
fn to_f32_exact_or_error() {
    assert_eq!(f32_of(&Value::F64(0.5f64.to_bits())), Ok(0.5));
    assert_eq!(f32_of(&Value::F64(0.1f64.to_bits())), Err(CastError::OutOfRange));
    assert_eq!(f32_of(&Value::F64(1e300f64.to_bits())), Err(CastError::OutOfRange));
    assert_eq!(f32_of(&Value::F64(1)), Err(CastError::OutOfRange));
    assert_eq!(f32_of(&Value::F64((1.0e-45f32 as f64).to_bits())), Ok(1.0e-45f32));
    assert_eq!(f32_of(&Value::F64(f64::NEG_INFINITY.to_bits())), Ok(f32::NEG_INFINITY));
    assert_eq!(value_to_f32(&Value::F64((-0.0f64).to_bits())), Ok((-0.0f32).to_bits()));
    // A NaN converts to a NaN of the same sign.
    assert!(f32_of(&Value::F64(f64::NAN.to_bits())).unwrap().is_nan());
    let negative_nan = f32_of(&Value::F64((-f64::NAN).to_bits())).unwrap();
    assert!(negative_nan.is_nan() && negative_nan.is_sign_negative());
    // A NaN whose payload sits only in the low bits stays a NaN.
    assert!(f32_of(&Value::F64(0x7ff0_0000_0000_0001)).unwrap().is_nan());
    assert_eq!(value_to_f32(&Value::F32(f32::NAN.to_bits())), Ok(f32::NAN.to_bits()));
    assert_eq!(value_to_f32(&Value::F32(0x7f80_0001)), Ok(0x7f80_0001));
    assert_eq!(value_to_f32(&Value::F32(1.0e-40f32.to_bits())), Ok(1.0e-40f32.to_bits()));
    assert_eq!(f32_of(&Value::U32(1 << 24)), Ok(16777216.0));
    assert_eq!(f32_of(&Value::U32((1 << 24) + 1)), Err(CastError::OutOfRange));
    assert_eq!(f32_of(&Value::I128(i128::MIN)), Ok(-(2.0f32.powi(127))));
    assert_eq!(f32_of(&Value::I8(-5)), Ok(-5.0));
    assert_eq!(value_to_f32(&Value::String("1".into())), Err(CastError::NotNumeric));
}

#[test]
fn integer_float_round_trip() {
    for x in [0i64, 1, -1, 42, -4096, 1 << 53, -(1 << 53), i64::MIN, 123456789] {
        let d = value_to_f64(&Value::I64(x)).unwrap();
        assert_eq!(i64::try_from(&Value::F64(d)), Ok(x));
        assert_eq!(i128::try_from(&Value::F64(d)), i128::try_from(&Value::I64(x)));
        assert_eq!(u32::try_from(&Value::F64(d)), u32::try_from(&Value::I64(x)));
    }
    for x in [0u32, 7, 1 << 24, 65535] {
        let b = value_to_f32(&Value::U32(x)).unwrap();
        assert_eq!(u32::try_from(&Value::F32(b)), Ok(x));
        assert_eq!(i8::try_from(&Value::F32(b)), i8::try_from(&Value::U32(x)));
    }
}

#[test]
fn number_kinds() {
    let all = [
        Value::U8(1),
        Value::I64(-1),
        Value::F32(1.0f32.to_bits()),
        Value::F64(1.0f64.to_bits()),
        Value::Bool(false),
        Value::Unit,
        Value::Char('c'),
    ];
    for v in all.iter() {
        assert_eq!(v.is_integer(), v.is_signed_integer() || v.is_unsigned_integer());
        assert_eq!(v.is_number(), v.is_integer() || v.is_float());
    }
    assert!(Value::U128(0).is_unsigned_integer());
    assert!(!Value::U128(0).is_signed_integer());
    assert!(Value::I16(0).is_signed_integer());
    assert!(Value::F64(0).is_float());
    assert!(!Value::Bytes(vec![]).is_number());
}

#[test]
fn cast_error_messages() {
    assert_eq!(CastError::NotNumeric.message(), "value is not numeric");
    assert_eq!(
        CastError::OutOfRange.message(),
        "value is out of range for the target numeric type"
    );
}

#[test]
fn other_from_impls() {
    assert_eq!(Value::from(()), Value::Unit);
    assert_eq!(Value::from(String::from("s")), Value::String("s".into()));
    assert_eq!(Value::from(vec![1u8, 2]), Value::Bytes(vec![1, 2]));
    assert_eq!(Value::from(vec![Value::Unit]), Value::Sequence(vec![Value::Unit]));
    assert_eq!(
        Value::from([Value::U8(1), Value::U8(2)]),
        Value::Sequence(vec![Value::U8(1), Value::U8(2)])
    );
    assert_eq!(
        Value::from(Some(Value::U8(3))),
        Value::Option(Some(Box::new(Value::U8(3))))
    );
    assert_eq!(Value::from(None::<Value>), Value::Option(None));
    assert_eq!(Value::from(-5i16), Value::I16(-5));
    assert_eq!(Value::from(5u64).as_u64(), Some(5));
    assert_eq!(Value::from(-5i32).as_i32(), Some(-5));
    assert_eq!(Value::F32(2.5f32.to_bits()).as_f32().map(f32::from_bits), Some(2.5));
    assert_eq!(Value::F64(2.5f64.to_bits()).as_f64().map(f64::from_bits), Some(2.5));
    assert_eq!(Value::U8(1).as_f64(), None);
}

#[test]
fn map_accessors() {
    let mut v = Value::from(ValueMap::new());
    v.as_map_mut().unwrap().insert(Value::Char('k'), Value::U8(1));
    v.as_map_mut().unwrap().insert(Value::Char('j'), Value::U8(2));
    // The same key keeps its place and takes the new value.
    v.as_map_mut().unwrap().insert(Value::Char('k'), Value::U8(3));
    let entries = v.as_map().unwrap().entries();
    assert_eq!(entries.len(), 2);
    assert_eq!(entries[0], (Value::Char('k'), Value::U8(3)));
    assert_eq!(entries[1], (Value::Char('j'), Value::U8(2)));
    assert_eq!(v.as_map().unwrap().len(), 2);
    assert_eq!(Value::Unit.as_map(), None);
    let mut u = Value::Unit;
    assert!(u.as_map_mut().is_none());
    assert!(u.as_string_mut().is_none());
    assert!(u.as_option_mut().is_none());
    assert_eq!(u, Value::Unit);
    let mut e = Value::Option(None);
    assert!(matches!(e.as_option_mut(), Some(None)));
}

#[test]
fn map_keys_are_trees() {
    let mut m = ValueMap::new();
    m.push(Value::Sequence(vec![Value::U8(1)]), Value::Unit);
    m.insert(Value::Sequence(vec![Value::U8(1)]), Value::Bool(true));
    m.insert(Value::Sequence(vec![Value::U8(2)]), Value::Bool(false));
    assert_eq!(m.len(), 2);
    assert_eq!(m.entries()[0].1, Value::Bool(true));
}

#[test]
fn clone_and_compare() {
    let mut m = ValueMap::new();
    m.push(Value::String("a".into()), Value::Bytes(vec![1, 2]));
    let v = Value::Sequence(vec![
        Value::newtype(Value::Option(Some(Box::new(Value::I64(-3))))),
        Value::Mapping(m),
        Value::F64(0.5f64.to_bits()),
    ]);
    let w = v.clone();
    assert_eq!(w, v);
    assert!(v.same_tree_as(&w));
    assert!(!v.same_tree_as(&Value::Sequence(vec![])));
    assert!(!Value::Bytes(vec![1]).same_tree_as(&Value::Bytes(vec![2])));
    assert!(!Value::U8(1).same_tree_as(&Value::U16(1)));
}

#[test]
fn map_from_pairs() {
    let m = ValueMap::from_pairs(vec![
        (Value::Char('b'), Value::U8(1)),
        (Value::Char('a'), Value::U8(2)),
        (Value::Char('b'), Value::U8(3)),
        (Value::Sequence(vec![Value::Unit]), Value::U8(4)),
        (Value::Sequence(vec![Value::Unit]), Value::U8(5)),
    ]);
    // Each key once, in the order of its first pair, with the value of its last pair.
    assert_eq!(
        m.entries(),
        &vec![
            (Value::Char('b'), Value::U8(3)),
            (Value::Char('a'), Value::U8(2)),
            (Value::Sequence(vec![Value::Unit]), Value::U8(5)),
        ]
    );
    assert_eq!(ValueMap::from_pairs(vec![]).len(), 0);
}

#[test]
fn clone_keeps_values() {
    let x = Value::newtype(Value::U8(1));
    assert_eq!(Value::newtype(x.clone()), Value::Newtype(Box::new(x.clone())));
    let o = Some(Value::String("s".into()));
    assert_eq!(Value::from(o.clone()).as_option(), Some(o.as_ref()));
    let v = Value::I32(-7);
    assert_eq!(value_to_f64(&v.clone()), value_to_f64(&v));
    assert_eq!(value_to_f32(&v.clone()), value_to_f32(&v));
}
