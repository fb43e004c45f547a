use vstd::prelude::*;

verus! {

broadcast use vstd::std_specs::vec::group_vec_axioms;

/// The entries of a [`Value::Mapping`], as key/value pairs; no key occurs twice.
#[derive(Debug, PartialEq)]
pub struct ValueMap {
    entries: Vec<(Value, Value)>,
}

/// Whether no key occurs twice among key/value pairs: no two keys are the same tree.
pub open spec fn has_distinct_keys(entries: Seq<(Value, Value)>) -> bool {
    forall|i: int, j: int|
        0 <= i < entries.len() && 0 <= j < entries.len() && i != j ==> !same_tree(
            #[trigger] entries[i].0,
            #[trigger] entries[j].0,
        )
}

/// `a` and `b` are the same tree: the same variant, with the same scalars, strings and
/// bytes, and contents that are the same trees, element by element and entry by entry.
pub closed spec fn same_tree(a: Value, b: Value) -> bool
    decreases a,
{
    match a {
        Value::String(x) => b is String && b->String_0@ == x@,
        Value::Bytes(x) => b is Bytes && b->Bytes_0@ == x@,
        Value::Option(o) => b is Option && match o {
            None => b->Option_0 is None,
            Some(x) => b->Option_0 is Some && same_tree(*x, *b->Option_0->Some_0),
        },
        Value::Newtype(x) => b is Newtype && same_tree(*x, *b->Newtype_0),
        Value::Sequence(xs) => {
            &&& b is Sequence
            &&& b->Sequence_0@.len() == xs@.len()
            &&& forall|i: int|
                0 <= i < xs@.len() ==> same_tree(#[trigger] xs@[i], b->Sequence_0@[i])
        },
        Value::Mapping(m) => {
            &&& b is Mapping
            &&& b->Mapping_0.entries@.len() == m.entries@.len()
            &&& forall|i: int|
                0 <= i < m.entries@.len() ==> same_tree(
                    #[trigger] m.entries@[i].0,
                    b->Mapping_0.entries@[i].0,
                ) && same_tree(m.entries@[i].1, b->Mapping_0.entries@[i].1)
        },
        _ => a == b,
    }
}

/// The entries after setting `key` to `value`: an entry whose key is the same tree as
/// `key` takes the value and keeps its key and position; otherwise the pair is added at the
/// end.
pub open spec fn inserted(entries: Seq<(Value, Value)>, key: Value, value: Value) -> Seq<
    (Value, Value),
> {
    if exists|i: int| 0 <= i < entries.len() && same_tree(#[trigger] entries[i].0, key) {
        let i = choose|i: int| 0 <= i < entries.len() && same_tree(#[trigger] entries[i].0, key);
        entries.update(i, (entries[i].0, value))
    } else {
        entries.push((key, value))
    }
}

/// The entries after setting each pair of `pairs` in turn, starting from `entries`.
pub open spec fn inserted_all(entries: Seq<(Value, Value)>, pairs: Seq<(Value, Value)>) -> Seq<
    (Value, Value),
>
    decreases pairs.len(),
{
    if pairs.len() == 0 {
        entries
    } else {
        inserted(inserted_all(entries, pairs.drop_last()), pairs.last().0, pairs.last().1)
    }
}

impl View for ValueMap {
    type V = Seq<(Value, Value)>;

    closed spec fn view(&self) -> Seq<(Value, Value)> {
        self.entries@
    }
}

impl ValueMap {
    #[verifier::type_invariant]
    spec fn keys_are_distinct(self) -> bool {
        has_distinct_keys(self.entries@)
    }

    /// An empty map.
    pub fn new() -> (r: ValueMap)
        ensures
            r@ == Seq::<(Value, Value)>::empty(),
    {
        ValueMap { entries: Vec::new() }
    }

    /// The number of entries.
    pub fn len(&self) -> (r: usize)
        ensures
            r == self@.len(),
    {
        self.entries.len()
    }

    /// The key/value pairs, in the order they were added; no key occurs twice.
    pub fn entries(&self) -> (r: &Vec<(Value, Value)>)
        ensures
            r@ == self@,
            has_distinct_keys(self@),
    {
        proof {
            use_type_invariant(self);
        }
        &self.entries
    }

    /// Set the value of `key`: an entry whose key is the same tree as `key` keeps its key and
    /// position and takes the new value; otherwise the entry is added at the end.
    pub fn insert(&mut self, key: Value, value: Value)
        ensures
            forall|i: int|
                0 <= i < old(self)@.len() && same_tree(#[trigger] old(self)@[i].0, key)
                    ==> final(self)@ == old(self)@.update(i, (old(self)@[i].0, value)),
            (forall|i: int| 0 <= i < old(self)@.len() ==> !same_tree(#[trigger] old(self)@[i].0, key))
                ==> final(self)@ == old(self)@.push((key, value)),
            final(self)@ == inserted(old(self)@, key, value),
    {
        proof {
            use_type_invariant(&*self);
        }
        let mut i: usize = 0;
        while i < self.entries.len()
            invariant
                i <= self.entries@.len(),
                self.entries@ == old(self)@,
                has_distinct_keys(self.entries@),
                forall|j: int| 0 <= j < i ==> !same_tree(#[trigger] self.entries@[j].0, key),
            decreases self.entries@.len() - i,
        {
            if self.entries[i].0.same_tree_as(&key) {
                let ghost before = self.entries@;
                proof {
                    assert forall|j: int|
                        0 <= j < before.len() && same_tree(#[trigger] before[j].0, key) implies j
                        == i by {
                        if j != i {
                            lemma_same_tree_symmetric(before[j].0, key);
                            lemma_same_tree_transitive(before[i as int].0, key, before[j].0);
                        }
                    }
                }
                let mut entries = Vec::new();
                std::mem::swap(&mut entries, &mut self.entries);
                let (k, _previous) = entries.remove(i);
                entries.insert(i, (k, value));
                proof {
                    let e = entries@;
                    assert(e =~= before.update(i as int, (before[i as int].0, value)));
                    assert forall|p: int, q: int|
                        0 <= p < e.len() && 0 <= q < e.len() && p != q implies !same_tree(
                        #[trigger] e[p].0,
                        #[trigger] e[q].0,
                    ) by {
                        assert(e[p].0 == before[p].0);
                        assert(e[q].0 == before[q].0);
                        assert(!same_tree(before[p].0, before[q].0));
                    }
                }
                self.entries = entries;
                return;
            }
            i = i + 1;
        }
        self.push(key, value);
    }

    /// The map of the pairs, set in turn: each key once, in the order of its first pair,
    /// holding the value of its last pair.
    pub fn from_pairs(pairs: Vec<(Value, Value)>) -> (r: ValueMap)
        ensures
            r@ == inserted_all(Seq::empty(), pairs@),
            has_distinct_keys(r@),
    {
        let ghost all = pairs@;
        assert(all.len() == pairs.len());
        let mut map = ValueMap::new();
        let mut rest = pairs;
        let mut done: usize = 0;
        while rest.len() > 0
            invariant
                done + rest@.len() == all.len(),
                all.len() <= usize::MAX,
                rest@ == all.subrange(done as int, all.len() as int),
                map@ == inserted_all(Seq::empty(), all.take(done as int)),
            decreases rest@.len(),
        {
            let (key, value) = rest.remove(0);
            proof {
                assert(all.take(done + 1).drop_last() =~= all.take(done as int));
                assert(all.take(done + 1).last() == all[done as int]);
            }
            map.insert(key, value);
            done = done + 1;
            proof {
                assert(rest@ =~= all.subrange(done as int, all.len() as int));
            }
        }
        proof {
            assert(all.take(done as int) =~= all);
        }
        proof {
            use_type_invariant(&map);
        }
        map
    }

    /// Add an entry whose key is not yet in the map.
    pub fn push(&mut self, key: Value, value: Value)
        requires
            forall|i: int| 0 <= i < old(self)@.len() ==> !same_tree(#[trigger] old(self)@[i].0, key),
        ensures
            final(self)@ == old(self)@.push((key, value)),
    {
        proof {
            use_type_invariant(&*self);
        }
        let ghost before = self.entries@;
        let mut entries = Vec::new();
        std::mem::swap(&mut entries, &mut self.entries);
        entries.push((key, value));
        proof {
            let e = entries@;
            assert forall|i: int, j: int|
                0 <= i < e.len() && 0 <= j < e.len() && i != j implies !same_tree(
                #[trigger] e[i].0,
                #[trigger] e[j].0,
            ) by {
                assert(before == old(self)@);
                if i == before.len() {
                    assert(!same_tree(old(self)@[j].0, key));
                    if same_tree(key, before[j].0) {
                        lemma_same_tree_symmetric(key, before[j].0);
                    }
                } else if j == before.len() {
                    assert(!same_tree(old(self)@[i].0, key));
                } else {
                    assert(!same_tree(before[i].0, before[j].0));
                }
            }
        }
        self.entries = entries;
    }
}

/// A captured serialization value tree.
///
/// Floating-point numbers are held by their IEEE 754 bit patterns
/// (`f32::to_bits` and `f64::to_bits`), so that every variant carries plain data.
#[derive(Debug, PartialEq)]
pub enum Value {
    Bool(bool),
    U8(u8),
    U16(u16),
    U32(u32),
    U64(u64),
    U128(u128),
    I8(i8),
    I16(i16),
    I32(i32),
    I64(i64),
    I128(i128),
    /// An `f32`, by its bit pattern.
    F32(u32),
    /// An `f64`, by its bit pattern.
    F64(u64),
    Char(char),
    String(String),
    Unit,
    Option(Option<Box<Value>>),
    Newtype(Box<Value>),
    Sequence(Vec<Value>),
    Mapping(ValueMap),
    Bytes(Vec<u8>),
}

/// Error returned when converting a [`Value`] into a numeric type.
#[derive(Debug, Clone, Copy, PartialEq, Eq, Structural)]
pub enum CastError {
    /// The value was not a numeric variant.
    NotNumeric,
    /// The value was numeric but could not be represented in the target type
    /// (out of range, or a non-integer float when an integer was requested).
    OutOfRange,
}

impl CastError {
    /// The message that describes this error.
    pub fn message(&self) -> (r: &'static str)
        ensures
            r@ == (match *self {
                CastError::NotNumeric => "value is not numeric"@,
                CastError::OutOfRange => "value is out of range for the target numeric type"@,
            }),
    {
        match self {
            CastError::NotNumeric => "value is not numeric",
            CastError::OutOfRange => "value is out of range for the target numeric type",
        }
    }
}

impl Value {
    /// Whether this is a [`Value::F32`] or a [`Value::F64`].
    pub open spec fn spec_is_float(self) -> bool {
        self is F32 || self is F64
    }

    /// Whether this is one of the signed integer variants.
    pub open spec fn spec_is_signed_integer(self) -> bool {
        self is I8 || self is I16 || self is I32 || self is I64 || self is I128
    }

    /// Whether this is one of the unsigned integer variants.
    pub open spec fn spec_is_unsigned_integer(self) -> bool {
        self is U8 || self is U16 || self is U32 || self is U64 || self is U128
    }

    /// Whether this is one of the integer variants.
    pub open spec fn spec_is_integer(self) -> bool {
        ||| self is U8
        ||| self is U16
        ||| self is U32
        ||| self is U64
        ||| self is U128
        ||| self is I8
        ||| self is I16
        ||| self is I32
        ||| self is I64
        ||| self is I128
    }

    /// Whether this is a number: an integer or a float.
    pub open spec fn spec_is_number(self) -> bool {
        self.spec_is_integer() || self.spec_is_float()
    }

    /// Create a new [`Value::Newtype`] variant wrapping the given value.
    pub fn newtype(value: Value) -> (r: Value)
        ensures
            r == Value::Newtype(Box::new(value)),
    {
        Value::Newtype(Box::new(value))
    }

    /// Returns the inner value if this is a [`Value::Bool`], otherwise [`None`].
    pub fn as_bool(&self) -> (r: Option<bool>)
        ensures
            r == (match *self {
                Value::Bool(v) => Some(v),
                _ => None::<bool>,
            }),
    {
        match self {
            Value::Bool(v) => Some(*v),
            _ => None,
        }
    }

    /// Returns the inner value if this is a [`Value::U8`], otherwise [`None`].
    pub fn as_u8(&self) -> (r: Option<u8>)
        ensures
            r == (match *self {
                Value::U8(v) => Some(v),
                _ => None::<u8>,
            }),
    {
        match self {
            Value::U8(v) => Some(*v),
            _ => None,
        }
    }

    /// Returns the inner value if this is a [`Value::U16`], otherwise [`None`].
    pub fn as_u16(&self) -> (r: Option<u16>)
        ensures
            r == (match *self {
                Value::U16(v) => Some(v),
                _ => None::<u16>,
            }),
    {
        match self {
            Value::U16(v) => Some(*v),
            _ => None,
        }
    }

    /// Returns the inner value if this is a [`Value::U32`], otherwise [`None`].
    pub fn as_u32(&self) -> (r: Option<u32>)
        ensures
            r == (match *self {
                Value::U32(v) => Some(v),
                _ => None::<u32>,
            }),
    {
        match self {
            Value::U32(v) => Some(*v),
            _ => None,
        }
    }

    /// Returns the inner value if this is a [`Value::U64`], otherwise [`None`].
    pub fn as_u64(&self) -> (r: Option<u64>)
        ensures
            r == (match *self {
                Value::U64(v) => Some(v),
                _ => None::<u64>,
            }),
    {
        match self {
            Value::U64(v) => Some(*v),
            _ => None,
        }
    }

    /// Returns the inner value if this is a [`Value::U128`], otherwise [`None`].
    pub fn as_u128(&self) -> (r: Option<u128>)
        ensures
            r == (match *self {
                Value::U128(v) => Some(v),
                _ => None::<u128>,
            }),
    {
        match self {
            Value::U128(v) => Some(*v),
            _ => None,
        }
    }

    /// Returns the inner value if this is a [`Value::I8`], otherwise [`None`].
    pub fn as_i8(&self) -> (r: Option<i8>)
        ensures
            r == (match *self {
                Value::I8(v) => Some(v),
                _ => None::<i8>,
            }),
    {
        match self {
            Value::I8(v) => Some(*v),
            _ => None,
        }
    }

    /// Returns the inner value if this is a [`Value::I16`], otherwise [`None`].
    pub fn as_i16(&self) -> (r: Option<i16>)
        ensures
            r == (match *self {
                Value::I16(v) => Some(v),
                _ => None::<i16>,
            }),
    {
        match self {
            Value::I16(v) => Some(*v),
            _ => None,
        }
    }

    /// Returns the inner value if this is a [`Value::I32`], otherwise [`None`].
    pub fn as_i32(&self) -> (r: Option<i32>)
        ensures
            r == (match *self {
                Value::I32(v) => Some(v),
                _ => None::<i32>,
            }),
    {
        match self {
            Value::I32(v) => Some(*v),
            _ => None,
        }
    }

    /// Returns the inner value if this is a [`Value::I64`], otherwise [`None`].
    pub fn as_i64(&self) -> (r: Option<i64>)
        ensures
            r == (match *self {
                Value::I64(v) => Some(v),
                _ => None::<i64>,
            }),
    {
        match self {
            Value::I64(v) => Some(*v),
            _ => None,
        }
    }

    /// Returns the inner value if this is a [`Value::I128`], otherwise [`None`].
    pub fn as_i128(&self) -> (r: Option<i128>)
        ensures
            r == (match *self {
                Value::I128(v) => Some(v),
                _ => None::<i128>,
            }),
    {
        match self {
            Value::I128(v) => Some(*v),
            _ => None,
        }
    }

    /// Returns the inner value if this is a [`Value::F32`], otherwise [`None`].
    ///
    /// The result is the `f32`'s bit pattern.
    pub fn as_f32(&self) -> (r: Option<u32>)
        ensures
            r == (match *self {
                Value::F32(v) => Some(v),
                _ => None::<u32>,
            }),
    {
        match self {
            Value::F32(v) => Some(*v),
            _ => None,
        }
    }

    /// Returns the inner value if this is a [`Value::F64`], otherwise [`None`].
    ///
    /// The result is the `f64`'s bit pattern.
    pub fn as_f64(&self) -> (r: Option<u64>)
        ensures
            r == (match *self {
                Value::F64(v) => Some(v),
                _ => None::<u64>,
            }),
    {
        match self {
            Value::F64(v) => Some(*v),
            _ => None,
        }
    }

    /// Returns the inner value if this is a [`Value::Char`], otherwise [`None`].
    pub fn as_char(&self) -> (r: Option<char>)
        ensures
            r == (match *self {
                Value::Char(v) => Some(v),
                _ => None::<char>,
            }),
    {
        match self {
            Value::Char(v) => Some(*v),
            _ => None,
        }
    }

    /// Returns a reference to the inner value if this is a [`Value::String`], otherwise [`None`].
    pub fn as_string(&self) -> (r: Option<&String>)
        ensures
            r == (match *self {
                Value::String(v) => Some(&v),
                _ => None::<&String>,
            }),
    {
        match self {
            Value::String(v) => Some(v),
            _ => None,
        }
    }

    /// Returns a mutable reference to the inner value if this is a [`Value::String`], otherwise [`None`].
    ///
    /// Whatever is written through the reference becomes the inner value; when this is
    /// another variant, it is left unchanged.
    pub fn as_string_mut(&mut self) -> (r: Option<&mut String>)
        ensures
            r is Some <==> *old(self) is String,
            match r {
                Some(v) => *v == (*old(self))->String_0 && *final(self) == Value::String(*final(v)),
                None => *final(self) == *old(self),
            },
    {
        match self {
            Value::String(v) => Some(v),
            _ => None,
        }
    }

    /// Returns a reference to the inner value if this is a [`Value::Sequence`], otherwise [`None`].
    pub fn as_seq(&self) -> (r: Option<&Vec<Value>>)
        ensures
            r == (match *self {
                Value::Sequence(v) => Some(&v),
                _ => None::<&Vec<Value>>,
            }),
    {
        match self {
            Value::Sequence(v) => Some(v),
            _ => None,
        }
    }

    /// Returns a mutable reference to the inner value if this is a [`Value::Sequence`], otherwise [`None`].
    ///
    /// Whatever is written through the reference becomes the inner value; when this is
    /// another variant, it is left unchanged.
    pub fn as_seq_mut(&mut self) -> (r: Option<&mut Vec<Value>>)
        ensures
            r is Some <==> *old(self) is Sequence,
            match r {
                Some(v) => *v == (*old(self))->Sequence_0 && *final(self) == Value::Sequence(*final(v)),
                None => *final(self) == *old(self),
            },
    {
        match self {
            Value::Sequence(v) => Some(v),
            _ => None,
        }
    }

    /// Returns a reference to the inner value if this is a [`Value::Mapping`], otherwise [`None`].
    pub fn as_map(&self) -> (r: Option<&ValueMap>)
        ensures
            r == (match *self {
                Value::Mapping(v) => Some(&v),
                _ => None::<&ValueMap>,
            }),
    {
        match self {
            Value::Mapping(v) => Some(v),
            _ => None,
        }
    }

    /// Returns a mutable reference to the inner value if this is a [`Value::Mapping`], otherwise [`None`].
    ///
    /// Whatever is written through the reference becomes the inner value; when this is
    /// another variant, it is left unchanged.
    pub fn as_map_mut(&mut self) -> (r: Option<&mut ValueMap>)
        ensures
            r is Some <==> *old(self) is Mapping,
            match r {
                Some(v) => *v == (*old(self))->Mapping_0 && *final(self) == Value::Mapping(*final(v)),
                None => *final(self) == *old(self),
            },
    {
        match self {
            Value::Mapping(v) => Some(v),
            _ => None,
        }
    }

    /// Returns a reference to the inner value if this is a [`Value::Bytes`], otherwise [`None`].
    pub fn as_bytes(&self) -> (r: Option<&Vec<u8>>)
        ensures
            r == (match *self {
                Value::Bytes(v) => Some(&v),
                _ => None::<&Vec<u8>>,
            }),
    {
        match self {
            Value::Bytes(v) => Some(v),
            _ => None,
        }
    }

    /// Returns a mutable reference to the inner value if this is a [`Value::Bytes`], otherwise [`None`].
    ///
    /// Whatever is written through the reference becomes the inner value; when this is
    /// another variant, it is left unchanged.
    pub fn as_bytes_mut(&mut self) -> (r: Option<&mut Vec<u8>>)
        ensures
            r is Some <==> *old(self) is Bytes,
            match r {
                Some(v) => *v == (*old(self))->Bytes_0 && *final(self) == Value::Bytes(*final(v)),
                None => *final(self) == *old(self),
            },
    {
        match self {
            Value::Bytes(v) => Some(v),
            _ => None,
        }
    }

    /// Returns `Some(())` if this is a [`Value::Unit`], otherwise [`None`].
    pub fn as_unit(&self) -> (r: Option<()>)
        ensures
            r is Some <==> *self is Unit,
    {
        match self {
            Value::Unit => Some(()),
            _ => None,
        }
    }

    /// Returns the inner string slice if this is a [`Value::String`], otherwise [`None`].
    pub fn as_str(&self) -> (r: Option<&str>)
        ensures
            r is Some <==> *self is String,
            r matches Some(s) ==> s@ == (*self)->String_0@,
    {
        match self {
            Value::String(v) => Some(v.as_str()),
            _ => None,
        }
    }

    /// Returns a reference to the inner value if this is a [`Value::Option`], otherwise [`None`].
    ///
    /// The outer [`Option`] distinguishes "not a [`Value::Option`]" ([`None`]) from a
    /// [`Value::Option`] holding a value (`Some(Some(_))`) or holding nothing (`Some(None)`).
    pub fn as_option(&self) -> (r: Option<Option<&Value>>)
        ensures
            r == (match *self {
                Value::Option(Some(b)) => Some(Some(&*b)),
                Value::Option(None) => Some(None::<&Value>),
                _ => None::<Option<&Value>>,
            }),
    {
        match self {
            Value::Option(v) => Some(
                match v {
                    Some(b) => Some(&**b),
                    None => None,
                },
            ),
            _ => None,
        }
    }

    /// Returns a mutable reference to the inner value if this is a [`Value::Option`], otherwise [`None`].
    ///
    /// Whatever is written through the inner reference becomes the held value; in every
    /// other case the value is left unchanged.
    pub fn as_option_mut(&mut self) -> (r: Option<Option<&mut Value>>)
        ensures
            r is Some <==> *old(self) is Option,
            match r {
                Some(Some(v)) => {
                    &&& (*old(self))->Option_0 == Some(Box::new(*v))
                    &&& *final(self) == Value::Option(Some(Box::new(*final(v))))
                },
                Some(None) => (*old(self))->Option_0 is None && *final(self) == *old(self),
                None => *final(self) == *old(self),
            },
    {
        match self {
            Value::Option(v) => Some(
                match v {
                    Some(b) => Some(&mut **b),
                    None => None,
                },
            ),
            _ => None,
        }
    }

    /// Returns a reference to the wrapped value if this is a [`Value::Newtype`], otherwise [`None`].
    pub fn as_newtype(&self) -> (r: Option<&Value>)
        ensures
            r == (match *self {
                Value::Newtype(b) => Some(&*b),
                _ => None::<&Value>,
            }),
    {
        match self {
            Value::Newtype(v) => Some(&**v),
            _ => None,
        }
    }

    /// Returns a mutable reference to the wrapped value if this is a [`Value::Newtype`], otherwise [`None`].
    ///
    /// Whatever is written through the reference becomes the wrapped value; when this is
    /// another variant, it is left unchanged.
    pub fn as_newtype_mut(&mut self) -> (r: Option<&mut Value>)
        ensures
            r is Some <==> *old(self) is Newtype,
            match r {
                Some(v) => {
                    &&& (*old(self))->Newtype_0 == Box::new(*v)
                    &&& *final(self) == Value::Newtype(Box::new(*final(v)))
                },
                None => *final(self) == *old(self),
            },
    {
        match self {
            Value::Newtype(v) => Some(&mut **v),
            _ => None,
        }
    }

    /// Whether this value is a floating-point number (either `f32` or `f64`).
    pub fn is_float(&self) -> (r: bool)
        ensures
            r == self.spec_is_float(),
    {
        matches!(self, Value::F32(_) | Value::F64(_))
    }

    /// Whether this value is an integer (any of the signed or unsigned integer types).
    pub fn is_integer(&self) -> (r: bool)
        ensures
            r == self.spec_is_integer(),
    {
        matches!(
            self,
            Value::U8(_) | Value::U16(_) | Value::U32(_) | Value::U64(_) | Value::U128(_)
                | Value::I8(_) | Value::I16(_) | Value::I32(_) | Value::I64(_) | Value::I128(_)
        )
    }

    /// Whether this value is a signed integer (any of the signed integer types).
    pub fn is_signed_integer(&self) -> (r: bool)
        ensures
            r == self.spec_is_signed_integer(),
    {
        matches!(self, Value::I8(_) | Value::I16(_) | Value::I32(_) | Value::I64(_) | Value::I128(_))
    }

    /// Whether this value is an unsigned integer (any of the unsigned integer types).
    pub fn is_unsigned_integer(&self) -> (r: bool)
        ensures
            r == self.spec_is_unsigned_integer(),
    {
        matches!(self, Value::U8(_) | Value::U16(_) | Value::U32(_) | Value::U64(_) | Value::U128(_))
    }

    /// Whether this value is any kind of number (integer or floating-point).
    pub fn is_number(&self) -> (r: bool)
        ensures
            r == self.spec_is_number(),
    {
        self.is_integer() || self.is_float()
    }
}

// ---------------------------------------------------------------------------
// Same trees, and cloning.
// ---------------------------------------------------------------------------

/// Whether no vector occurs in a value: no [`Value::Bytes`], [`Value::Sequence`] or
/// [`Value::Mapping`], at any depth.
pub open spec fn holds_no_vectors(v: Value) -> bool
    decreases v,
{
    match v {
        Value::Bytes(_) | Value::Sequence(_) | Value::Mapping(_) => false,
        Value::Option(Some(x)) => holds_no_vectors(*x),
        Value::Newtype(x) => holds_no_vectors(*x),
        _ => true,
    }
}

/// Whether a value is built of scalars alone: no string and no vector, at any depth.
pub open spec fn holds_scalars_only(v: Value) -> bool
    decreases v,
{
    match v {
        Value::String(_) | Value::Bytes(_) | Value::Sequence(_) | Value::Mapping(_) => false,
        Value::Option(Some(x)) => holds_scalars_only(*x),
        Value::Newtype(x) => holds_scalars_only(*x),
        _ => true,
    }
}

/// What being the same tree means, variant by variant.
pub proof fn lemma_same_tree_unfold(a: Value, b: Value)
    ensures
        same_tree(a, b) == match a {
            Value::String(x) => b is String && b->String_0@ == x@,
            Value::Bytes(x) => b is Bytes && b->Bytes_0@ == x@,
            Value::Option(o) => b is Option && match o {
                None => b->Option_0 is None,
                Some(x) => b->Option_0 is Some && same_tree(*x, *b->Option_0->Some_0),
            },
            Value::Newtype(x) => b is Newtype && same_tree(*x, *b->Newtype_0),
            Value::Sequence(xs) => {
                &&& b is Sequence
                &&& b->Sequence_0@.len() == xs@.len()
                &&& forall|i: int|
                    0 <= i < xs@.len() ==> same_tree(#[trigger] xs@[i], b->Sequence_0@[i])
            },
            Value::Mapping(m) => {
                &&& b is Mapping
                &&& b->Mapping_0@.len() == m@.len()
                &&& forall|i: int|
                    0 <= i < m@.len() ==> same_tree(#[trigger] m@[i].0, b->Mapping_0@[i].0)
                        && same_tree(m@[i].1, b->Mapping_0@[i].1)
            },
            _ => a == b,
        },
{
}

/// Every value is the same tree as itself.
pub proof fn lemma_same_tree_reflexive(a: Value)
    ensures
        same_tree(a, a),
    decreases a,
{
    match a {
        Value::Option(Some(x)) => {
            lemma_same_tree_reflexive(*x);
        },
        Value::Newtype(x) => {
            lemma_same_tree_reflexive(*x);
        },
        Value::Sequence(xs) => {
            assert forall|i: int| 0 <= i < xs@.len() implies same_tree(
                #[trigger] xs@[i],
                xs@[i],
            ) by {
                assert(decreases_to!(a => xs));
                assert(decreases_to!(xs => xs@));
                assert(decreases_to!(xs@ => xs@[i]));
                lemma_same_tree_reflexive(xs@[i]);
            }
        },
        Value::Mapping(m) => {
            assert forall|i: int| 0 <= i < m.entries@.len() implies same_tree(
                #[trigger] m.entries@[i].0,
                m.entries@[i].0,
            ) && same_tree(m.entries@[i].1, m.entries@[i].1) by {
                assert(decreases_to!(a => m));
                assert(decreases_to!(m => m.entries));
                assert(decreases_to!(m.entries => m.entries@));
                assert(decreases_to!(m.entries@ => m.entries@[i]));
                assert(decreases_to!(m.entries@[i] => m.entries@[i].0));
                assert(decreases_to!(m.entries@[i] => m.entries@[i].1));
                lemma_same_tree_reflexive(m.entries@[i].0);
                lemma_same_tree_reflexive(m.entries@[i].1);
            }
        },
        _ => {},
    }
}

/// Values built of scalars alone are the same tree exactly when they are equal.
pub proof fn lemma_same_tree_equal(a: Value, b: Value)
    requires
        holds_scalars_only(a),
    ensures
        same_tree(a, b) <==> a == b,
    decreases a,
{
    lemma_same_tree_reflexive(a);
    match a {
        Value::Option(Some(x)) => {
            if b is Option && b->Option_0 is Some {
                lemma_same_tree_equal(*x, *b->Option_0->Some_0);
            }
        },
        Value::Newtype(x) => {
            if b is Newtype {
                lemma_same_tree_equal(*x, *b->Newtype_0);
            }
        },
        _ => {},
    }
}

/// Being the same tree goes both ways.
pub proof fn lemma_same_tree_symmetric(a: Value, b: Value)
    requires
        same_tree(a, b),
    ensures
        same_tree(b, a),
    decreases a,
{
    match a {
        Value::Option(Some(x)) => {
            lemma_same_tree_symmetric(*x, *b->Option_0->Some_0);
        },
        Value::Newtype(x) => {
            lemma_same_tree_symmetric(*x, *b->Newtype_0);
        },
        Value::Sequence(xs) => {
            let ys = b->Sequence_0;
            assert forall|i: int| 0 <= i < ys@.len() implies same_tree(
                #[trigger] ys@[i],
                xs@[i],
            ) by {
                assert(decreases_to!(a => xs));
                assert(decreases_to!(xs => xs@));
                assert(decreases_to!(xs@ => xs@[i]));
                lemma_same_tree_symmetric(xs@[i], ys@[i]);
            }
        },
        Value::Mapping(m) => {
            let n = b->Mapping_0;
            assert forall|i: int| 0 <= i < n.entries@.len() implies same_tree(
                #[trigger] n.entries@[i].0,
                m.entries@[i].0,
            ) && same_tree(n.entries@[i].1, m.entries@[i].1) by {
                assert(decreases_to!(a => m));
                assert(decreases_to!(m => m.entries));
                assert(decreases_to!(m.entries => m.entries@));
                assert(decreases_to!(m.entries@ => m.entries@[i]));
                assert(decreases_to!(m.entries@[i] => m.entries@[i].0));
                assert(decreases_to!(m.entries@[i] => m.entries@[i].1));
                lemma_same_tree_symmetric(m.entries@[i].0, n.entries@[i].0);
                lemma_same_tree_symmetric(m.entries@[i].1, n.entries@[i].1);
            }
        },
        _ => {},
    }
}

/// Being the same tree chains.
pub proof fn lemma_same_tree_transitive(a: Value, b: Value, c: Value)
    requires
        same_tree(a, b),
        same_tree(b, c),
    ensures
        same_tree(a, c),
    decreases a,
{
    match a {
        Value::Option(Some(x)) => {
            lemma_same_tree_transitive(*x, *b->Option_0->Some_0, *c->Option_0->Some_0);
        },
        Value::Newtype(x) => {
            lemma_same_tree_transitive(*x, *b->Newtype_0, *c->Newtype_0);
        },
        Value::Sequence(xs) => {
            let ys = b->Sequence_0;
            let zs = c->Sequence_0;
            assert forall|i: int| 0 <= i < xs@.len() implies same_tree(
                #[trigger] xs@[i],
                zs@[i],
            ) by {
                assert(decreases_to!(a => xs));
                assert(decreases_to!(xs => xs@));
                assert(decreases_to!(xs@ => xs@[i]));
                assert(same_tree(ys@[i], zs@[i]));
                lemma_same_tree_transitive(xs@[i], ys@[i], zs@[i]);
            }
        },
        Value::Mapping(m) => {
            let n = b->Mapping_0;
            let o = c->Mapping_0;
            assert forall|i: int| 0 <= i < m.entries@.len() implies same_tree(
                #[trigger] m.entries@[i].0,
                o.entries@[i].0,
            ) && same_tree(m.entries@[i].1, o.entries@[i].1) by {
                assert(decreases_to!(a => m));
                assert(decreases_to!(m => m.entries));
                assert(decreases_to!(m.entries => m.entries@));
                assert(decreases_to!(m.entries@ => m.entries@[i]));
                assert(decreases_to!(m.entries@[i] => m.entries@[i].0));
                assert(decreases_to!(m.entries@[i] => m.entries@[i].1));
                assert(same_tree(n.entries@[i].0, o.entries@[i].0));
                lemma_same_tree_transitive(m.entries@[i].0, n.entries@[i].0, o.entries@[i].0);
                lemma_same_tree_transitive(m.entries@[i].1, n.entries@[i].1, o.entries@[i].1);
            }
        },
        _ => {},
    }
}

/// A deep copy of a value.
fn clone_value(v: &Value) -> (r: Value)
    ensures
        same_tree(*v, r),
        holds_no_vectors(*v) ==> r == *v,
    decreases v,
{
    match v {
        Value::Bool(x) => Value::Bool(*x),
        Value::U8(x) => Value::U8(*x),
        Value::U16(x) => Value::U16(*x),
        Value::U32(x) => Value::U32(*x),
        Value::U64(x) => Value::U64(*x),
        Value::U128(x) => Value::U128(*x),
        Value::I8(x) => Value::I8(*x),
        Value::I16(x) => Value::I16(*x),
        Value::I32(x) => Value::I32(*x),
        Value::I64(x) => Value::I64(*x),
        Value::I128(x) => Value::I128(*x),
        Value::F32(x) => Value::F32(*x),
        Value::F64(x) => Value::F64(*x),
        Value::Char(x) => Value::Char(*x),
        Value::Unit => Value::Unit,
        Value::String(x) => Value::String(x.clone()),
        Value::Bytes(x) => {
            let mut out: Vec<u8> = Vec::new();
            let mut i: usize = 0;
            while i < x.len()
                invariant
                    i <= x.len(),
                    out@ == x@.subrange(0, i as int),
                decreases x.len() - i,
            {
                out.push(x[i]);
                i = i + 1;
            }
            assert(out@ == x@);
            Value::Bytes(out)
        },
        Value::Option(o) => match o {
            None => Value::Option(None),
            Some(b) => Value::Option(Some(Box::new(clone_value(&**b)))),
        },
        Value::Newtype(b) => Value::Newtype(Box::new(clone_value(&**b))),
        Value::Sequence(xs) => {
            let mut out: Vec<Value> = Vec::new();
            let mut i: usize = 0;
            while i < xs.len()
                invariant
                    i <= xs.len(),
                    *v is Sequence,
                    (*v)->Sequence_0 == *xs,
                    out@.len() == i,
                    forall|j: int| 0 <= j < i ==> same_tree(#[trigger] xs@[j], out@[j]),
                decreases xs.len() - i,
            {
                proof {
                    assert(decreases_to!(*v => *xs));
                    assert(decreases_to!(*xs => xs@));
                    assert(decreases_to!(xs@ => xs@[i as int]));
                }
                let c = clone_value(&xs[i]);
                out.push(c);
                i = i + 1;
            }
            Value::Sequence(out)
        },
        Value::Mapping(m) => {
            proof {
                assert(decreases_to!(*v => *m));
            }
            Value::Mapping(clone_map(m))
        },
    }
}

/// A deep copy of a map.
fn clone_map(m: &ValueMap) -> (r: ValueMap)
    ensures
        r.entries@.len() == m.entries@.len(),
        forall|i: int|
            0 <= i < m.entries@.len() ==> same_tree(#[trigger] m.entries@[i].0, r.entries@[i].0),
        forall|i: int|
            0 <= i < m.entries@.len() ==> same_tree(#[trigger] m.entries@[i].1, r.entries@[i].1),
    decreases m,
{
    proof {
        use_type_invariant(m);
    }
    let mut out: Vec<(Value, Value)> = Vec::new();
    let mut i: usize = 0;
    while i < m.entries.len()
        invariant
            i <= m.entries@.len(),
            out@.len() == i,
            forall|j: int| 0 <= j < i ==> same_tree(#[trigger] m.entries@[j].0, out@[j].0),
            forall|j: int| 0 <= j < i ==> same_tree(#[trigger] m.entries@[j].1, out@[j].1),
        decreases m.entries@.len() - i,
    {
        proof {
            assert(decreases_to!(*m => m.entries));
            assert(decreases_to!(m.entries => m.entries@));
            assert(decreases_to!(m.entries@ => m.entries@[i as int]));
            assert(decreases_to!(m.entries@[i as int] => m.entries@[i as int].0));
            assert(decreases_to!(m.entries@[i as int] => m.entries@[i as int].1));
        }
        let k = clone_value(&m.entries[i].0);
        let x = clone_value(&m.entries[i].1);
        out.push((k, x));
        i = i + 1;
    }
    proof {
        let e = m.entries@;
        let f = out@;
        assert forall|i: int, j: int|
            0 <= i < f.len() && 0 <= j < f.len() && i != j implies !same_tree(
            #[trigger] f[i].0,
            #[trigger] f[j].0,
        ) by {
            if same_tree(f[i].0, f[j].0) {
                assert(same_tree(e[i].0, f[i].0));
                assert(same_tree(e[j].0, f[j].0));
                lemma_same_tree_transitive(e[i].0, f[i].0, f[j].0);
                lemma_same_tree_symmetric(e[j].0, f[j].0);
                lemma_same_tree_transitive(e[i].0, f[j].0, e[j].0);
                assert(!same_tree(e[i].0, e[j].0));
            }
        }
    }
    ValueMap { entries: out }
}

/// Whether two values are the same tree.
fn trees_match(a: &Value, b: &Value) -> (r: bool)
    ensures
        r == same_tree(*a, *b),
    decreases a,
{
    match (a, b) {
        (Value::Bool(x), Value::Bool(y)) => *x == *y,
        (Value::U8(x), Value::U8(y)) => *x == *y,
        (Value::U16(x), Value::U16(y)) => *x == *y,
        (Value::U32(x), Value::U32(y)) => *x == *y,
        (Value::U64(x), Value::U64(y)) => *x == *y,
        (Value::U128(x), Value::U128(y)) => *x == *y,
        (Value::I8(x), Value::I8(y)) => *x == *y,
        (Value::I16(x), Value::I16(y)) => *x == *y,
        (Value::I32(x), Value::I32(y)) => *x == *y,
        (Value::I64(x), Value::I64(y)) => *x == *y,
        (Value::I128(x), Value::I128(y)) => *x == *y,
        (Value::F32(x), Value::F32(y)) => *x == *y,
        (Value::F64(x), Value::F64(y)) => *x == *y,
        (Value::Char(x), Value::Char(y)) => *x == *y,
        (Value::Unit, Value::Unit) => true,
        (Value::String(x), Value::String(y)) => *x == *y,
        (Value::Bytes(x), Value::Bytes(y)) => {
            if x.len() != y.len() {
                return false;
            }
            let mut i: usize = 0;
            while i < x.len()
                invariant
                    i <= x.len() == y.len(),
                    *a is Bytes,
                    (*a)->Bytes_0 == *x,
                    *b is Bytes,
                    (*b)->Bytes_0 == *y,
                    x@.subrange(0, i as int) == y@.subrange(0, i as int),
                decreases x.len() - i,
            {
                if x[i] != y[i] {
                    assert(x@.subrange(0, i + 1)[i as int] != y@.subrange(0, i + 1)[i as int]);
                    assert(x@ != y@) by {
                        assert(x@[i as int] != y@[i as int]);
                    }
                    return false;
                }
                assert(x@.subrange(0, i + 1) =~= y@.subrange(0, i + 1));
                i = i + 1;
            }
            assert(x@ =~= y@.subrange(0, i as int));
            assert(x@ =~= y@);
            true
        },
        (Value::Option(x), Value::Option(y)) => match (x, y) {
            (None, None) => true,
            (Some(p), Some(q)) => trees_match(&**p, &**q),
            _ => false,
        },
        (Value::Newtype(p), Value::Newtype(q)) => trees_match(&**p, &**q),
        (Value::Sequence(xs), Value::Sequence(ys)) => {
            if xs.len() != ys.len() {
                return false;
            }
            let mut i: usize = 0;
            while i < xs.len()
                invariant
                    i <= xs.len() == ys.len(),
                    *a is Sequence,
                    (*a)->Sequence_0 == *xs,
                    *b is Sequence,
                    (*b)->Sequence_0 == *ys,
                    forall|j: int| 0 <= j < i ==> same_tree(#[trigger] xs@[j], ys@[j]),
                decreases xs.len() - i,
            {
                proof {
                    assert(decreases_to!(*a => *xs));
                    assert(decreases_to!(*xs => xs@));
                    assert(decreases_to!(xs@ => xs@[i as int]));
                }
                if !trees_match(&xs[i], &ys[i]) {
                    return false;
                }
                i = i + 1;
            }
            true
        },
        (Value::Mapping(m), Value::Mapping(n)) => {
            proof {
                assert(decreases_to!(*a => *m));
            }
            maps_match(m, n)
        },
        _ => false,
    }
}

/// Whether two maps hold the same trees as entries, in the same order.
fn maps_match(m: &ValueMap, n: &ValueMap) -> (r: bool)
    ensures
        r == (m.entries@.len() == n.entries@.len() && (forall|i: int|
            0 <= i < m.entries@.len() ==> same_tree(#[trigger] m.entries@[i].0, n.entries@[i].0)
                && same_tree(m.entries@[i].1, n.entries@[i].1))),
    decreases m,
{
    if m.entries.len() != n.entries.len() {
        return false;
    }
    let mut i: usize = 0;
    while i < m.entries.len()
        invariant
            i <= m.entries@.len() == n.entries@.len(),
            forall|j: int| 0 <= j < i ==> same_tree(#[trigger] m.entries@[j].0, n.entries@[j].0),
            forall|j: int| 0 <= j < i ==> same_tree(#[trigger] m.entries@[j].1, n.entries@[j].1),
        decreases m.entries@.len() - i,
    {
        proof {
            assert(decreases_to!(*m => m.entries));
            assert(decreases_to!(m.entries => m.entries@));
            assert(decreases_to!(m.entries@ => m.entries@[i as int]));
            assert(decreases_to!(m.entries@[i as int] => m.entries@[i as int].0));
            assert(decreases_to!(m.entries@[i as int] => m.entries@[i as int].1));
        }
        if !trees_match(&m.entries[i].0, &n.entries[i].0) {
            return false;
        }
        if !trees_match(&m.entries[i].1, &n.entries[i].1) {
            return false;
        }
        i = i + 1;
    }
    true
}

impl Value {
    /// Whether this value and `other` are the same tree (see [`same_tree`]).
    pub fn same_tree_as(&self, other: &Value) -> (r: bool)
        ensures
            r == same_tree(*self, *other),
    {
        trees_match(self, other)
    }
}

impl Clone for Value {
    /// A deep copy: the same tree, and the very same value when no vector is inside it.
    fn clone(&self) -> (r: Self)
        ensures
            same_tree(*self, r),
            holds_no_vectors(*self) ==> r == *self,
    {
        clone_value(self)
    }
}

impl Clone for ValueMap {
    /// A deep copy: the same entries, as the same trees, in the same order.
    fn clone(&self) -> (r: Self)
        ensures
            r@.len() == self@.len(),
            forall|i: int| 0 <= i < self@.len() ==> same_tree(#[trigger] self@[i].0, r@[i].0),
            forall|i: int| 0 <= i < self@.len() ==> same_tree(#[trigger] self@[i].1, r@[i].1),
    {
        clone_map(self)
    }
}

} // verus!
