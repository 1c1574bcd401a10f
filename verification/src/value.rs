use vstd::prelude::*;

verus! {

/// A value in the serde data model, as the ROSMSG serializer receives it.
///
/// Each variant stands for one call that a `Serialize` implementation makes on
/// a serializer.  Compound variants hold their elements in the order in which
/// they are handed over.  Floating-point numbers are held by their IEEE-754 bit
/// patterns, which is all that the wire format records of them.
///
/// The enum-like variants (`OptionNone`, `OptionSome`, and the four kinds of
/// enum variant) carry no payload: ROSMSG rejects them before looking at one.
#[derive(Debug)]
pub enum Value {
    Bool(bool),
    I8(i8),
    I16(i16),
    I32(i32),
    I64(i64),
    U8(u8),
    U16(u16),
    U32(u32),
    U64(u64),
    /// An `f32`, by its bit pattern (`f32::to_bits`).
    F32(u32),
    /// An `f64`, by its bit pattern (`f64::to_bits`).
    F64(u64),
    Char(char),
    Str(String),
    Bytes(Vec<u8>),
    OptionNone,
    OptionSome,
    Unit,
    UnitStruct,
    UnitVariant,
    NewtypeStruct(Box<Value>),
    NewtypeVariant,
    /// A sequence with the length that it announced (if any) and its elements.
    Sequence(Option<usize>, Vec<Value>),
    Tuple(Vec<Value>),
    TupleStruct(Vec<Value>),
    TupleVariant,
    /// A map, as the keys and values that were handed over, in order.
    Mapping(Vec<MapEntry>),
    /// A struct, by its field values in order (field names are not encoded).
    Struct(Vec<Value>),
    StructVariant,
    /// A point at which the value's own `Serialize` implementation reported an
    /// error with this message; nothing after it was handed over.
    Failed(String),
}

/// One call on a map serializer: a key or a value.
#[derive(Debug)]
pub enum MapEntry {
    Key(Value),
    Val(Value),
}

} // verus!
