use vstd::prelude::*;
use vstd::utf8::encode_utf8;

use crate::error::Error;
use crate::value::{MapEntry, Value};
use crate::wire::{le_u16, le_u32, le_u64, sized};

verus! {

/// What serializing a value does: the bytes that it writes, and the error
/// that stops it, if one does.  The bytes are written even when an error
/// follows them.
pub struct Encoding {
    pub bytes: Seq<u8>,
    pub error: Option<Error>,
}

/// The state of a map serializer: the bytes written so far, the error that
/// stopped it (if any), and the `key=value` item that it is building.
pub struct MapState {
    pub bytes: Seq<u8>,
    pub error: Option<Error>,
    pub item: Seq<u8>,
}

pub open spec fn written(bytes: Seq<u8>) -> Encoding {
    Encoding { bytes, error: None }
}

pub open spec fn refused(e: Error) -> Encoding {
    Encoding { bytes: Seq::empty(), error: Some(e) }
}

/// `bytes` without its first four bytes (all of them if there are fewer).
pub open spec fn drop_size_field(bytes: Seq<u8>) -> Seq<u8> {
    if bytes.len() >= 4 {
        bytes.subrange(4, bytes.len() as int)
    } else {
        Seq::empty()
    }
}

/// The ROSMSG encoding of `v`.
///
/// Numbers are written in little-endian order at their own width, `bool` as
/// one byte, strings and byte arrays with a 32-bit size field in front.
/// Sequences write their announced length, then their elements; tuples and
/// structs write their elements one after the other; maps write one sized
/// `key=value` item per value.  Serialization stops at the first element that
/// fails, after writing what came before it.
pub open spec fn encode(v: Value) -> Encoding
    decreases v,
{
    match v {
        Value::Bool(b) => written(seq![if b { 1u8 } else { 0u8 }]),
        Value::I8(x) => written(seq![x as u8]),
        Value::I16(x) => written(le_u16(x as u16)),
        Value::I32(x) => written(le_u32(x as u32)),
        Value::I64(x) => written(le_u64(x as u64)),
        Value::U8(x) => written(seq![x]),
        Value::U16(x) => written(le_u16(x)),
        Value::U32(x) => written(le_u32(x)),
        Value::U64(x) => written(le_u64(x)),
        Value::F32(bits) => written(le_u32(bits)),
        Value::F64(bits) => written(le_u64(bits)),
        Value::Char(_) => refused(Error::UnsupportedCharType),
        Value::Str(s) => written(sized(encode_utf8(s@))),
        Value::Bytes(b) => written(sized(b@)),
        Value::OptionNone => refused(Error::UnsupportedEnumType),
        Value::OptionSome => refused(Error::UnsupportedEnumType),
        Value::Unit => written(Seq::empty()),
        Value::UnitStruct => written(Seq::empty()),
        Value::UnitVariant => refused(Error::UnsupportedEnumType),
        Value::NewtypeStruct(inner) => encode(*inner),
        Value::NewtypeVariant => refused(Error::UnsupportedEnumType),
        Value::Sequence(len, elems) => match len {
            Some(n) => {
                let e = encode_all(elems@);
                Encoding { bytes: le_u32(n as u32) + e.bytes, error: e.error }
            },
            None => refused(Error::VariableArraySizeAnnotation),
        },
        Value::Tuple(elems) => encode_all(elems@),
        Value::TupleStruct(elems) => encode_all(elems@),
        Value::TupleVariant => refused(Error::UnsupportedEnumType),
        Value::Mapping(entries) => {
            let m = encode_map(entries@);
            Encoding { bytes: m.bytes, error: m.error }
        },
        Value::Struct(fields) => encode_all(fields@),
        Value::StructVariant => refused(Error::UnsupportedEnumType),
        Value::Failed(msg) => refused(Error::Message(msg)),
    }
}

/// The encoding of the values of `s`, one after the other, up to the first
/// that fails.
pub open spec fn encode_all(s: Seq<Value>) -> Encoding
    decreases s,
{
    if s.len() == 0 {
        written(Seq::empty())
    } else {
        let front = encode_all(s.drop_last());
        if front.error is Some {
            front
        } else {
            let e = encode(s.last());
            Encoding { bytes: front.bytes + e.bytes, error: e.error }
        }
    }
}

/// The state of a map serializer after the calls `s`, up to the first that fails.
pub open spec fn encode_map(s: Seq<MapEntry>) -> MapState
    decreases s,
{
    if s.len() == 0 {
        MapState { bytes: Seq::empty(), error: None, item: Seq::empty() }
    } else {
        let front = encode_map(s.drop_last());
        if front.error is Some {
            front
        } else {
            map_step(front, s.last())
        }
    }
}

/// One call on a map serializer.  A key starts a new item: the key's encoding
/// without its first four bytes, then `=`.  A value adds its encoding without
/// its first four bytes to the item and writes the item as a sized run.
pub open spec fn map_step(st: MapState, entry: MapEntry) -> MapState
    decreases entry,
{
    match entry {
        MapEntry::Key(k) => {
            let e = encode(k);
            if e.error is Some {
                MapState { bytes: st.bytes, error: e.error, item: Seq::empty() }
            } else {
                MapState { bytes: st.bytes, error: None, item: drop_size_field(e.bytes).push(61u8) }
            }
        },
        MapEntry::Val(v) => {
            let e = encode(v);
            if e.error is Some {
                MapState { bytes: st.bytes, error: e.error, item: st.item }
            } else {
                let item = st.item + drop_size_field(e.bytes);
                MapState { bytes: st.bytes + sized(item), error: None, item }
            }
        },
    }
}

/// The encoding of `v` on its own, or the error that stops it.
pub open spec fn payload(v: Value) -> Result<Seq<u8>, Error> {
    let e = encode(v);
    match e.error {
        None => Ok(e.bytes),
        Some(err) => Err(err),
    }
}

/// The ROSMSG message of `v`: its encoding with its size field in front, or
/// the error that stops it.
pub open spec fn message(v: Value) -> Result<Seq<u8>, Error> {
    match payload(v) {
        Ok(p) => Ok(sized(p)),
        Err(err) => Err(err),
    }
}

/// What writing the message of `v` to a stream leaves there: the message, or,
/// where serialization fails, a zero size field and the bytes written before
/// the failure.
pub open spec fn framed_output(v: Value) -> Seq<u8> {
    let e = encode(v);
    match e.error {
        None => sized(e.bytes),
        Some(_) => le_u32(0) + e.bytes,
    }
}

/// Once the values of `s` up to `k` fail, those after `k` change nothing.
pub proof fn lemma_encode_all_stops(s: Seq<Value>, k: int, j: int)
    requires
        0 <= k <= j <= s.len(),
        encode_all(s.take(k)).error is Some,
    ensures
        encode_all(s.take(j)) == encode_all(s.take(k)),
    decreases j - k,
{
    if j > k {
        lemma_encode_all_stops(s, k, j - 1);
        assert(s.take(j).drop_last() == s.take(j - 1));
    }
}

/// Once the calls of `s` up to `k` fail, those after `k` change nothing.
pub proof fn lemma_encode_map_stops(s: Seq<MapEntry>, k: int, j: int)
    requires
        0 <= k <= j <= s.len(),
        encode_map(s.take(k)).error is Some,
    ensures
        encode_map(s.take(j)) == encode_map(s.take(k)),
    decreases j - k,
{
    if j > k {
        lemma_encode_map_stops(s, k, j - 1);
        assert(s.take(j).drop_last() == s.take(j - 1));
    }
}

/// A map step only appends to the bytes written before it.
pub proof fn lemma_map_step_prefix(prefix: Seq<u8>, st: MapState, entry: MapEntry)
    requires
        st.error is None,
    ensures
        ({
            let whole = map_step(MapState { bytes: prefix + st.bytes, error: None, item: st.item }, entry);
            let part = map_step(st, entry);
            &&& whole.bytes == prefix + part.bytes
            &&& whole.error == part.error
            &&& whole.item == part.item
        }),
{
    match entry {
        MapEntry::Key(k) => {},
        MapEntry::Val(v) => {
            let e = encode(v);
            if e.error is None {
                let item = st.item + drop_size_field(e.bytes);
                assert(prefix + st.bytes + sized(item) == prefix + (st.bytes + sized(item)));
            }
        },
    }
}

} // verus!
