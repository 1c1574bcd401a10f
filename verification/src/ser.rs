use vstd::prelude::*;
use vstd::utf8::encode_utf8;

use crate::encoding::{
    drop_size_field, encode, encode_all, encode_map, framed_output, lemma_encode_all_stops,
    lemma_encode_map_stops, lemma_map_step_prefix, map_step, message, payload, Encoding, MapState,
};
use crate::cursor::{write_at, Cursor};
use crate::error::Error;
use crate::value::{MapEntry, Value};
use crate::wire::{
    append_bytes, le_u16, le_u32, le_u64, lemma_size_field_of_usize, size_field, sized, u16_le,
    u32_le, u64_le,
};

verus! {

/// What a serializer call did: it appended the bytes of `e` to the output,
/// and it returned the error of `e`, or `Ok` where `e` has none.
pub open spec fn performs(before: Seq<u8>, after: Seq<u8>, e: Encoding, r: Result<(), Error>) -> bool {
    &&& after == before + e.bytes
    &&& match e.error {
        None => r is Ok,
        Some(err) => r == Err::<(), Error>(err),
    }
}

/// What one call on a map serializer did: it moved the output and the pending
/// item as `map_step` says, and it returned the step's error, or `Ok`.
pub open spec fn performs_map_step(
    before: Seq<u8>,
    after: Seq<u8>,
    item_before: Seq<u8>,
    item_after: Seq<u8>,
    entry: MapEntry,
    r: Result<(), Error>,
) -> bool {
    let st = map_step(MapState { bytes: before, error: None, item: item_before }, entry);
    &&& after == st.bytes
    &&& item_after == st.item
    &&& match st.error {
        None => r is Ok,
        Some(err) => r == Err::<(), Error>(err),
    }
}

/// A structure for serializing values into ROSMSG binary data.
///
/// The structure does not write the object size prefix: it appends the
/// encoding of each value to the bytes it holds.  Prefer `to_vec` and
/// `to_writer`, which write the prefix.
pub struct Serializer {
    writer: Vec<u8>,
}

impl View for Serializer {
    type V = Seq<u8>;

    closed spec fn view(&self) -> Seq<u8> {
        self.writer@
    }
}

impl Serializer {
    /// Creates a new ROSMSG serializer that appends to `writer`.
    pub fn new(writer: Vec<u8>) -> (s: Self)
        ensures
            s@ == writer@,
    {
        Serializer { writer: writer }
    }

    /// Unwraps the bytes from the serializer.
    pub fn into_inner(self) -> (w: Vec<u8>)
        ensures
            w@ == self@,
    {
        self.writer
    }

    fn write_size(&mut self, len: usize)
        ensures
            final(self)@ == old(self)@ + size_field(len as nat),
    {
        let b = u32_le(len as u32);
        proof {
            lemma_size_field_of_usize(len);
        }
        append_bytes(&mut self.writer, b.as_slice());
    }

    /// ROSMSG is a binary format.
    pub fn is_human_readable(&self) -> (r: bool)
        ensures
            !r,
    {
        false
    }

    /// Writes `1` for `true` and `0` for `false`.
    pub fn serialize_bool(&mut self, v: bool) -> (r: Result<(), Error>)
        ensures
            performs(old(self)@, final(self)@, encode(Value::Bool(v)), r),
    {
        let b: u8 = if v { 1u8 } else { 0u8 };
        self.writer.push(b);
        assert(self@ == old(self)@ + seq![b]);
        Ok(())
    }

    /// Writes the byte of the two's-complement value.
    pub fn serialize_i8(&mut self, v: i8) -> (r: Result<(), Error>)
        ensures
            performs(old(self)@, final(self)@, encode(Value::I8(v)), r),
    {
        let b: u8 = v as u8;
        self.writer.push(b);
        assert(self@ == old(self)@ + seq![b]);
        Ok(())
    }

    /// Writes the byte.
    pub fn serialize_u8(&mut self, v: u8) -> (r: Result<(), Error>)
        ensures
            performs(old(self)@, final(self)@, encode(Value::U8(v)), r),
    {
        self.writer.push(v);
        assert(self@ == old(self)@ + seq![v]);
        Ok(())
    }

    /// Writes the value in little-endian order.
    pub fn serialize_u16(&mut self, v: u16) -> (r: Result<(), Error>)
        ensures
            performs(old(self)@, final(self)@, encode(Value::U16(v)), r),
    {
        let b = u16_le(v);
        append_bytes(&mut self.writer, b.as_slice());
        Ok(())
    }

    /// Writes the value in little-endian order.
    pub fn serialize_u32(&mut self, v: u32) -> (r: Result<(), Error>)
        ensures
            performs(old(self)@, final(self)@, encode(Value::U32(v)), r),
    {
        let b = u32_le(v);
        append_bytes(&mut self.writer, b.as_slice());
        Ok(())
    }

    /// Writes the value in little-endian order.
    pub fn serialize_u64(&mut self, v: u64) -> (r: Result<(), Error>)
        ensures
            performs(old(self)@, final(self)@, encode(Value::U64(v)), r),
    {
        let b = u64_le(v);
        append_bytes(&mut self.writer, b.as_slice());
        Ok(())
    }

    /// Writes the two's-complement value in little-endian order.
    pub fn serialize_i16(&mut self, v: i16) -> (r: Result<(), Error>)
        ensures
            performs(old(self)@, final(self)@, encode(Value::I16(v)), r),
    {
        let b = u16_le(v as u16);
        append_bytes(&mut self.writer, b.as_slice());
        Ok(())
    }

    /// Writes the two's-complement value in little-endian order.
    pub fn serialize_i32(&mut self, v: i32) -> (r: Result<(), Error>)
        ensures
            performs(old(self)@, final(self)@, encode(Value::I32(v)), r),
    {
        let b = u32_le(v as u32);
        append_bytes(&mut self.writer, b.as_slice());
        Ok(())
    }

    /// Writes the two's-complement value in little-endian order.
    pub fn serialize_i64(&mut self, v: i64) -> (r: Result<(), Error>)
        ensures
            performs(old(self)@, final(self)@, encode(Value::I64(v)), r),
    {
        let b = u64_le(v as u64);
        append_bytes(&mut self.writer, b.as_slice());
        Ok(())
    }

    /// Writes an `f32` given by its bit pattern.
    pub fn serialize_f32(&mut self, bits: u32) -> (r: Result<(), Error>)
        ensures
            performs(old(self)@, final(self)@, encode(Value::F32(bits)), r),
    {
        let b = u32_le(bits);
        append_bytes(&mut self.writer, b.as_slice());
        Ok(())
    }

    /// Writes an `f64` given by its bit pattern.
    pub fn serialize_f64(&mut self, bits: u64) -> (r: Result<(), Error>)
        ensures
            performs(old(self)@, final(self)@, encode(Value::F64(bits)), r),
    {
        let b = u64_le(bits);
        append_bytes(&mut self.writer, b.as_slice());
        Ok(())
    }

    /// ROSMSG has no `char`; one-character strings stand in for it.
    pub fn serialize_char(&mut self, v: char) -> (r: Result<(), Error>)
        ensures
            performs(old(self)@, final(self)@, encode(Value::Char(v)), r),
    {
        Err(Error::UnsupportedCharType)
    }

    /// Writes the UTF-8 bytes of `value` with their size in front.
    pub fn serialize_str(&mut self, value: &str) -> (r: Result<(), Error>)
        ensures
            final(self)@ == old(self)@ + sized(encode_utf8(value@)),
            r is Ok,
    {
        self.serialize_bytes(value.as_bytes())
    }

    /// Writes `value` with its size in front.
    pub fn serialize_bytes(&mut self, value: &[u8]) -> (r: Result<(), Error>)
        ensures
            final(self)@ == old(self)@ + sized(value@),
            r is Ok,
    {
        self.write_size(value.len());
        append_bytes(&mut self.writer, value);
        Ok(())
    }

    /// ROSMSG has no `Option`.
    pub fn serialize_none(&mut self) -> (r: Result<(), Error>)
        ensures
            performs(old(self)@, final(self)@, encode(Value::OptionNone), r),
    {
        Err(Error::UnsupportedEnumType)
    }

    /// ROSMSG has no `Option`; the wrapped value is never looked at.
    pub fn serialize_some(&mut self) -> (r: Result<(), Error>)
        ensures
            performs(old(self)@, final(self)@, encode(Value::OptionSome), r),
    {
        Err(Error::UnsupportedEnumType)
    }

    /// The unit value is an empty tuple.
    pub fn serialize_unit(&mut self) -> (r: Result<(), Error>)
        ensures
            performs(old(self)@, final(self)@, encode(Value::Unit), r),
    {
        let _ = self.serialize_tuple(0);
        Ok(())
    }

    /// A unit struct is an empty tuple struct.
    pub fn serialize_unit_struct(&mut self) -> (r: Result<(), Error>)
        ensures
            performs(old(self)@, final(self)@, encode(Value::UnitStruct), r),
    {
        let _ = self.serialize_tuple_struct(0);
        Ok(())
    }

    /// ROSMSG has no enums.
    pub fn serialize_unit_variant(&mut self) -> (r: Result<(), Error>)
        ensures
            performs(old(self)@, final(self)@, encode(Value::UnitVariant), r),
    {
        Err(Error::UnsupportedEnumType)
    }

    /// ROSMSG has no enums; the wrapped value is never looked at.
    pub fn serialize_newtype_variant(&mut self) -> (r: Result<(), Error>)
        ensures
            performs(old(self)@, final(self)@, encode(Value::NewtypeVariant), r),
    {
        Err(Error::UnsupportedEnumType)
    }

    /// ROSMSG has no enums; the fields are never looked at.
    pub fn serialize_tuple_variant(&mut self) -> (r: Result<(), Error>)
        ensures
            performs(old(self)@, final(self)@, encode(Value::TupleVariant), r),
    {
        Err(Error::UnsupportedEnumType)
    }

    /// ROSMSG has no enums; the fields are never looked at.
    pub fn serialize_struct_variant(&mut self) -> (r: Result<(), Error>)
        ensures
            performs(old(self)@, final(self)@, encode(Value::StructVariant), r),
    {
        Err(Error::UnsupportedEnumType)
    }

    /// Starts a sequence: writes its announced length, which ROSMSG requires.
    pub fn serialize_seq(&mut self, len: Option<usize>) -> (r: Result<Compound<'_>, Error>)
        ensures
            match len {
                Some(n) => r matches Ok(c) && (*c.ser)@ == old(self)@ + le_u32(n as u32)
                    && *final(c.ser) == *final(self),
                None => r matches Err(e) && e == Error::VariableArraySizeAnnotation
                    && *final(self) == *old(self),
            },
    {
        match len {
            Some(n) => {
                let _ = self.serialize_u32(n as u32);
                Ok(Compound::new(self))
            },
            None => Err(Error::VariableArraySizeAnnotation),
        }
    }

    /// Starts a tuple: its elements follow with nothing in front.
    pub fn serialize_tuple(&mut self, _len: usize) -> (c: Compound<'_>)
        ensures
            (*c.ser)@ == old(self)@,
            *final(c.ser) == *final(self),
    {
        Compound::new(self)
    }

    /// Starts a tuple struct: written as a tuple.
    pub fn serialize_tuple_struct(&mut self, len: usize) -> (c: Compound<'_>)
        ensures
            (*c.ser)@ == old(self)@,
            *final(c.ser) == *final(self),
    {
        self.serialize_tuple(len)
    }

    /// Starts a struct: written as a tuple of its field values.
    pub fn serialize_struct(&mut self, len: usize) -> (c: Compound<'_>)
        ensures
            (*c.ser)@ == old(self)@,
            *final(c.ser) == *final(self),
    {
        self.serialize_tuple(len)
    }

    /// Starts a map, with no item pending.
    pub fn serialize_map(&mut self, _len: Option<usize>) -> (m: CompoundMap<'_>)
        ensures
            (*m.ser)@ == old(self)@,
            m.item@ == Seq::<u8>::empty(),
            *final(m.ser) == *final(self),
    {
        CompoundMap::new(self)
    }

    /// A newtype struct is written as the value it wraps.
    pub fn serialize_newtype_struct(&mut self, value: &Value) -> (r: Result<(), Error>)
        ensures
            performs(old(self)@, final(self)@, encode(*value), r),
        decreases value, 1nat,
    {
        self.serialize(value)
    }

    fn serialize_elements(&mut self, elems: &Vec<Value>) -> (r: Result<(), Error>)
        ensures
            performs(old(self)@, final(self)@, encode_all(elems@), r),
        decreases elems, 1nat,
    {
        let n = elems.len();
        let mut i: usize = 0;
        while i < n
            invariant
                i <= n,
                n == elems@.len(),
                encode_all(elems@.take(i as int)).error is None,
                self@ == old(self)@ + encode_all(elems@.take(i as int)).bytes,
            decreases n - i,
        {
            proof {
                assert(elems@.take(i + 1).drop_last() == elems@.take(i as int));
                assert(elems@.take(i + 1).last() == elems@[i as int]);
                assert(decreases_to!(*elems => elems@));
                assert(decreases_to!(elems@ => elems@[i as int]));
            }
            let r = self.serialize(&elems[i]);
            assert(self@ == old(self)@ + encode_all(elems@.take(i + 1)).bytes);
            if r.is_err() {
                proof {
                    let k = i + 1;
                    assert forall|j: int| k <= j <= n implies #[trigger] encode_all(elems@.take(j))
                        == encode_all(elems@.take(k)) by {
                        lemma_encode_all_stops(elems@, k, j);
                    }
                    assert(elems@.take(n as int) == elems@);
                }
                return r;
            }
            i += 1;
        }
        assert(elems@.take(n as int) == elems@);
        Ok(())
    }

    /// Serializes `v`: appends its encoding, and returns the error that
    /// stopped it, if any.
    pub fn serialize(&mut self, v: &Value) -> (r: Result<(), Error>)
        ensures
            performs(old(self)@, final(self)@, encode(*v), r),
        decreases v, 0nat,
    {
        match v {
            Value::Bool(b) => self.serialize_bool(*b),
            Value::I8(x) => self.serialize_i8(*x),
            Value::I16(x) => self.serialize_i16(*x),
            Value::I32(x) => self.serialize_i32(*x),
            Value::I64(x) => self.serialize_i64(*x),
            Value::U8(x) => self.serialize_u8(*x),
            Value::U16(x) => self.serialize_u16(*x),
            Value::U32(x) => self.serialize_u32(*x),
            Value::U64(x) => self.serialize_u64(*x),
            Value::F32(bits) => self.serialize_f32(*bits),
            Value::F64(bits) => self.serialize_f64(*bits),
            Value::Char(c) => self.serialize_char(*c),
            Value::Str(s) => self.serialize_str(s.as_str()),
            Value::Bytes(b) => self.serialize_bytes(b.as_slice()),
            Value::OptionNone => self.serialize_none(),
            Value::OptionSome => self.serialize_some(),
            Value::Unit => self.serialize_unit(),
            Value::UnitStruct => self.serialize_unit_struct(),
            Value::UnitVariant => self.serialize_unit_variant(),
            Value::NewtypeStruct(inner) => {
                assert(decreases_to!(*v => (*v)->NewtypeStruct_0));
                self.serialize_newtype_struct(inner)
            },
            Value::NewtypeVariant => self.serialize_newtype_variant(),
            Value::Sequence(len, elems) => match len {
                Some(n) => {
                    assert(decreases_to!(*v => (*v)->Sequence_1));
                    let _ = self.serialize_u32(*n as u32);
                    let r = self.serialize_elements(elems);
                    assert(self@ == old(self)@ + encode(*v).bytes);
                    r
                },
                None => Err(Error::VariableArraySizeAnnotation),
            },
            Value::Tuple(elems) => {
                assert(decreases_to!(*v => (*v)->Tuple_0));
                self.serialize_elements(elems)
            },
            Value::TupleStruct(elems) => {
                assert(decreases_to!(*v => (*v)->TupleStruct_0));
                self.serialize_elements(elems)
            },
            Value::TupleVariant => self.serialize_tuple_variant(),
            Value::Mapping(entries) => {
                assert(decreases_to!(*v => (*v)->Mapping_0));
                self.serialize_entries(entries)
            },
            Value::Struct(fields) => {
                assert(decreases_to!(*v => (*v)->Struct_0));
                self.serialize_elements(fields)
            },
            Value::StructVariant => self.serialize_struct_variant(),
            Value::Failed(msg) => Err(Error::Message(msg.clone())),
        }
    }

    fn serialize_entries(&mut self, entries: &Vec<MapEntry>) -> (r: Result<(), Error>)
        ensures
            ({
                let m = encode_map(entries@);
                performs(old(self)@, final(self)@, Encoding { bytes: m.bytes, error: m.error }, r)
            }),
        decreases entries, 1nat,
    {
        let mut item: Vec<u8> = Vec::new();
        let n = entries.len();
        let mut i: usize = 0;
        while i < n
            invariant
                i <= n,
                n == entries@.len(),
                encode_map(entries@.take(i as int)).error is None,
                self@ == old(self)@ + encode_map(entries@.take(i as int)).bytes,
                item@ == encode_map(entries@.take(i as int)).item,
            decreases n - i,
        {
            let ghost front = encode_map(entries@.take(i as int));
            proof {
                assert(entries@.take(i + 1).drop_last() == entries@.take(i as int));
                assert(entries@.take(i + 1).last() == entries@[i as int]);
                assert(decreases_to!(*entries => entries@));
                assert(decreases_to!(entries@ => entries@[i as int]));
                lemma_map_step_prefix(old(self)@, front, entries@[i as int]);
            }
            let r = match &entries[i] {
                MapEntry::Key(k) => {
                    assert(decreases_to!(entries@[i as int] => entries@[i as int]->Key_0));
                    map_key(&mut item, k)
                },
                MapEntry::Val(x) => {
                    assert(decreases_to!(entries@[i as int] => entries@[i as int]->Val_0));
                    map_value(self, &mut item, x)
                },
            };
            if r.is_err() {
                proof {
                    let k = i + 1;
                    assert forall|j: int| k <= j <= n implies #[trigger] encode_map(entries@.take(j))
                        == encode_map(entries@.take(k)) by {
                        lemma_encode_map_stops(entries@, k, j);
                    }
                    assert(entries@.take(n as int) == entries@);
                }
                return r;
            }
            i += 1;
        }
        assert(entries@.take(n as int) == entries@);
        Ok(())
    }
}

/// The serializer of the elements of a sequence, tuple or struct: each
/// element is written in turn, with nothing between them.
pub struct Compound<'a> {
    pub ser: &'a mut Serializer,
}

impl<'a> Compound<'a> {
    fn new(ser: &'a mut Serializer) -> (c: Compound<'a>)
        ensures
            (*c.ser)@ == old(ser)@,
            *final(c.ser) == *final(ser),
    {
        Compound { ser: ser }
    }

    /// Writes the next element.
    pub fn serialize_element(&mut self, value: &Value) -> (r: Result<(), Error>)
        ensures
            performs((*old(self).ser)@, (*final(self).ser)@, encode(*value), r),
            *final(final(self).ser) == *final(old(self).ser),
    {
        self.ser.serialize(value)
    }

    /// Writes the next field.
    pub fn serialize_field(&mut self, value: &Value) -> (r: Result<(), Error>)
        ensures
            performs((*old(self).ser)@, (*final(self).ser)@, encode(*value), r),
            *final(final(self).ser) == *final(old(self).ser),
    {
        self.ser.serialize(value)
    }

    /// Ends the compound; nothing is written.
    pub fn end(self) -> (r: Result<(), Error>)
        ensures
            r is Ok,
            *final(self.ser) == *old(self.ser),
    {
        Ok(())
    }
}

/// The serializer of a map.  ROSMSG writes a map as `key=value` items, each
/// as a sized run: a key starts the pending item, and a value completes it
/// and writes it.
///
/// Keys and values are written by a serializer of their own, and the first
/// four bytes of what it writes are dropped: for a string, that is its size
/// field.  Of a key or value that is not a string, four bytes of its own
/// encoding are dropped (all of it if it is shorter): such maps are not
/// supported by ROSMSG, and what they give is written all the same.
pub struct CompoundMap<'a> {
    pub ser: &'a mut Serializer,
    /// The item that the next value completes.
    pub item: Vec<u8>,
}

impl<'a> CompoundMap<'a> {
    fn new(ser: &'a mut Serializer) -> (m: CompoundMap<'a>)
        ensures
            (*m.ser)@ == old(ser)@,
            m.item@ == Seq::<u8>::empty(),
            *final(m.ser) == *final(ser),
    {
        CompoundMap { ser: ser, item: Vec::new() }
    }

    /// Starts a new item with `key`.
    pub fn serialize_key(&mut self, key: &Value) -> (r: Result<(), Error>)
        ensures
            performs_map_step(
                (*old(self).ser)@,
                (*final(self).ser)@,
                old(self).item@,
                final(self).item@,
                MapEntry::Key(*key),
                r,
            ),
            *final(final(self).ser) == *final(old(self).ser),
    {
        map_key(&mut self.item, key)
    }

    /// Completes the pending item with `value` and writes it.
    pub fn serialize_value(&mut self, value: &Value) -> (r: Result<(), Error>)
        ensures
            performs_map_step(
                (*old(self).ser)@,
                (*final(self).ser)@,
                old(self).item@,
                final(self).item@,
                MapEntry::Val(*value),
                r,
            ),
            *final(final(self).ser) == *final(old(self).ser),
    {
        map_value(self.ser, &mut self.item, value)
    }

    /// Ends the compound; nothing is written.
    pub fn end(self) -> (r: Result<(), Error>)
        ensures
            r is Ok,
            *final(self.ser) == *old(self.ser),
    {
        Ok(())
    }
}

/// Appends `bytes` without their first four bytes (the size field that a
/// nested serializer wrote in front of a string) to `out`.
fn append_after_size_field(out: &mut Vec<u8>, bytes: &Vec<u8>)
    ensures
        final(out)@ == old(out)@ + drop_size_field(bytes@),
{
    let n = bytes.len();
    if n < 4 {
        return;
    }
    let mut j: usize = 4;
    while j < n
        invariant
            4 <= j <= n,
            n == bytes@.len(),
            out@ == old(out)@ + bytes@.subrange(4, j as int),
        decreases n - j,
    {
        assert(bytes@.subrange(4, j + 1) == bytes@.subrange(4, j as int).push(bytes@[j as int]));
        out.push(bytes[j]);
        j += 1;
    }
}

/// A key starts a new item: the key's encoding without its size field, then
/// `=`.  The key is written by a serializer of its own, into a buffer.
fn map_key(item: &mut Vec<u8>, key: &Value) -> (r: Result<(), Error>)
    ensures
        performs_map_step(Seq::empty(), Seq::empty(), old(item)@, final(item)@, MapEntry::Key(*key), r),
    decreases key, 1nat,
{
    *item = Vec::new();
    let mut buffer = Serializer::new(Vec::new());
    let r = buffer.serialize(key);
    if r.is_err() {
        return r;
    }
    let bytes = buffer.into_inner();
    append_after_size_field(item, &bytes);
    item.push(61u8);
    Ok(())
}

/// A value completes the item: its encoding without its size field is added
/// to the item, and the item is written as a sized run.  The item is kept.
fn map_value(ser: &mut Serializer, item: &mut Vec<u8>, value: &Value) -> (r: Result<(), Error>)
    ensures
        performs_map_step(old(ser)@, final(ser)@, old(item)@, final(item)@, MapEntry::Val(*value), r),
    decreases value, 1nat,
{
    let mut buffer = Serializer::new(Vec::new());
    let r = buffer.serialize(value);
    if r.is_err() {
        return r;
    }
    let bytes = buffer.into_inner();
    append_after_size_field(item, &bytes);
    ser.serialize_bytes(item.as_slice())
}

/// Writes `bytes` over the four bytes of `buf` that start at `at`.
fn overwrite4(buf: &mut Vec<u8>, at: usize, bytes: [u8; 4])
    requires
        at + 4 <= old(buf)@.len(),
    ensures
        final(buf)@ == old(buf)@.subrange(0, at as int) + bytes@ + old(buf)@.subrange(at + 4, old(buf)@.len() as int),
{
    let _n = buf.len();
    buf.set(at, bytes[0]);
    buf.set(at + 1, bytes[1]);
    buf.set(at + 2, bytes[2]);
    buf.set(at + 3, bytes[3]);
    assert(buf@ =~= old(buf)@.subrange(0, at as int) + bytes@ + old(buf)@.subrange(at + 4, old(buf)@.len() as int));
}

/// Appends the ROSMSG message of `value` to `writer`: a placeholder for the
/// length, the data, and then the length written over the placeholder.
/// Where serialization fails, the zero placeholder and the data written
/// before the failure stay.
fn append_message(writer: &mut Vec<u8>, value: &Value) -> (r: Result<(), Error>)
    ensures
        final(writer)@ == old(writer)@ + framed_output(*value),
        match payload(*value) {
            Ok(_) => r is Ok,
            Err(e) => r == Err::<(), Error>(e),
        },
{
    let mut data: Vec<u8> = Vec::new();
    std::mem::swap(&mut data, writer);
    let start = data.len();
    // Write a placeholder for the length, overwritten below.
    append_bytes(&mut data, u32_le(0).as_slice());
    let mut serializer = Serializer::new(data);
    let r = serializer.serialize(value);
    let mut data = serializer.into_inner();
    if r.is_ok() {
        let end = data.len();
        let data_len = end - start - 4;
        let length = data_len as u32;
        proof {
            lemma_size_field_of_usize(data_len);
        }
        overwrite4(&mut data, start, u32_le(length));
        assert(data@ =~= old(writer)@ + framed_output(*value));
    }
    *writer = data;
    r
}

/// Serializes `value` as a ROSMSG message into `writer`, at its position: a
/// size field that holds the length of the data, then the data.  The bytes
/// before the position are kept, the message overwrites what follows it, and
/// the position ends after the message.
///
/// Where serialization fails, the writer keeps a zero size field and the data
/// written before the failure, and the error is returned.
pub fn to_writer(writer: &mut Cursor, value: &Value) -> (r: Result<(), Error>)
    ensures
        final(writer)@ == (
            write_at(old(writer)@.0, old(writer)@.1, framed_output(*value)),
            old(writer)@.1 + framed_output(*value).len(),
        ),
        match payload(*value) {
            Ok(_) => r is Ok,
            Err(e) => r == Err::<(), Error>(e),
        },
{
    let mut message: Vec<u8> = Vec::new();
    let r = append_message(&mut message, value);
    assert(message@ =~= framed_output(*value));
    writer.write_all(message.as_slice());
    r
}

/// Variant of `to_writer` where the four bytes of the overall message length
/// are skipped and the length is determined by some other means.
pub fn to_writer_skip_length(writer: &mut Vec<u8>, value: &Value) -> (r: Result<(), Error>)
    ensures
        performs(old(writer)@, final(writer)@, encode(*value), r),
{
    let mut data: Vec<u8> = Vec::new();
    std::mem::swap(&mut data, writer);
    let mut serializer = Serializer::new(data);
    let r = serializer.serialize(value);
    *writer = serializer.into_inner();
    r
}

/// Serializes `value` as a ROSMSG message: a size field that holds the length
/// of the data, then the data.
pub fn to_vec(value: &Value) -> (r: Result<Vec<u8>, Error>)
    ensures
        match message(*value) {
            Ok(m) => r matches Ok(b) && b@ == m,
            Err(e) => r matches Err(x) && x == e,
        },
{
    let mut buffer: Vec<u8> = Vec::with_capacity(128);
    // Leave the first four bytes for the length.
    append_bytes(&mut buffer, u32_le(0).as_slice());
    let mut serializer = Serializer::new(buffer);
    serializer.serialize(value)?;
    let mut buffer = serializer.into_inner();
    let data_len = buffer.len().saturating_sub(4);
    let length = data_len as u32;
    proof {
        lemma_size_field_of_usize(data_len);
    }
    overwrite4(&mut buffer, 0, u32_le(length));
    assert(buffer@ =~= message(*value)->Ok_0);
    Ok(buffer)
}

/// Variant of `to_vec` where the four bytes of the overall message length are
/// skipped and the length is determined by some other means.
pub fn to_vec_skip_length(value: &Value) -> (r: Result<Vec<u8>, Error>)
    ensures
        match payload(*value) {
            Ok(p) => r matches Ok(b) && b@ == p,
            Err(e) => r matches Err(x) && x == e,
        },
{
    let mut writer: Vec<u8> = Vec::with_capacity(128);
    to_writer_skip_length(&mut writer, value)?;
    Ok(writer)
}

} // verus!
