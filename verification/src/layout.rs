use vstd::prelude::*;
use vstd::arithmetic::div_mod::lemma_mod_breakdown;
use vstd::utf8::encode_utf8;

use crate::encoding::{drop_size_field, encode, encode_all, framed_output, message, payload};
use crate::ser::performs_map_step;
use crate::value::{MapEntry, Value};
use crate::wire::{le_bytes, lemma_size_field_of_usize};

verus! {

/// The number that `s` holds, least significant byte first.
pub open spec fn le_value(s: Seq<u8>) -> nat
    decreases s.len(),
{
    if s.len() == 0 {
        0
    } else {
        s[0] as nat + 256 * le_value(s.drop_first())
    }
}

/// `256` to the power `w`.
pub open spec fn pow256(w: nat) -> nat
    decreases w,
{
    if w == 0 {
        1
    } else {
        256 * pow256((w - 1) as nat)
    }
}

/// The two's-complement reading of `x` in a width of `modulus` values.
pub open spec fn twos_complement(x: int, modulus: int) -> int {
    if x >= 0 {
        x
    } else {
        x + modulus
    }
}

proof fn lemma_pow256_positive(w: nat)
    ensures
        pow256(w) > 0,
    decreases w,
{
    if w > 0 {
        lemma_pow256_positive((w - 1) as nat);
    }
}

proof fn lemma_pow256_values()
    ensures
        pow256(1) == 256,
        pow256(2) == 0x1_0000,
        pow256(4) == 0x1_0000_0000,
        pow256(8) == 0x1_0000_0000_0000_0000,
{
    reveal_with_fuel(pow256, 9);
}

/// Reading back `width` little-endian bytes of `v` gives `v` modulo `256^width`.
proof fn lemma_le_value_of_le_bytes(v: nat, width: nat)
    ensures
        le_bytes(v, width).len() == width,
        le_value(le_bytes(v, width)) == v % pow256(width),
    decreases width,
{
    if width > 0 {
        let w1 = (width - 1) as nat;
        lemma_le_value_of_le_bytes(v / 256, w1);
        lemma_pow256_positive(w1);
        let s = le_bytes(v, width);
        assert(s.drop_first() =~= le_bytes(v / 256, w1));
        assert(s[0] as nat == v % 256);
        lemma_mod_breakdown(v as int, 256, pow256(w1) as int);
    }
}

/// A `u8` is written as itself, a `bool` as one byte `1` or `0`, and an `i8`
/// as the byte of its two's complement.
pub proof fn law_bytes_of_bool_and_8_bit(b: bool, u: u8, i: i8)
    ensures
        encode(Value::Bool(b)).error is None,
        encode(Value::Bool(b)).bytes == seq![if b { 1u8 } else { 0u8 }],
        encode(Value::U8(u)).error is None,
        encode(Value::U8(u)).bytes == seq![u],
        encode(Value::I8(i)).error is None,
        encode(Value::I8(i)).bytes.len() == 1,
        encode(Value::I8(i)).bytes[0] as int == twos_complement(i as int, 256),
{
    assert(i >= 0 ==> (i as u8) as int == i as int) by (bit_vector);
    assert(i < 0 ==> (i as u8) as int == i as int + 256) by (bit_vector);
}

/// A 16-bit integer is written as two bytes, least significant first, that
/// hold the number (its two's complement where it is signed).
pub proof fn law_bytes_of_16_bit(u: u16, i: i16)
    ensures
        encode(Value::U16(u)).error is None,
        encode(Value::U16(u)).bytes.len() == 2,
        le_value(encode(Value::U16(u)).bytes) == u,
        encode(Value::I16(i)).error is None,
        encode(Value::I16(i)).bytes.len() == 2,
        le_value(encode(Value::I16(i)).bytes) == twos_complement(i as int, 0x1_0000),
{
    lemma_pow256_values();
    lemma_le_value_of_le_bytes(u as nat, 2);
    lemma_le_value_of_le_bytes((i as u16) as nat, 2);
    assert(i >= 0 ==> (i as u16) as int == i as int) by (bit_vector);
    assert(i < 0 ==> (i as u16) as int == i as int + 0x1_0000) by (bit_vector);
}

/// A 32-bit integer is written as four bytes, least significant first, that
/// hold the number (its two's complement where it is signed).
pub proof fn law_bytes_of_32_bit(u: u32, i: i32)
    ensures
        encode(Value::U32(u)).error is None,
        encode(Value::U32(u)).bytes.len() == 4,
        le_value(encode(Value::U32(u)).bytes) == u,
        encode(Value::I32(i)).error is None,
        encode(Value::I32(i)).bytes.len() == 4,
        le_value(encode(Value::I32(i)).bytes) == twos_complement(i as int, 0x1_0000_0000),
{
    lemma_pow256_values();
    lemma_le_value_of_le_bytes(u as nat, 4);
    lemma_le_value_of_le_bytes((i as u32) as nat, 4);
    assert(i >= 0 ==> (i as u32) as int == i as int) by (bit_vector);
    assert(i < 0 ==> (i as u32) as int == i as int + 0x1_0000_0000) by (bit_vector);
}

/// A 64-bit integer is written as eight bytes, least significant first, that
/// hold the number (its two's complement where it is signed).
pub proof fn law_bytes_of_64_bit(u: u64, i: i64)
    ensures
        encode(Value::U64(u)).error is None,
        encode(Value::U64(u)).bytes.len() == 8,
        le_value(encode(Value::U64(u)).bytes) == u,
        encode(Value::I64(i)).error is None,
        encode(Value::I64(i)).bytes.len() == 8,
        le_value(encode(Value::I64(i)).bytes) == twos_complement(i as int, 0x1_0000_0000_0000_0000),
{
    lemma_pow256_values();
    lemma_le_value_of_le_bytes(u as nat, 8);
    lemma_le_value_of_le_bytes((i as u64) as nat, 8);
    assert(i >= 0 ==> (i as u64) as int == i as int) by (bit_vector);
    assert(i < 0 ==> (i as u64) as int == i as int + 0x1_0000_0000_0000_0000) by (bit_vector);
}

/// A float is written as its whole IEEE-754 bit pattern, sign bit included,
/// least significant byte first: four bytes for an `f32`, eight for an `f64`.
pub proof fn law_bytes_of_floats(bits32: u32, bits64: u64)
    ensures
        encode(Value::F32(bits32)).error is None,
        encode(Value::F32(bits32)).bytes.len() == 4,
        le_value(encode(Value::F32(bits32)).bytes) == bits32,
        encode(Value::F64(bits64)).error is None,
        encode(Value::F64(bits64)).bytes.len() == 8,
        le_value(encode(Value::F64(bits64)).bytes) == bits64,
{
    lemma_pow256_values();
    lemma_le_value_of_le_bytes(bits32 as nat, 4);
    lemma_le_value_of_le_bytes(bits64 as nat, 8);
}

/// `s` is a run of bytes preceded by a four-byte little-endian field that
/// holds its full length, cut to 32 bits.
pub open spec fn is_sized(s: Seq<u8>, run: Seq<u8>) -> bool {
    &&& s.len() == 4 + run.len()
    &&& le_value(s.take(4)) == run.len() % 0x1_0000_0000
    &&& s.skip(4) == run
}

proof fn lemma_sized_is_sized(run: Seq<u8>)
    ensures
        is_sized(crate::wire::sized(run), run),
{
    lemma_pow256_values();
    lemma_le_value_of_le_bytes(run.len() % 0x1_0000_0000, 4);
    let s = crate::wire::sized(run);
    assert(s.take(4) =~= crate::wire::size_field(run.len()));
    assert(s.skip(4) =~= run);
}

/// Bytes and strings are written as their bytes (a string's UTF-8 bytes)
/// after a four-byte little-endian field that holds their full length.
pub proof fn law_bytes_of_byte_runs(b: Vec<u8>, s: String)
    ensures
        encode(Value::Bytes(b)).error is None,
        is_sized(encode(Value::Bytes(b)).bytes, b@),
        encode(Value::Str(s)).error is None,
        is_sized(encode(Value::Str(s)).bytes, encode_utf8(s@)),
{
    lemma_sized_is_sized(b@);
    lemma_sized_is_sized(encode_utf8(s@));
}

/// A message is its data after a four-byte little-endian field that holds
/// the full length of the data, the same whether it is returned or written;
/// a failed write leaves a zero field before the data written up to the
/// failure.
pub proof fn law_message_field_holds_length(v: Value)
    ensures
        payload(v) matches Ok(p) ==> message(v) matches Ok(m) && is_sized(m, p) && framed_output(v) == m,
        payload(v) is Err ==> framed_output(v).len() == 4 + encode(v).bytes.len()
            && le_value(framed_output(v).take(4)) == 0 && framed_output(v).skip(4) == encode(v).bytes,
{
    if let Ok(p) = payload(v) {
        lemma_sized_is_sized(p);
    } else {
        lemma_le_value_of_le_bytes(0, 4);
        lemma_pow256_values();
        assert(crate::wire::le_u32(0) == le_bytes(0, 4));
        let f = framed_output(v);
        assert(f.take(4) =~= crate::wire::le_u32(0));
        assert(f.skip(4) =~= encode(v).bytes);
    }
}

/// A sequence with an announced length is written as a four-byte
/// little-endian field that holds that length (cut to 32 bits), then its
/// elements in turn; one without is refused and writes nothing.
pub proof fn law_sequence_count_field(n: usize, elems: Vec<Value>, unannounced: Vec<Value>)
    ensures
        ({
            let e = encode(Value::Sequence(Some(n), elems));
            let body = encode_all(elems@);
            &&& e.error == body.error
            &&& e.bytes.len() == 4 + body.bytes.len()
            &&& le_value(e.bytes.take(4)) == n as nat % 0x1_0000_0000
            &&& e.bytes.skip(4) == body.bytes
        }),
        encode(Value::Sequence(None, unannounced)).bytes == Seq::<u8>::empty(),
        encode(Value::Sequence(None, unannounced)).error
            == Some(crate::error::Error::VariableArraySizeAnnotation),
{
    lemma_size_field_of_usize(n);
    lemma_pow256_values();
    lemma_le_value_of_le_bytes(n as nat % 0x1_0000_0000, 4);
    let e = encode(Value::Sequence(Some(n), elems));
    assert(e.bytes.take(4) =~= crate::wire::le_u32(n as u32));
    assert(e.bytes.skip(4) =~= encode_all(elems@).bytes);
}

/// Within a struct, tuple, tuple struct or array, each element is written
/// exactly as it is written on its own, after those before it, and up to the
/// first that fails.
pub proof fn law_elements_written_as_on_their_own(s: Seq<Value>, x: Value, fields: Vec<Value>)
    ensures
        encode_all(seq![x]) == encode(x),
        encode_all(s).error is None ==> encode_all(s.push(x)).bytes == encode_all(s).bytes + encode(x).bytes
            && encode_all(s.push(x)).error == encode(x).error,
        encode_all(s).error is Some ==> encode_all(s.push(x)) == encode_all(s),
        encode(Value::Struct(fields)) == encode_all(fields@),
        encode(Value::Tuple(fields)) == encode_all(fields@),
        encode(Value::TupleStruct(fields)) == encode_all(fields@),
{
    assert(seq![x].drop_last() =~= Seq::<Value>::empty());
    assert(s.push(x).drop_last() =~= s);
    let e = encode(x);
    assert(seq![x].last() == x);
    assert(encode_all(Seq::<Value>::empty()).bytes == Seq::<u8>::empty());
    assert(encode_all(seq![x]).bytes =~= e.bytes);
}

/// A key handed to a map serializer starts a fresh item, whatever item was
/// pending and whatever was written before: the key's encoding without its
/// first four bytes, then `=`; nothing is written.  For a string key, the
/// item is its UTF-8 bytes and `=`.
pub proof fn law_map_key_starts_fresh_item(
    before: Seq<u8>,
    after: Seq<u8>,
    item_before: Seq<u8>,
    item_after: Seq<u8>,
    k: Value,
    r: Result<(), crate::error::Error>,
)
    requires
        performs_map_step(before, after, item_before, item_after, MapEntry::Key(k), r),
        encode(k).error is None,
    ensures
        after == before,
        r is Ok,
        item_after == drop_size_field(encode(k).bytes).push(61u8),
        k matches Value::Str(s) ==> item_after == encode_utf8(s@).push(61u8),
{
    if let Value::Str(s) = k {
        crate::laws::law_drop_size_field_of_sized(encode_utf8(s@));
    }
}

/// A value handed to a map serializer adds its encoding without its first
/// four bytes to the pending item, and writes the item after a four-byte
/// little-endian field that holds its length, after what was written before.
pub proof fn law_map_value_writes_item(
    before: Seq<u8>,
    after: Seq<u8>,
    item_before: Seq<u8>,
    item_after: Seq<u8>,
    x: Value,
    r: Result<(), crate::error::Error>,
)
    requires
        performs_map_step(before, after, item_before, item_after, MapEntry::Val(x), r),
        encode(x).error is None,
    ensures
        r is Ok,
        item_after == item_before + drop_size_field(encode(x).bytes),
        after.len() >= before.len(),
        after.take(before.len() as int) == before,
        is_sized(after.skip(before.len() as int), item_after),
        x matches Value::Str(s) ==> item_after == item_before + encode_utf8(s@),
{
    lemma_sized_is_sized(item_after);
    assert(after.take(before.len() as int) =~= before);
    assert(after.skip(before.len() as int) =~= crate::wire::sized(item_after));
    if let Value::Str(s) = x {
        crate::laws::law_drop_size_field_of_sized(encode_utf8(s@));
    }
}

} // verus!
