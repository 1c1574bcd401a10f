use vstd::prelude::*;
use vstd::utf8::encode_utf8;

use crate::encoding::{
    drop_size_field, encode, encode_all, encode_map, framed_output, map_step, message, payload,
    written, Encoding, MapState,
};
use crate::cursor::write_at;
use crate::error::Error;
use crate::value::{MapEntry, Value};
use crate::wire::{le_bytes, le_u32, size_field, sized};

verus! {

/// Whether every part of `v` has a ROSMSG representation: no `char`, no enum
/// or `Option`, no sequence without an announced length, and no point at
/// which the value's own `Serialize` implementation failed.
pub open spec fn supported(v: Value) -> bool
    decreases v,
{
    match v {
        Value::Char(_) => false,
        Value::OptionNone => false,
        Value::OptionSome => false,
        Value::UnitVariant => false,
        Value::NewtypeVariant => false,
        Value::TupleVariant => false,
        Value::StructVariant => false,
        Value::Failed(_) => false,
        Value::NewtypeStruct(inner) => supported(*inner),
        Value::Sequence(len, elems) => len is Some && all_supported(elems@),
        Value::Tuple(elems) => all_supported(elems@),
        Value::TupleStruct(elems) => all_supported(elems@),
        Value::Struct(fields) => all_supported(fields@),
        Value::Mapping(entries) => all_entries_supported(entries@),
        _ => true,
    }
}

/// Whether every value of `s` is supported.
pub open spec fn all_supported(s: Seq<Value>) -> bool
    decreases s,
{
    if s.len() == 0 {
        true
    } else {
        all_supported(s.drop_last()) && supported(s.last())
    }
}

/// Whether every key and value handed to a map serializer is supported.
pub open spec fn all_entries_supported(s: Seq<MapEntry>) -> bool
    decreases s,
{
    if s.len() == 0 {
        true
    } else {
        all_entries_supported(s.drop_last()) && match s.last() {
            MapEntry::Key(k) => supported(k),
            MapEntry::Val(x) => supported(x),
        }
    }
}

/// Serialization of a value fails exactly when some part of it has no ROSMSG
/// representation.
pub proof fn law_fails_iff_unsupported(v: Value)
    ensures
        encode(v).error is None <==> supported(v),
        payload(v) is Ok <==> supported(v),
    decreases v,
{
    match v {
        Value::NewtypeStruct(inner) => law_fails_iff_unsupported(*inner),
        Value::Sequence(_, elems) => law_all_fail_iff_unsupported(elems@),
        Value::Tuple(elems) => law_all_fail_iff_unsupported(elems@),
        Value::TupleStruct(elems) => law_all_fail_iff_unsupported(elems@),
        Value::Struct(fields) => law_all_fail_iff_unsupported(fields@),
        Value::Mapping(entries) => law_map_fails_iff_unsupported(entries@),
        _ => {},
    }
}

/// Serialization of values one after the other fails exactly when one of
/// them is unsupported.
pub proof fn law_all_fail_iff_unsupported(s: Seq<Value>)
    ensures
        encode_all(s).error is None <==> all_supported(s),
    decreases s,
{
    if s.len() > 0 {
        law_all_fail_iff_unsupported(s.drop_last());
        law_fails_iff_unsupported(s.last());
    }
}

/// A map serializer fails exactly when one of the keys or values handed to it
/// is unsupported.
pub proof fn law_map_fails_iff_unsupported(s: Seq<MapEntry>)
    ensures
        encode_map(s).error is None <==> all_entries_supported(s),
    decreases s,
{
    if s.len() > 0 {
        law_map_fails_iff_unsupported(s.drop_last());
        let front = encode_map(s.drop_last());
        let step = map_step(front, s.last());
        match s.last() {
            MapEntry::Key(k) => {
                law_fails_iff_unsupported(k);
                assert(step.error is None <==> encode(k).error is None);
            },
            MapEntry::Val(x) => {
                law_fails_iff_unsupported(x);
                assert(step.error is None <==> encode(x).error is None);
            },
        }
    }
}

/// A size field is four bytes long.
pub proof fn law_size_field_len(n: nat)
    ensures
        size_field(n).len() == 4,
{
    lemma_le_bytes_len(n % 0x1_0000_0000, 4);
}

proof fn lemma_le_bytes_len(v: nat, width: nat)
    ensures
        le_bytes(v, width).len() == width,
    decreases width,
{
    if width > 0 {
        lemma_le_bytes_len(v / 256, (width - 1) as nat);
    }
}

/// A sized run without its first four bytes is the run itself.
pub proof fn law_drop_size_field_of_sized(p: Seq<u8>)
    ensures
        drop_size_field(sized(p)) == p,
{
    law_size_field_len(p.len());
    assert(sized(p).subrange(4, sized(p).len() as int) =~= p);
}

/// The message of a value is its data preceded by the length of the data:
/// `to_vec` succeeds exactly when `to_vec_skip_length` does, and its bytes
/// are those of `to_vec_skip_length` after a four-byte little-endian length.
pub proof fn law_message_is_length_then_data(v: Value)
    ensures
        message(v) is Ok <==> payload(v) is Ok,
        payload(v) matches Ok(p) ==> {
            let m = message(v)->Ok_0;
            &&& m.len() == p.len() + 4
            &&& m.subrange(0, 4) == size_field(p.len())
            &&& m.subrange(4, m.len() as int) == p
        },
        payload(v) matches Err(e) ==> message(v) == Err::<Seq<u8>, Error>(e),
{
    if let Ok(p) = payload(v) {
        law_size_field_len(p.len());
        let m = message(v)->Ok_0;
        assert(m.subrange(0, 4) =~= size_field(p.len()));
        assert(m.subrange(4, m.len() as int) =~= p);
    }
}

/// Writing a message to a stream leaves there the same bytes as `to_vec`
/// returns.
pub proof fn law_to_writer_same_as_to_vec(v: Value)
    ensures
        message(v) matches Ok(m) ==> framed_output(v) == m,
{
}

/// Writing a message at a position no further than the end of a stream keeps
/// the bytes before the position, puts the length of the data (not counting
/// its own four bytes) and the data there, and keeps what lies after them.
pub proof fn law_to_writer_at_position(buf: Seq<u8>, pos: nat, v: Value)
    requires
        pos <= buf.len(),
    ensures
        payload(v) matches Ok(b) ==> {
            let end = pos + 4 + b.len();
            &&& write_at(buf, pos, framed_output(v)) == buf.take(pos as int) + size_field(b.len()) + b
                + if end < buf.len() { buf.subrange(end as int, buf.len() as int) } else { Seq::empty() }
            &&& pos + framed_output(v).len() == end
        },
{
    if let Ok(b) = payload(v) {
        law_size_field_len(b.len());
        assert(framed_output(v) == size_field(b.len()) + b);
        assert(buf.take(pos as int) + (size_field(b.len()) + b) =~= buf.take(pos as int) + size_field(b.len()) + b);
    }
}

/// Writing a message at the end of a stream appends it.
pub proof fn law_to_writer_at_end_appends(buf: Seq<u8>, v: Value)
    ensures
        write_at(buf, buf.len(), framed_output(v)) == buf + framed_output(v),
{
    assert(buf.take(buf.len() as int) =~= buf);
}

/// Writing the message of a value over that same message, from its start,
/// gives the message back, and leaves the position at its end.
pub proof fn law_to_writer_rewrites_in_place(v: Value)
    ensures
        message(v) matches Ok(m) ==> write_at(m, 0, framed_output(v)) == m
            && 0 + framed_output(v).len() == m.len(),
{
    if let Ok(m) = message(v) {
        assert(framed_output(v) == m);
        assert(m.take(0) + m =~= m);
    }
}

/// A sequence is written as its announced length, then as the tuple of its
/// elements: a vector is an array with its element count in front.
pub proof fn law_sequence_is_length_then_tuple(n: usize, elems: Vec<Value>)
    ensures
        ({
            let tuple = encode_all(elems@);
            encode(Value::Sequence(Some(n), elems)) == Encoding {
                bytes: le_u32(n as u32) + tuple.bytes,
                error: tuple.error,
            }
        }),
{
}

/// A string is written as its UTF-8 bytes would be.
pub proof fn law_str_is_utf8_bytes(s: String, b: Vec<u8>)
    requires
        b@ == encode_utf8(s@),
    ensures
        encode(Value::Str(s)) == encode(Value::Bytes(b)),
{
}

/// A newtype struct is written as the value that it wraps.
pub proof fn law_newtype_is_transparent(v: Value)
    ensures
        encode(Value::NewtypeStruct(Box::new(v))) == encode(v),
{
}

/// Values written one after the other compose: the values of `a + b` write
/// the bytes of `a`, then those of `b`, when `a` succeeds; when `a` fails,
/// `b` is never reached.
pub proof fn law_encode_all_concat(a: Seq<Value>, b: Seq<Value>)
    ensures
        encode_all(a).error is None ==> encode_all(a + b) == (Encoding {
            bytes: encode_all(a).bytes + encode_all(b).bytes,
            error: encode_all(b).error,
        }),
        encode_all(a).error is Some ==> encode_all(a + b) == encode_all(a),
    decreases b.len(),
{
    if b.len() == 0 {
        assert(a + b =~= a);
    } else {
        law_encode_all_concat(a, b.drop_last());
        assert((a + b).drop_last() =~= a + b.drop_last());
        assert((a + b).last() == b.last());
        if encode_all(a).error is None && encode_all(b.drop_last()).error is None {
            let x = encode_all(a).bytes;
            let y = encode_all(b.drop_last()).bytes;
            let z = encode(b.last()).bytes;
            assert(x + y + z =~= x + (y + z));
        }
    }
}

/// A map of strings is written as one sized `key=value` item per entry: a
/// key and its value, handed to a map serializer after the calls `s`, add
/// the item of their UTF-8 bytes joined by `=` to what `s` wrote.
pub proof fn law_string_map_entry(s: Seq<MapEntry>, k: String, x: String)
    requires
        encode_map(s).error is None,
    ensures
        ({
            let entry = encode_utf8(k@).push(61u8) + encode_utf8(x@);
            encode_map(s + seq![MapEntry::Key(Value::Str(k)), MapEntry::Val(Value::Str(x))])
                == (MapState { bytes: encode_map(s).bytes + sized(entry), error: None, item: entry })
        }),
{
    let all = s + seq![MapEntry::Key(Value::Str(k)), MapEntry::Val(Value::Str(x))];
    law_drop_size_field_of_sized(encode_utf8(k@));
    law_drop_size_field_of_sized(encode_utf8(x@));
    assert(all.drop_last().drop_last() =~= s);
    assert(all.drop_last().last() == MapEntry::Key(Value::Str(k)));
    assert(all.last() == MapEntry::Val(Value::Str(x)));
    let front = encode_map(s);
    let first = encode_map(all.drop_last());
    assert(first == map_step(front, MapEntry::Key(Value::Str(k))));
    assert(encode(Value::Str(k)) == written(sized(encode_utf8(k@))));
    assert(first.item == encode_utf8(k@).push(61u8));
    assert(first.error is None);
    assert(encode_map(all) == map_step(first, MapEntry::Val(Value::Str(x))));
    assert(encode(Value::Str(x)) == written(sized(encode_utf8(x@))));
}

} // verus!
