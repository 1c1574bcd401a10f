use byteorder::{ByteOrder, LittleEndian};
use vstd::prelude::*;

verus! {

/// The `width` least significant bytes of `v`, least significant first.
pub open spec fn le_bytes(v: nat, width: nat) -> Seq<u8>
    decreases width,
{
    if width == 0 {
        Seq::empty()
    } else {
        seq![(v % 256) as u8] + le_bytes(v / 256, (width - 1) as nat)
    }
}

pub open spec fn le_u16(v: u16) -> Seq<u8> {
    le_bytes(v as nat, 2)
}

pub open spec fn le_u32(v: u32) -> Seq<u8> {
    le_bytes(v as nat, 4)
}

pub open spec fn le_u64(v: u64) -> Seq<u8> {
    le_bytes(v as nat, 8)
}

/// The ROSMSG size field of a run of `len` bytes: the length, cut to 32 bits
/// (as `len as u32` does), in four bytes, least significant first.
pub open spec fn size_field(len: nat) -> Seq<u8> {
    le_bytes(len % 0x1_0000_0000, 4)
}

/// The size field of a length that a `usize` holds is that length cast to
/// `u32`, in little-endian order.
pub proof fn lemma_size_field_of_usize(n: usize)
    ensures
        le_u32(n as u32) == size_field(n as nat),
{
    assert((n as u32) as u64 == (n as u64) % 0x1_0000_0000) by (bit_vector);
}

/// A run of bytes preceded by its size field.
pub open spec fn sized(bytes: Seq<u8>) -> Seq<u8> {
    size_field(bytes.len()) + bytes
}

/// `byteorder::LittleEndian::write_u16` on a two-byte buffer: its contract
/// claims that the buffer then holds `n` in little-endian order
/// (byteorder copies `n.to_le_bytes()` into it).
#[verifier::external_body]
pub(crate) fn u16_le(n: u16) -> (b: [u8; 2])
    ensures
        b@ == le_u16(n),
{
    let mut b = [0u8; 2];
    LittleEndian::write_u16(&mut b, n);
    b
}

/// `byteorder::LittleEndian::write_u32` on a four-byte buffer: its contract
/// claims that the buffer then holds `n` in little-endian order
/// (byteorder copies `n.to_le_bytes()` into it).
#[verifier::external_body]
pub(crate) fn u32_le(n: u32) -> (b: [u8; 4])
    ensures
        b@ == le_u32(n),
{
    let mut b = [0u8; 4];
    LittleEndian::write_u32(&mut b, n);
    b
}

/// `byteorder::LittleEndian::write_u64` on an eight-byte buffer: its contract
/// claims that the buffer then holds `n` in little-endian order
/// (byteorder copies `n.to_le_bytes()` into it).
#[verifier::external_body]
pub(crate) fn u64_le(n: u64) -> (b: [u8; 8])
    ensures
        b@ == le_u64(n),
{
    let mut b = [0u8; 8];
    LittleEndian::write_u64(&mut b, n);
    b
}

/// Appends `bytes` to `out`.
pub(crate) fn append_bytes(out: &mut Vec<u8>, bytes: &[u8])
    ensures
        final(out)@ == old(out)@ + bytes@,
{
    let n = bytes.len();
    let mut i: usize = 0;
    while i < n
        invariant
            i <= n,
            n == bytes@.len(),
            out@ == old(out)@ + bytes@.take(i as int),
        decreases n - i,
    {
        assert(bytes@.take(i + 1) == bytes@.take(i as int).push(bytes@[i as int]));
        out.push(bytes[i]);
        i += 1;
    }
    assert(bytes@.take(n as int) == bytes@);
}

} // verus!
