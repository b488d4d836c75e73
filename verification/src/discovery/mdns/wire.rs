//! Integers on the wire, in network byte order.

use vstd::prelude::*;
use bytes::Buf;

verus! {

/// The 16-bit integer whose two bytes, the high one first, are `hi` and
/// `lo`.
pub open spec fn be16_value(hi: u8, lo: u8) -> u16 {
    (hi as int * 0x100 + lo as int) as u16
}

/// The 32-bit integer whose four bytes, the highest first, are `b0` to
/// `b3`.
pub open spec fn be32_value(b0: u8, b1: u8, b2: u8, b3: u8) -> u32 {
    (b0 as int * 0x100_0000 + b1 as int * 0x1_0000 + b2 as int * 0x100 + b3 as int) as u32
}

/// The two bytes of `x`, the high one first.
pub open spec fn be16(x: u16) -> Seq<u8> {
    seq![(x / 0x100) as u8, (x % 0x100) as u8]
}

/// The four bytes of `x`, the highest first.
pub open spec fn be32(x: u32) -> Seq<u8> {
    seq![
        (x / 0x100_0000) as u8,
        ((x / 0x1_0000) % 0x100) as u8,
        ((x / 0x100) % 0x100) as u8,
        (x % 0x100) as u8,
    ]
}

/// The 16-bit integer at `pos` in `data`.
pub open spec fn u16_at(data: Seq<u8>, pos: int) -> u16 {
    be16_value(data[pos], data[pos + 1])
}

/// The 32-bit integer at `pos` in `data`.
pub open spec fn u32_at(data: Seq<u8>, pos: int) -> u32 {
    be32_value(data[pos], data[pos + 1], data[pos + 2], data[pos + 3])
}

/// `bytes::Buf::get_u8` on the bytes of `data` from `pos` on: the first of
/// them.
#[verifier::external_body]
pub(crate) fn get_u8(data: &[u8], pos: usize) -> (value: u8)
    requires
        pos < data@.len(),
    ensures
        value == data@[pos as int],
{
    let mut rest = &data[pos..];
    rest.get_u8()
}

/// `bytes::Buf::get_u16` on the bytes of `data` from `pos` on: the first
/// two of them as an integer in big-endian order.
#[verifier::external_body]
pub(crate) fn get_u16(data: &[u8], pos: usize) -> (value: u16)
    requires
        pos + 2 <= data@.len(),
    ensures
        value == u16_at(data@, pos as int),
{
    let mut rest = &data[pos..];
    rest.get_u16()
}

/// `bytes::Buf::get_u32` on the bytes of `data` from `pos` on: the first
/// four of them as an integer in big-endian order.
#[verifier::external_body]
pub(crate) fn get_u32(data: &[u8], pos: usize) -> (value: u32)
    requires
        pos + 4 <= data@.len(),
    ensures
        value == u32_at(data@, pos as int),
{
    let mut rest = &data[pos..];
    rest.get_u32()
}

/// Appends the two bytes of `x`, the high one first, to `buffer`.
pub fn put_u16(buffer: &mut Vec<u8>, x: u16)
    ensures
        final(buffer)@ == old(buffer)@ + be16(x),
{
    buffer.push((x / 0x100) as u8);
    buffer.push((x % 0x100) as u8);
    assert(buffer@ =~= old(buffer)@ + be16(x));
}

/// Appends the four bytes of `x`, the highest first, to `buffer`.
pub fn put_u32(buffer: &mut Vec<u8>, x: u32)
    ensures
        final(buffer)@ == old(buffer)@ + be32(x),
{
    buffer.push((x / 0x100_0000) as u8);
    buffer.push(((x / 0x1_0000) % 0x100) as u8);
    buffer.push(((x / 0x100) % 0x100) as u8);
    buffer.push((x % 0x100) as u8);
    assert(buffer@ =~= old(buffer)@ + be32(x));
}

/// The bytes of a 16-bit integer, read back, give the integer.
pub proof fn lemma_be16_read_back(data: Seq<u8>, pos: int, x: u16)
    requires
        0 <= pos,
        pos + 2 <= data.len(),
        data.subrange(pos, pos + 2) == be16(x),
    ensures
        u16_at(data, pos) == x,
{
    assert(data[pos] == data.subrange(pos, pos + 2)[0]);
    assert(data[pos + 1] == data.subrange(pos, pos + 2)[1]);
}

/// The bytes of a 32-bit integer, read back, give the integer.
pub proof fn lemma_be32_read_back(data: Seq<u8>, pos: int, x: u32)
    requires
        0 <= pos,
        pos + 4 <= data.len(),
        data.subrange(pos, pos + 4) == be32(x),
    ensures
        u32_at(data, pos) == x,
{
    let part = data.subrange(pos, pos + 4);
    assert(data[pos] == part[0]);
    assert(data[pos + 1] == part[1]);
    assert(data[pos + 2] == part[2]);
    assert(data[pos + 3] == part[3]);
}

} // verus!
