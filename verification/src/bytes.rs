//! Reading fixed-width integers out of byte buffers, through `byteorder`.

use vstd::prelude::*;
use byteorder::ByteOrder;

verus! {

pub open spec fn le16(b: Seq<u8>, off: int) -> int {
    b[off] + 256 * b[off + 1]
}

pub open spec fn be16(b: Seq<u8>, off: int) -> int {
    256 * b[off] + b[off + 1]
}

pub open spec fn le32(b: Seq<u8>, off: int) -> int {
    le16(b, off) + 65536 * le16(b, off + 2)
}

pub open spec fn be32(b: Seq<u8>, off: int) -> int {
    65536 * be16(b, off) + be16(b, off + 2)
}

pub open spec fn be64(b: Seq<u8>, off: int) -> int {
    4294967296 * be32(b, off) + be32(b, off + 4)
}

/// `byteorder::LittleEndian::read_u16` on `buf[off..]`: the two bytes at
/// `off`, least significant first.
#[verifier::external_body]
pub(crate) fn read_u16_le(buf: &[u8], off: usize) -> (r: u16)
    requires
        off + 2 <= buf.len(),
    ensures
        r == le16(buf@, off as int),
{
    byteorder::LittleEndian::read_u16(&buf[off..])
}

/// `byteorder::BigEndian::read_u16` on `buf[off..]`: the two bytes at
/// `off`, most significant first.
#[verifier::external_body]
pub(crate) fn read_u16_be(buf: &[u8], off: usize) -> (r: u16)
    requires
        off + 2 <= buf.len(),
    ensures
        r == be16(buf@, off as int),
{
    byteorder::BigEndian::read_u16(&buf[off..])
}

/// `byteorder::LittleEndian::read_u32` on `buf[off..]`: the four bytes at
/// `off`, least significant first.
#[verifier::external_body]
pub(crate) fn read_u32_le(buf: &[u8], off: usize) -> (r: u32)
    requires
        off + 4 <= buf.len(),
    ensures
        r == le32(buf@, off as int),
{
    byteorder::LittleEndian::read_u32(&buf[off..])
}

/// `byteorder::BigEndian::read_u64` on `buf[off..]`: the eight bytes at
/// `off`, most significant first.
#[verifier::external_body]
pub(crate) fn read_u64_be(buf: &[u8], off: usize) -> (r: u64)
    requires
        off + 8 <= buf.len(),
    ensures
        r == be64(buf@, off as int),
{
    byteorder::BigEndian::read_u64(&buf[off..])
}

/// A 16-bit word in the given byte order.
pub open spec fn word16(b: Seq<u8>, off: int, big_endian: bool) -> int {
    if big_endian {
        be16(b, off)
    } else {
        le16(b, off)
    }
}

pub fn read_u16(buf: &[u8], off: usize, big_endian: bool) -> (r: u16)
    requires
        off + 2 <= buf.len(),
    ensures
        r == word16(buf@, off as int, big_endian),
{
    if big_endian {
        read_u16_be(buf, off)
    } else {
        read_u16_le(buf, off)
    }
}

/// A 48-bit value stored as three 16-bit words, least significant word
/// first (each word in the given byte order).
pub open spec fn word48(b: Seq<u8>, off: int, big_endian: bool) -> int {
    word16(b, off, big_endian) + 65536 * word16(b, off + 2, big_endian) + 4294967296 * word16(
        b,
        off + 4,
        big_endian,
    )
}

pub fn read_48bit(buf: &[u8], off: usize, big_endian: bool) -> (r: u64)
    requires
        off + 6 <= buf.len(),
    ensures
        r == word48(buf@, off as int, big_endian),
        r < 0x1_0000_0000_0000,
{
    let s1 = read_u16(buf, off, big_endian) as u64;
    let s2 = read_u16(buf, off + 2, big_endian) as u64;
    let s3 = read_u16(buf, off + 4, big_endian) as u64;
    s1 + 65536 * s2 + 4294967296 * s3
}

} // verus!
