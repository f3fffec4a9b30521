//! Fixed-width integers in network byte order.

use byteorder::{ByteOrder, NetworkEndian};
use vstd::prelude::*;
use vstd::slice::slice_subrange;

verus! {

/// The number that four bytes denote when read most significant byte first.
pub open spec fn be_u32(b: Seq<u8>) -> int
    recommends
        b.len() == 4,
{
    b[0] as int * 0x100_0000 + b[1] as int * 0x1_0000 + b[2] as int * 0x100 + b[3] as int
}

/// The four bytes that denote `n`, most significant byte first.
pub open spec fn u32_be_bytes(n: u32) -> Seq<u8> {
    seq![
        (n as int / 0x100_0000) as u8,
        (n as int / 0x1_0000 % 0x100) as u8,
        (n as int / 0x100 % 0x100) as u8,
        (n as int % 0x100) as u8,
    ]
}

/// Four bytes always denote a number that fits in a `u32`.
pub proof fn lemma_be_u32_range(b: Seq<u8>)
    ensures
        0 <= be_u32(b) <= u32::MAX,
{
}

/// Reading the bytes written for `n` gives `n` back.
pub proof fn lemma_be_u32_of_bytes(n: u32)
    ensures
        u32_be_bytes(n).len() == 4,
        be_u32(u32_be_bytes(n)) == n,
{
}

/// Writing the number read from four bytes gives the same four bytes.
pub proof fn lemma_bytes_of_be_u32(b: Seq<u8>)
    requires
        b.len() == 4,
    ensures
        u32_be_bytes(be_u32(b) as u32) == b,
{
    let (b0, b1, b2, b3) = (b[0] as int, b[1] as int, b[2] as int, b[3] as int);
    let n = be_u32(b);
    assert(n / 0x100_0000 == b0);
    assert(n / 0x1_0000 == b0 * 0x100 + b1);
    assert(n / 0x100 == b0 * 0x1_0000 + b1 * 0x100 + b2);
    assert(n / 0x1_0000 % 0x100 == b1);
    assert(n / 0x100 % 0x100 == b2);
    assert(n % 0x100 == b3);
    assert(u32_be_bytes(n as u32) =~= b);
}

/// Calls `byteorder::ByteOrder::read_u32` of `NetworkEndian`, which reads the
/// first four bytes of `buf` as a big-endian number and panics on a shorter
/// buffer.
#[verifier::external_body]
fn read_u32_prefix(buf: &[u8]) -> (n: u32)
    requires
        buf@.len() >= 4,
    ensures
        n == be_u32(buf@.subrange(0, 4)),
{
    NetworkEndian::read_u32(buf)
}

/// Calls `byteorder::ByteOrder::write_u32` of `NetworkEndian` on a buffer of
/// four bytes, which it fills with `n` as a big-endian number.
#[verifier::external_body]
fn u32_to_be(n: u32) -> (bytes: [u8; 4])
    ensures
        bytes@ == u32_be_bytes(n),
{
    let mut bytes = [0u8; 4];
    NetworkEndian::write_u32(&mut bytes, n);
    bytes
}

/// The two bytes that denote `n`, most significant byte first.
pub open spec fn u16_be_bytes(n: u16) -> Seq<u8> {
    seq![(n as int / 0x100) as u8, (n as int % 0x100) as u8]
}

/// Calls `byteorder::ByteOrder::write_u16` of `NetworkEndian` on a buffer of
/// two bytes, which it fills with `n` as a big-endian number.
#[verifier::external_body]
fn u16_to_be(n: u16) -> (bytes: [u8; 2])
    ensures
        bytes@ == u16_be_bytes(n),
{
    let mut bytes = [0u8; 2];
    NetworkEndian::write_u16(&mut bytes, n);
    bytes
}

/// Appends `n` to `buf` as a big-endian `u16`.
pub fn put_u16(buf: &mut Vec<u8>, n: u16)
    ensures
        final(buf)@ == old(buf)@ + u16_be_bytes(n),
{
    let bytes = u16_to_be(n);
    buf.extend_from_slice(bytes.as_slice());
}

/// Appends `n` to `buf` as a big-endian `u32`.
pub fn put_u32(buf: &mut Vec<u8>, n: u32)
    ensures
        final(buf)@ == old(buf)@ + u32_be_bytes(n),
{
    let bytes = u32_to_be(n);
    buf.extend_from_slice(bytes.as_slice());
}

/// Reads the big-endian `u32` that starts at `at`, or `None` when fewer than
/// four bytes remain there.
pub fn get_u32(buf: &[u8], at: usize) -> (r: Option<u32>)
    ensures
        at + 4 <= buf@.len() ==> r == Some(be_u32(buf@.subrange(at as int, at + 4)) as u32),
        at + 4 > buf@.len() ==> r.is_none(),
{
    if at > buf.len() || buf.len() - at < 4 {
        return None;
    }
    let rest = slice_subrange(buf, at, buf.len());
    let n = read_u32_prefix(rest);
    proof {
        assert(rest@.subrange(0, 4) =~= buf@.subrange(at as int, at + 4));
        lemma_be_u32_range(rest@.subrange(0, 4));
    }
    Some(n)
}

} // verus!
