//! The packet format: a 4-byte length, an 8-byte send timestamp, an 8-byte
//! sequence number and padding, all integers big-endian; a length below 16
//! ends the stream.

use bytes::BufMut;
use vstd::prelude::*;

verus! {

/// Bytes of the length prefix.
pub const LEN_PREFIX: usize = 4;

/// Bytes of timestamp and sequence number together: the least length that a
/// data packet announces.
pub const HEADER_LEN: u32 = 16;

/// The least size of a whole data packet, prefix included.
pub const MIN_PACKET_LEN: usize = 20;

/// The greatest size of a whole data packet: its length field has 32 bits.
pub open spec fn max_packet_len() -> int {
    0xffff_ffff + 4int
}

/// The four bytes of `v`, most significant first.
pub open spec fn be32(v: u32) -> Seq<u8> {
    seq![
        (v / 0x100_0000) as u8,
        (v / 0x1_0000 % 0x100) as u8,
        (v / 0x100 % 0x100) as u8,
        (v % 0x100) as u8,
    ]
}

/// The number that four bytes spell, most significant first.
pub open spec fn from_be32(s: Seq<u8>) -> u32
    recommends
        s.len() == 4,
{
    (s[0] * 0x100_0000 + s[1] * 0x1_0000 + s[2] * 0x100 + s[3]) as u32
}

/// The eight bytes of `v`, most significant first.
pub open spec fn be64(v: u64) -> Seq<u8> {
    be32((v / 0x1_0000_0000) as u32) + be32((v % 0x1_0000_0000) as u32)
}

/// The number that eight bytes spell, most significant first.
pub open spec fn from_be64(s: Seq<u8>) -> u64
    recommends
        s.len() == 8,
{
    (from_be32(s.take(4)) * 0x1_0000_0000 + from_be32(s.skip(4))) as u64
}

/// The two's complement of `v` in 64 bits.
pub open spec fn twos(v: i64) -> u64 {
    if v >= 0 {
        v as u64
    } else {
        (v + 0x1_0000_0000_0000_0000) as u64
    }
}

/// The signed number whose two's complement in 64 bits is `u`.
pub open spec fn signed(u: u64) -> i64 {
    if u < 0x8000_0000_0000_0000 {
        u as i64
    } else {
        (u - 0x1_0000_0000_0000_0000) as i64
    }
}

/// `buf` with the bytes from `at` on replaced by `bytes`, as far as they reach.
pub open spec fn overwrite(buf: Seq<u8>, at: int, bytes: Seq<u8>) -> Seq<u8>
    recommends
        0 <= at,
        at + bytes.len() <= buf.len(),
{
    buf.take(at) + bytes + buf.skip(at + bytes.len())
}

/// A data packet on the wire: the length of all that follows the prefix, the
/// send time in milliseconds since the epoch, the sequence number, padding.
pub open spec fn data_packet(timestamp_ms: i64, sequence: u64, padding: Seq<u8>) -> Seq<u8>
    recommends
        HEADER_LEN + padding.len() <= u32::MAX,
{
    be32((HEADER_LEN + padding.len()) as u32) + be64(twos(timestamp_ms)) + be64(sequence)
        + padding
}

/// The packet that ends a stream: a bare length of zero.
pub open spec fn terminator() -> Seq<u8> {
    be32(0)
}

/// `bytes::BufMut::put_u32` on the slice `buf[at..]`: the four bytes from
/// `at` on become `v` in big-endian order, and no other byte changes. The
/// slice is long enough, so the call does not panic.
#[verifier::external_body]
pub(crate) fn put_u32_at(buf: &mut Vec<u8>, at: usize, v: u32)
    requires
        at + 4 <= old(buf).len(),
    ensures
        final(buf)@ == overwrite(old(buf)@, at as int, be32(v)),
{
    let mut cursor: &mut [u8] = &mut buf[at..];
    cursor.put_u32(v);
}

/// `bytes::BufMut::put_u64` on the slice `buf[at..]`: the eight bytes from
/// `at` on become `v` in big-endian order, and no other byte changes.
#[verifier::external_body]
pub(crate) fn put_u64_at(buf: &mut Vec<u8>, at: usize, v: u64)
    requires
        at + 8 <= old(buf).len(),
    ensures
        final(buf)@ == overwrite(old(buf)@, at as int, be64(v)),
{
    let mut cursor: &mut [u8] = &mut buf[at..];
    cursor.put_u64(v);
}

/// `bytes::BufMut::put_i64` on the slice `buf[at..]`: the eight bytes from
/// `at` on become the two's complement of `v` in big-endian order, and no
/// other byte changes.
#[verifier::external_body]
pub(crate) fn put_i64_at(buf: &mut Vec<u8>, at: usize, v: i64)
    requires
        at + 8 <= old(buf).len(),
    ensures
        final(buf)@ == overwrite(old(buf)@, at as int, be64(twos(v))),
{
    let mut cursor: &mut [u8] = &mut buf[at..];
    cursor.put_i64(v);
}

/// Writes the header of a data packet over the first 20 bytes of `buf`, whose
/// whole length is the packet's size. What follows the header stays as it
/// was and is the packet's padding.
pub fn encode_data_packet(buf: &mut Vec<u8>, timestamp_ms: i64, sequence: u64)
    requires
        MIN_PACKET_LEN <= old(buf).len() <= max_packet_len(),
    ensures
        final(buf)@ == data_packet(timestamp_ms, sequence, old(buf)@.skip(20)),
        final(buf).len() == old(buf).len(),
{
    let payload_len: u32 = (buf.len() - LEN_PREFIX) as u32;
    put_u32_at(buf, 0, payload_len);
    put_i64_at(buf, 4, timestamp_ms);
    put_u64_at(buf, 12, sequence);
    assert(buf@ =~= data_packet(timestamp_ms, sequence, old(buf)@.skip(20)));
}

/// Writes the terminator over the first 4 bytes of `buf`. The rest of `buf`
/// stays as it was and is no part of the terminator.
pub fn encode_terminator(buf: &mut Vec<u8>)
    requires
        LEN_PREFIX <= old(buf).len(),
    ensures
        final(buf)@ == terminator() + old(buf)@.skip(4),
{
    put_u32_at(buf, 0, 0);
    assert(buf@ =~= terminator() + old(buf)@.skip(4));
}

/// Four bytes spell the number whose bytes they are.
pub proof fn lemma_be32_round_trip(v: u32)
    ensures
        be32(v).len() == 4,
        from_be32(be32(v)) == v,
{
}

/// A number's bytes are the four bytes that spell it.
pub proof fn lemma_from_be32_round_trip(s: Seq<u8>)
    requires
        s.len() == 4,
    ensures
        be32(from_be32(s)) == s,
{
    lemma_digits(s[0] as int, s[1] as int, s[2] as int, s[3] as int);
    assert(be32(from_be32(s)) =~= s);
}

/// Four base-256 digits are recovered from the number that they spell.
proof fn lemma_digits(a: int, b: int, c: int, d: int)
    requires
        0 <= a < 0x100,
        0 <= b < 0x100,
        0 <= c < 0x100,
        0 <= d < 0x100,
    ensures
        ({
            let v = a * 0x100_0000 + b * 0x1_0000 + c * 0x100 + d;
            &&& 0 <= v <= 0xffff_ffff
            &&& v / 0x100_0000 == a
            &&& v / 0x1_0000 % 0x100 == b
            &&& v / 0x100 % 0x100 == c
            &&& v % 0x100 == d
        }),
{
    let v = a * 0x100_0000 + b * 0x1_0000 + c * 0x100 + d;
    let v1 = a * 0x1_0000 + b * 0x100 + c;
    let v2 = a * 0x100 + b;
    assert(v == v1 * 0x100 + d);
    assert(v / 0x100 == v1 && v % 0x100 == d);
    assert(v1 == v2 * 0x100 + c);
    assert(v1 / 0x100 == v2 && v1 % 0x100 == c);
    assert(v / 0x1_0000 == v2);
    assert(v2 / 0x100 == a && v2 % 0x100 == b);
    assert(v / 0x100_0000 == a);
}

/// Eight bytes spell the number whose bytes they are.
pub proof fn lemma_be64_round_trip(v: u64)
    ensures
        be64(v).len() == 8,
        from_be64(be64(v)) == v,
{
    let hi = (v / 0x1_0000_0000) as u32;
    let lo = (v % 0x1_0000_0000) as u32;
    lemma_be32_round_trip(hi);
    lemma_be32_round_trip(lo);
    assert(be64(v).take(4) =~= be32(hi));
    assert(be64(v).skip(4) =~= be32(lo));
}

/// Two's complement loses nothing.
pub proof fn lemma_twos_round_trip(v: i64)
    ensures
        signed(twos(v)) == v,
{
}

} // verus!
