//! The receiving side of a connection: bytes come in as the socket delivers
//! them, packets come out one at a time, each as one latency sample.

use crate::latency::{Latency, Summary};
use crate::wire::{
    be32, be64, data_packet, from_be32, from_be64, lemma_be32_round_trip, lemma_be64_round_trip,
    lemma_from_be32_round_trip, lemma_twos_round_trip, signed, terminator, twos, HEADER_LEN,
};
use bytes::{Buf, BytesMut};
use vstd::prelude::*;

verus! {

/// `bytes::BytesMut`, known by name only: what it holds is spoken of through
/// `contents`.
#[verifier::external_type_specification]
#[verifier::external_body]
pub struct ExBytesMut(bytes::BytesMut);

/// The bytes that a `BytesMut` holds and has not handed out yet, front first.
pub uninterp spec fn contents(b: BytesMut) -> Seq<u8>;

/// `BytesMut::new`: a buffer that holds no byte.
#[verifier::external_body]
pub(crate) fn buffer_new() -> (b: BytesMut)
    ensures
        contents(b) == Seq::<u8>::empty(),
{
    BytesMut::new()
}

/// `BytesMut::len`: the number of bytes held.
#[verifier::external_body]
pub(crate) fn buffer_len(b: &BytesMut) -> (n: usize)
    ensures
        n == contents(*b).len(),
{
    b.len()
}

/// `BytesMut::extend_from_slice`: `data` is appended behind what is held. It
/// panics where the new capacity overflows; lengths up to `isize::MAX`, the
/// most that an allocation may hold, are admitted.
#[verifier::external_body]
pub(crate) fn buffer_extend(b: &mut BytesMut, data: &[u8])
    requires
        contents(*old(b)).len() + data@.len() <= isize::MAX,
    ensures
        contents(*final(b)) == contents(*old(b)) + data@,
{
    b.extend_from_slice(data);
}

/// `Buf::get_u32` of `BytesMut`: takes the first four bytes off the buffer
/// and returns the number that they spell in big-endian order. It panics on
/// fewer than four bytes, which are left out.
#[verifier::external_body]
pub(crate) fn buffer_get_u32(b: &mut BytesMut) -> (v: u32)
    requires
        contents(*old(b)).len() >= 4,
    ensures
        v == from_be32(contents(*old(b)).take(4)),
        contents(*final(b)) == contents(*old(b)).skip(4),
{
    b.get_u32()
}

/// `Buf::get_u64` of `BytesMut`: takes the first eight bytes off the buffer
/// and returns the number that they spell in big-endian order. It panics on
/// fewer than eight bytes, which are left out.
#[verifier::external_body]
pub(crate) fn buffer_get_u64(b: &mut BytesMut) -> (v: u64)
    requires
        contents(*old(b)).len() >= 8,
    ensures
        v == from_be64(contents(*old(b)).take(8)),
        contents(*final(b)) == contents(*old(b)).skip(8),
{
    b.get_u64()
}

/// `Buf::get_i64` of `BytesMut`: takes the first eight bytes off the buffer
/// and returns the signed number whose two's complement they spell in
/// big-endian order. It panics on fewer than eight bytes, which are left out.
#[verifier::external_body]
pub(crate) fn buffer_get_i64(b: &mut BytesMut) -> (v: i64)
    requires
        contents(*old(b)).len() >= 8,
    ensures
        v == signed(from_be64(contents(*old(b)).take(8))),
        contents(*final(b)) == contents(*old(b)).skip(8),
{
    b.get_i64()
}

/// `Buf::advance` of `BytesMut`: drops the first `cnt` bytes. It panics where
/// fewer are held, which is left out.
#[verifier::external_body]
pub(crate) fn buffer_advance(b: &mut BytesMut, cnt: usize)
    requires
        cnt <= contents(*old(b)).len(),
    ensures
        contents(*final(b)) == contents(*old(b)).skip(cnt as int),
{
    b.advance(cnt);
}

/// What stands at the front of a byte stream.
pub enum Frame {
    /// Not enough bytes yet to tell, or to hold the packet that is announced.
    Incomplete,
    /// A length below 16: the stream ends here.
    End,
    /// A whole data packet of `size` bytes, prefix and padding included.
    Data { timestamp_ms: i64, sequence: u64, size: nat },
}

/// Reads the front of `unread` as the format prescribes.
pub open spec fn next_frame(unread: Seq<u8>) -> Frame {
    if unread.len() < 4 {
        Frame::Incomplete
    } else {
        let length = from_be32(unread.take(4));
        if length < HEADER_LEN {
            Frame::End
        } else if unread.len() < 4 + length {
            Frame::Incomplete
        } else {
            Frame::Data {
                timestamp_ms: signed(from_be64(unread.subrange(4, 12))),
                sequence: from_be64(unread.subrange(12, 20)),
                size: (4 + length) as nat,
            }
        }
    }
}

/// What one attempt to decode has brought.
#[derive(Debug, Clone, Copy, PartialEq, Eq, Structural)]
pub enum Progress {
    /// No whole packet is buffered: more bytes have to arrive.
    NeedBytes,
    /// One data packet was taken off the stream.
    Sample { latency_ms: i64, sequence: u64 },
    /// The stream has ended.
    Finished,
}

/// Why the decoder refused.
#[derive(Debug, Clone, Copy, PartialEq, Eq, Structural)]
pub enum DecodeError {
    /// The latency of a packet, or the sum or count of the aggregate with
    /// it, is not representable in 64 signed bits.
    LatencyOverflow,
    /// The buffer cannot grow by the bytes handed in.
    BufferOverflow,
}

/// The mathematical value of a decoder: the bytes received and not yet
/// decoded, the aggregate of the packets decoded, and whether the end of the
/// stream was seen.
pub struct DecoderModel {
    pub unread: Seq<u8>,
    pub stats: Summary,
    pub finished: bool,
}

impl DecoderModel {
    /// A decoder that has received nothing.
    pub open spec fn start() -> DecoderModel {
        DecoderModel { unread: Seq::empty(), stats: Summary::empty(), finished: false }
    }

    /// The decoder after `chunk` has arrived.
    pub open spec fn push(self, chunk: Seq<u8>) -> DecoderModel {
        DecoderModel { unread: self.unread + chunk, ..self }
    }

    /// One attempt to decode at time `now_ms`: the decoder afterwards, and
    /// what the attempt reports.
    ///
    /// A packet's latency is `now_ms` minus its timestamp. A packet whose
    /// latency cannot be recorded is taken off the stream and reported as an
    /// error, the aggregate unchanged.
    pub open spec fn step(self, now_ms: i64) -> (DecoderModel, Result<Progress, DecodeError>) {
        if self.finished {
            (self, Ok(Progress::Finished))
        } else {
            match next_frame(self.unread) {
                Frame::Incomplete => (self, Ok(Progress::NeedBytes)),
                Frame::End => (
                    DecoderModel { unread: self.unread.skip(4), finished: true, ..self },
                    Ok(Progress::Finished),
                ),
                Frame::Data { timestamp_ms, sequence, size } => {
                    let rest = self.unread.skip(size as int);
                    let latency = now_ms - timestamp_ms;
                    if i64::MIN <= latency <= i64::MAX && self.stats.observe(
                        latency as i64,
                    ).fits() {
                        (
                            DecoderModel {
                                unread: rest,
                                stats: self.stats.observe(latency as i64),
                                ..self
                            },
                            Ok(Progress::Sample { latency_ms: latency as i64, sequence }),
                        )
                    } else {
                        (
                            DecoderModel { unread: rest, ..self },
                            Err(DecodeError::LatencyOverflow),
                        )
                    }
                },
            }
        }
    }
}

/// The decoder of one connection.
pub struct Decoder {
    buf: BytesMut,
    /// The length that was announced by a prefix already taken off `buf`,
    /// while the packet's body is still incomplete.
    announced: Option<u32>,
    latency: Latency,
    finished: bool,
}

impl View for Decoder {
    type V = DecoderModel;

    closed spec fn view(&self) -> DecoderModel {
        DecoderModel {
            unread: match self.announced {
                Some(length) => be32(length) + contents(self.buf),
                None => contents(self.buf),
            },
            stats: self.latency@,
            finished: self.finished,
        }
    }
}

impl Decoder {
    /// Every decoder built through this interface satisfies it.
    pub closed spec fn wf(&self) -> bool {
        &&& self.latency.wf()
        &&& self.announced matches Some(length) ==> length >= HEADER_LEN && !self.finished
    }

    /// The number of bytes held in the buffer itself.
    pub closed spec fn buffered(&self) -> nat {
        contents(self.buf).len()
    }

    /// A decoder that has received nothing.
    pub fn new() -> (r: Decoder)
        ensures
            r@ == DecoderModel::start(),
            r.buffered() == 0,
            r.wf(),
    {
        Decoder { buf: buffer_new(), announced: None, latency: Latency::new(), finished: false }
    }

    /// The aggregate of the packets decoded so far.
    pub fn latency(&self) -> (r: &Latency)
        ensures
            r@ == self@.stats,
            self.wf() ==> r.wf(),
    {
        &self.latency
    }

    /// Gives up the decoder for its aggregate.
    pub fn into_latency(self) -> (r: Latency)
        ensures
            r@ == self@.stats,
            self.wf() ==> r.wf(),
    {
        self.latency
    }

    /// Whether the end of the stream was seen.
    pub fn is_finished(&self) -> (r: bool)
        ensures
            r == self@.finished,
    {
        self.finished
    }

    /// Takes in bytes as they arrived. They are refused, and nothing
    /// changes, only where the buffer would outgrow `isize::MAX` bytes.
    pub fn push(&mut self, chunk: &[u8]) -> (r: Result<(), DecodeError>)
        requires
            old(self).wf(),
        ensures
            final(self).wf(),
            old(self).buffered() + chunk@.len() <= isize::MAX ==> r is Ok && final(self)@ == old(
                self,
            )@.push(chunk@) && final(self).buffered() == old(self).buffered() + chunk@.len(),
            old(self).buffered() + chunk@.len() > isize::MAX ==> r == Err::<(), DecodeError>(
                DecodeError::BufferOverflow,
            ) && final(self)@ == old(self)@ && final(self).buffered() == old(self).buffered(),
    {
        let held: usize = buffer_len(&self.buf);
        if held > isize::MAX as usize || chunk.len() > isize::MAX as usize - held {
            return Err(DecodeError::BufferOverflow);
        }
        buffer_extend(&mut self.buf, chunk);
        assert(self@.unread =~= old(self)@.unread + chunk@);
        Ok(())
    }

    /// One attempt to take a packet off the stream, at time `now_ms`.
    pub fn poll(&mut self, now_ms: i64) -> (r: Result<Progress, DecodeError>)
        requires
            old(self).wf(),
        ensures
            final(self).wf(),
            (final(self)@, r) == old(self)@.step(now_ms),
            final(self).buffered() <= old(self).buffered(),
    {
        if self.finished {
            return Ok(Progress::Finished);
        }
        let ghost unread = self@.unread;
        let length: u32 = match self.announced {
            Some(length) => {
                proof {
                    lemma_be32_round_trip(length);
                    assert(unread.take(4) =~= be32(length));
                    assert(unread.skip(4) =~= contents(self.buf));
                }
                length
            },
            None => {
                if buffer_len(&self.buf) < 4 {
                    return Ok(Progress::NeedBytes);
                }
                let length: u32 = buffer_get_u32(&mut self.buf);
                proof {
                    lemma_from_be32_round_trip(unread.take(4));
                    assert(be32(length) + contents(self.buf) =~= unread);
                }
                if length < HEADER_LEN {
                    self.finished = true;
                    return Ok(Progress::Finished);
                }
                self.announced = Some(length);
                length
            },
        };
        assert(self@.unread == unread);
        assert(contents(self.buf) == unread.skip(4));
        if buffer_len(&self.buf) < length as usize {
            return Ok(Progress::NeedBytes);
        }
        let timestamp_ms: i64 = buffer_get_i64(&mut self.buf);
        let sequence: u64 = buffer_get_u64(&mut self.buf);
        buffer_advance(&mut self.buf, (length - HEADER_LEN) as usize);
        self.announced = None;
        proof {
            assert(unread.skip(4).take(8) =~= unread.subrange(4, 12));
            assert(unread.skip(4).skip(8).take(8) =~= unread.subrange(12, 20));
            assert(contents(self.buf) =~= unread.skip(4 + length));
        }
        match now_ms.checked_sub(timestamp_ms) {
            Some(latency_ms) => {
                if self.latency.num() < i64::MAX && self.latency.sum().checked_add(
                    latency_ms,
                ).is_some() {
                    self.latency.observe(latency_ms);
                    Ok(Progress::Sample { latency_ms, sequence })
                } else {
                    Err(DecodeError::LatencyOverflow)
                }
            },
            None => Err(DecodeError::LatencyOverflow),
        }
    }
}

/// Bytes that arrive in two reads are the bytes that arrive in one.
pub proof fn lemma_push_concat(m: DecoderModel, first: Seq<u8>, second: Seq<u8>)
    ensures
        m.push(first).push(second) == m.push(first + second),
{
    assert((m.unread + first) + second =~= m.unread + (first + second));
}

/// A packet that is split over two reads is decoded as if it had come in
/// one: an attempt between the reads that finds the packet incomplete leaves
/// the decoder as it was, so every later attempt gives what it would have
/// given after a single read of both parts.
pub proof fn lemma_split_delivery(
    m: DecoderModel,
    first: Seq<u8>,
    second: Seq<u8>,
    early_ms: i64,
    now_ms: i64,
)
    requires
        m.push(first).step(early_ms).1 == Ok::<Progress, DecodeError>(Progress::NeedBytes),
    ensures
        m.push(first).step(early_ms).0 == m.push(first),
        m.push(first).step(early_ms).0.push(second) == m.push(first + second),
        m.push(first).step(early_ms).0.push(second).step(now_ms) == m.push(first + second).step(
            now_ms,
        ),
{
    lemma_push_concat(m, first, second);
}

/// More bytes are asked for only while less than one whole packet is held:
/// fewer than the four bytes of a prefix, or fewer than the packet that the
/// prefix announces.
pub proof fn lemma_need_bytes_holds_partial_packet(m: DecoderModel, now_ms: i64)
    requires
        m.step(now_ms).1 == Ok::<Progress, DecodeError>(Progress::NeedBytes),
    ensures
        m.unread.len() < 4 || m.unread.len() < 4 + from_be32(m.unread.take(4)),
        m.step(now_ms).0 == m,
{
}

/// A length below 16 at the front ends the stream: the attempt reports the
/// end, the aggregate is the one collected so far, and only the prefix is
/// taken off the stream.
pub proof fn lemma_short_length_ends_stream(
    m: DecoderModel,
    length: u32,
    rest: Seq<u8>,
    now_ms: i64,
)
    requires
        !m.finished,
        length < HEADER_LEN,
        m.unread == be32(length) + rest,
    ensures
        m.step(now_ms) == (
            DecoderModel { unread: rest, stats: m.stats, finished: true },
            Ok::<Progress, DecodeError>(Progress::Finished),
        ),
{
    lemma_be32_round_trip(length);
    assert(m.unread.take(4) =~= be32(length));
    assert(m.unread.skip(4) =~= rest);
}

/// The terminator ends the stream and leaves the aggregate as collected, an
/// empty one included.
pub proof fn lemma_terminator_ends_stream(m: DecoderModel, rest: Seq<u8>, now_ms: i64)
    requires
        !m.finished,
        m.unread == terminator() + rest,
    ensures
        m.step(now_ms) == (
            DecoderModel { unread: rest, stats: m.stats, finished: true },
            Ok::<Progress, DecodeError>(Progress::Finished),
        ),
        DecoderModel::start().push(terminator()).step(now_ms).0.stats == Summary::empty(),
{
    lemma_short_length_ends_stream(m, 0, rest, now_ms);
    let fresh = DecoderModel::start().push(terminator());
    assert(fresh.unread =~= terminator() + Seq::<u8>::empty());
    lemma_short_length_ends_stream(fresh, 0, Seq::empty(), now_ms);
}

/// A data packet at the front of the stream is read back as it was written.
pub proof fn lemma_data_packet_parsed(
    timestamp_ms: i64,
    sequence: u64,
    padding: Seq<u8>,
    rest: Seq<u8>,
)
    requires
        HEADER_LEN + padding.len() <= u32::MAX,
    ensures
        next_frame(data_packet(timestamp_ms, sequence, padding) + rest) == (Frame::Data {
            timestamp_ms,
            sequence,
            size: (20 + padding.len()) as nat,
        }),
        (data_packet(timestamp_ms, sequence, padding) + rest).skip(20 + padding.len() as int) == rest,
{
    let length = (HEADER_LEN + padding.len()) as u32;
    let packet = data_packet(timestamp_ms, sequence, padding);
    let stream = packet + rest;
    lemma_be32_round_trip(length);
    lemma_be64_round_trip(twos(timestamp_ms));
    lemma_be64_round_trip(sequence);
    lemma_twos_round_trip(timestamp_ms);
    assert(packet.len() == 20 + padding.len());
    assert(stream.take(4) =~= be32(length));
    assert(stream.subrange(4, 12) =~= be64(twos(timestamp_ms)));
    assert(stream.subrange(12, 20) =~= be64(sequence));
    assert(stream.skip(20 + padding.len() as int) =~= rest);
}

/// Encoding a data packet and decoding it at time `now_ms` yields the
/// latency `now_ms` minus the packet's timestamp and the packet's sequence
/// number, and takes exactly the packet off the stream, padding included:
/// what follows it is what is decoded next.
pub proof fn lemma_round_trip(
    m: DecoderModel,
    timestamp_ms: i64,
    sequence: u64,
    padding: Seq<u8>,
    rest: Seq<u8>,
    now_ms: i64,
)
    requires
        !m.finished,
        HEADER_LEN + padding.len() <= u32::MAX,
        m.unread == data_packet(timestamp_ms, sequence, padding) + rest,
        i64::MIN <= now_ms - timestamp_ms <= i64::MAX,
        m.stats.observe((now_ms - timestamp_ms) as i64).fits(),
    ensures
        m.step(now_ms) == (
            DecoderModel {
                unread: rest,
                stats: m.stats.observe((now_ms - timestamp_ms) as i64),
                finished: false,
            },
            Ok::<Progress, DecodeError>(
                Progress::Sample { latency_ms: (now_ms - timestamp_ms) as i64, sequence },
            ),
        ),
{
    lemma_data_packet_parsed(timestamp_ms, sequence, padding, rest);
}

} // verus!
