//! What a whole connection carries: the bytes that a sender hands out over
//! its lifetime, read as the receiving side reads them.

use crate::decoder::{lemma_data_packet_parsed, next_frame, Frame};
use crate::sender::{zeros, SendStep, SenderModel};
use crate::wire::{be32, lemma_be32_round_trip, max_packet_len, terminator, MIN_PACKET_LEN};
use vstd::prelude::*;

verus! {

/// All the bytes that a sender in state `m` has still to hand out, where the
/// data packet with sequence number `k` is stamped `times(k)`.
pub open spec fn remaining_stream(m: SenderModel, times: spec_fn(u64) -> i64) -> Seq<u8>
    decreases m.total - m.sent,
{
    match m.next() {
        SendStep::Data { sequence } => m.frame(times(sequence)) + remaining_stream(
            m.advance(),
            times,
        ),
        SendStep::Terminator => terminator(),
        SendStep::Done => Seq::empty(),
    }
}

/// The number of whole data packets at the front of `unread`, up to the
/// first place that is not one.
pub open spec fn data_frames(unread: Seq<u8>) -> nat
    decreases unread.len(),
{
    match next_frame(unread) {
        Frame::Data { size, .. } => 1 + data_frames(unread.skip(size as int)),
        _ => 0,
    }
}

/// Whether the data packets at the front of `unread` are followed by an end
/// of stream.
pub open spec fn reaches_end(unread: Seq<u8>) -> bool
    decreases unread.len(),
{
    match next_frame(unread) {
        Frame::Data { size, .. } => reaches_end(unread.skip(size as int)),
        Frame::End => true,
        Frame::Incomplete => false,
    }
}

/// A receiver of everything that a sender hands out finds exactly the data
/// packets that were still to send, whatever their timestamps, and then the
/// end of the stream. From the start of a session that is rate times
/// duration packets.
pub proof fn lemma_stream_carries_all_packets(m: SenderModel, times: spec_fn(u64) -> i64)
    requires
        MIN_PACKET_LEN <= m.packet_len <= max_packet_len(),
        m.sent <= m.total,
        !m.terminated,
    ensures
        data_frames(remaining_stream(m, times)) == m.total - m.sent,
        reaches_end(remaining_stream(m, times)),
    decreases m.total - m.sent,
{
    if m.sent < m.total {
        let rest = remaining_stream(m.advance(), times);
        let padding = zeros((m.packet_len - 20) as nat);
        lemma_stream_carries_all_packets(m.advance(), times);
        lemma_data_packet_parsed(times(m.sent), m.sent, padding, rest);
    } else {
        lemma_be32_round_trip(0);
        assert(terminator().take(4) =~= be32(0));
    }
}

} // verus!
