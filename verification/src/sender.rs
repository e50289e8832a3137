//! The sending side of a connection: a fixed number of paced data packets,
//! numbered from zero, and then the terminator.

use crate::pacer::{expected_elapsed_ms, lemma_deadlines_monotonic, pacing, Pacer};
use crate::wire::{
    data_packet, encode_data_packet, encode_terminator, max_packet_len, terminator,
    MIN_PACKET_LEN,
};
use vstd::prelude::*;
use vstd::slice::slice_subrange;

verus! {

/// Why a sending configuration was refused.
#[derive(Debug, Clone, Copy, PartialEq, Eq, Structural)]
pub enum SendError {
    /// The packet size is below 20 bytes, or its length field would not fit
    /// in 32 bits.
    PacketLen,
    /// Rate times duration is more than 64 bits can count.
    TooManyPackets,
    /// The deadline of the last packet is more milliseconds than 64 bits
    /// can count.
    ScheduleTooLong,
}

/// What the sender hands out next.
#[derive(Debug, Clone, Copy, PartialEq, Eq, Structural)]
pub enum SendStep {
    /// The data packet with this sequence number.
    Data { sequence: u64 },
    /// The terminator.
    Terminator,
    /// Nothing: the terminator has been handed out.
    Done,
}

/// `n` zero bytes.
pub open spec fn zeros(n: nat) -> Seq<u8> {
    Seq::new(n, |i: int| 0u8)
}

/// Why `pps` packets per second for `secs` seconds, each of `packet_len`
/// bytes, cannot be sent; `None` where they can.
pub open spec fn config_error(pps: u64, secs: u64, packet_len: usize) -> Option<SendError> {
    if packet_len < MIN_PACKET_LEN || packet_len > max_packet_len() {
        Some(SendError::PacketLen)
    } else if pps * secs > u64::MAX {
        Some(SendError::TooManyPackets)
    } else if pps * secs > 0 && expected_elapsed_ms(pps, (pps * secs - 1) as u64) > u64::MAX {
        Some(SendError::ScheduleTooLong)
    } else {
        None
    }
}

/// The number of data packets of a session: rate times duration.
pub fn total_packets(pps: u64, secs: u64) -> (r: Option<u64>)
    ensures
        r == if pps * secs <= u64::MAX {
            Some((pps * secs) as u64)
        } else {
            None
        },
{
    pps.checked_mul(secs)
}

/// The mathematical value of a sender.
pub struct SenderModel {
    /// Packets per second.
    pub rate: u64,
    /// Data packets of the whole session.
    pub total: u64,
    /// Data packets handed out.
    pub sent: u64,
    /// Whether the terminator has been handed out.
    pub terminated: bool,
    /// Bytes of each data packet.
    pub packet_len: nat,
}

impl SenderModel {
    /// The sender before its first packet.
    pub open spec fn start(pps: u64, secs: u64, packet_len: usize) -> SenderModel {
        SenderModel {
            rate: pps,
            total: (pps * secs) as u64,
            sent: 0,
            terminated: false,
            packet_len: packet_len as nat,
        }
    }

    /// What is handed out next: the data packets in ascending order, then
    /// the terminator, then nothing.
    pub open spec fn next(self) -> SendStep {
        if self.sent < self.total {
            SendStep::Data { sequence: self.sent }
        } else if !self.terminated {
            SendStep::Terminator
        } else {
            SendStep::Done
        }
    }

    /// The sender after it has handed out what was next.
    pub open spec fn advance(self) -> SenderModel {
        match self.next() {
            SendStep::Data { .. } => SenderModel { sent: (self.sent + 1) as u64, ..self },
            SendStep::Terminator => SenderModel { terminated: true, ..self },
            SendStep::Done => self,
        }
    }

    /// The bytes of what is handed out next, at time `now_ms`: a data packet
    /// with that timestamp, padded with zeros to the packet size, or the
    /// bare terminator.
    pub open spec fn frame(self, now_ms: i64) -> Seq<u8> {
        match self.next() {
            SendStep::Data { sequence } => data_packet(
                now_ms,
                sequence,
                zeros((self.packet_len - 20) as nat),
            ),
            SendStep::Terminator => terminator(),
            SendStep::Done => Seq::empty(),
        }
    }
}

/// The sender of one connection.
pub struct Sender {
    pacer: Pacer,
    total: u64,
    sent: u64,
    terminated: bool,
    buf: Vec<u8>,
    frame_len: usize,
}

impl View for Sender {
    type V = SenderModel;

    closed spec fn view(&self) -> SenderModel {
        SenderModel {
            rate: self.pacer.rate(),
            total: self.total,
            sent: self.sent,
            terminated: self.terminated,
            packet_len: self.buf@.len(),
        }
    }
}

impl Sender {
    /// Every sender built through this interface satisfies it.
    pub closed spec fn wf(&self) -> bool {
        &&& MIN_PACKET_LEN <= self.buf@.len() <= max_packet_len()
        &&& self.buf@.skip(20) == zeros((self.buf@.len() - 20) as nat)
        &&& self.frame_len <= self.buf@.len()
        &&& self.sent <= self.total
        &&& self.terminated ==> self.sent == self.total
        &&& self.total > 0 ==> self.pacer.rate() > 0 && expected_elapsed_ms(
            self.pacer.rate(),
            (self.total - 1) as u64,
        ) <= u64::MAX
    }

    /// The bytes of the frame that was handed out last.
    pub closed spec fn frame_bytes(&self) -> Seq<u8> {
        self.buf@.take(self.frame_len as int)
    }

    /// A sender of `pps` packets per second for `secs` seconds, each of
    /// `packet_len` bytes, whose schedule starts now.
    pub fn new(pps: u64, secs: u64, packet_len: usize) -> (r: Result<Sender, SendError>)
        ensures
            match config_error(pps, secs, packet_len) {
                Some(e) => r matches Err(err) && err == e,
                None => r matches Ok(sender) && sender.wf() && sender@ == SenderModel::start(
                    pps,
                    secs,
                    packet_len,
                ) && sender.frame_bytes() == Seq::<u8>::empty(),
            },
    {
        if packet_len < MIN_PACKET_LEN || packet_len as u128 > 0xffff_ffffu128 + 4 {
            return Err(SendError::PacketLen);
        }
        let total: u64 = match total_packets(pps, secs) {
            Some(total) => total,
            None => {
                return Err(SendError::TooManyPackets);
            },
        };
        if total > 0 {
            assert(pps > 0) by (nonlinear_arith)
                requires
                    pps * secs > 0,
            ;
            let last_deadline: u128 = 1000u128 * ((total - 1) as u128) / (pps as u128);
            if last_deadline > u64::MAX as u128 {
                return Err(SendError::ScheduleTooLong);
            }
        }
        let buf: Vec<u8> = vec![0u8; packet_len];
        assert(buf@.skip(20) =~= zeros((buf@.len() - 20) as nat));
        let pacer = Pacer::new(pps);
        Ok(Sender { pacer, total, sent: 0, terminated: false, buf, frame_len: 0 })
    }

    /// Data packets handed out so far.
    pub fn sent(&self) -> (r: u64)
        ensures
            r == self@.sent,
    {
        self.sent
    }

    /// Data packets of the whole session.
    pub fn total(&self) -> (r: u64)
        ensures
            r == self@.total,
    {
        self.total
    }

    /// The pacing decision for what is handed out next, at the time of the
    /// call: `Some` of the milliseconds to wait, `None` to go on at once.
    /// Only data packets are paced.
    pub fn wait_before_next(&self) -> (r: Option<u64>)
        requires
            self.wf(),
        ensures
            self@.sent < self@.total ==> exists|elapsed_ms: int|
                0 <= elapsed_ms && r == pacing(self@.rate, self@.sent, elapsed_ms),
            self@.sent >= self@.total ==> r is None,
    {
        if self.sent < self.total {
            proof {
                lemma_deadlines_monotonic(self.pacer.rate(), self.sent, (self.total - 1) as u64);
            }
            let r = self.pacer.get_sleep_duration(self.sent);
            proof {
                let elapsed_ms = choose|e: int|
                    0 <= e && r == pacing(self.pacer.rate(), self.sent, e);
                assert(0 <= elapsed_ms && r == pacing(self@.rate, self@.sent, elapsed_ms));
            }
            r
        } else {
            None
        }
    }

    /// Prepares what is next, stamped with `now_ms`, and says what it is.
    /// Its bytes are then in `frame`.
    pub fn next_frame(&mut self, now_ms: i64) -> (r: SendStep)
        requires
            old(self).wf(),
        ensures
            final(self).wf(),
            r == old(self)@.next(),
            final(self)@ == old(self)@.advance(),
            final(self).frame_bytes() == old(self)@.frame(now_ms),
    {
        if self.sent < self.total {
            let sequence: u64 = self.sent;
            encode_data_packet(&mut self.buf, now_ms, sequence);
            self.frame_len = self.buf.len();
            self.sent = sequence + 1;
            proof {
                assert(self.buf@.skip(20) =~= old(self).buf@.skip(20));
                assert(self.buf@.take(self.frame_len as int) =~= self.buf@);
            }
            SendStep::Data { sequence }
        } else if !self.terminated {
            encode_terminator(&mut self.buf);
            self.frame_len = 4;
            self.terminated = true;
            proof {
                assert(self.buf@.skip(20) =~= old(self).buf@.skip(20));
                assert(self.buf@.take(4) =~= terminator());
            }
            SendStep::Terminator
        } else {
            self.frame_len = 0;
            assert(self.buf@.take(0) =~= Seq::<u8>::empty());
            SendStep::Done
        }
    }

    /// The bytes to write for the frame that `next_frame` prepared last.
    pub fn frame(&self) -> (r: &[u8])
        requires
            self.wf(),
        ensures
            r@ == self.frame_bytes(),
    {
        slice_subrange(self.buf.as_slice(), 0, self.frame_len)
    }
}

} // verus!
