//! Packets in flight: what was sent, what an acknowledgement covers, what is lost
//! (RFC 9002 Section 6.1).
use crate::frame::{ack_low, AckRange};
use crate::time::{Duration, Instant, CLOCK_LIMIT};
use crate::types::{copy_bytes, ConnectionId, Direction};
use vstd::prelude::*;

verus! {

/// A packet counts as lost once one sent this many packets later is acknowledged
/// (RFC 9002 Section 6.1.1).
pub const PACKET_THRESHOLD: u64 = 3;

/// A frame that was sent, with what is needed to send it again.
#[derive(Debug)]
#[allow(inconsistent_fields)]
pub enum SentFrame {
    /// Handshake data.
    Crypto {
        /// The offset of the data.
        offset: u64,
        /// The data.
        data: Vec<u8>,
    },
    /// Stream data.
    Stream {
        /// The stream.
        id: u64,
        /// The offset of the data.
        offset: u64,
        /// Whether the stream ended with the data.
        fin: bool,
        /// The data.
        data: Vec<u8>,
    },
    /// A PING.
    Ping,
    /// A packet of this size that probed the path MTU.
    MtuProbe(u16),
    /// A connection identifier that was issued.
    NewConnectionId {
        /// Its sequence number.
        seq: u64,
        /// The threshold that was sent along.
        retire_prior_to: u64,
        /// The identifier.
        cid: ConnectionId,
        /// Its stateless reset token.
        stateless_reset_token: [u8; 16],
    },
    /// A connection identifier of the peer that is no longer used.
    RetireConnectionId {
        /// Its sequence number.
        seq: u64,
    },
    /// A stream limit.
    MaxStreams {
        /// The kind of streams.
        dir: Direction,
        /// The limit.
        max: u64,
    },
    /// A stream limit that was run into.
    StreamsBlocked {
        /// The kind of streams.
        dir: Direction,
        /// The limit.
        limit: u64,
    },
    /// A token for a later connection.
    NewToken {
        /// The token.
        token: Vec<u8>,
    },
}

/// A frame that was sent, with its data as sequences.
#[verifier::ext_equal]
#[allow(inconsistent_fields)]
pub enum SentFrameView {
    /// See [`SentFrame::Crypto`].
    Crypto { offset: u64, data: Seq<u8> },
    /// See [`SentFrame::Stream`].
    Stream { id: u64, offset: u64, fin: bool, data: Seq<u8> },
    /// See [`SentFrame::Ping`].
    Ping,
    /// See [`SentFrame::MtuProbe`].
    MtuProbe(u16),
    /// See [`SentFrame::NewConnectionId`].
    NewConnectionId { seq: u64, retire_prior_to: u64, cid: Seq<u8>, token: Seq<u8> },
    /// See [`SentFrame::RetireConnectionId`].
    RetireConnectionId { seq: u64 },
    /// See [`SentFrame::MaxStreams`].
    MaxStreams { dir: Direction, max: u64 },
    /// See [`SentFrame::StreamsBlocked`].
    StreamsBlocked { dir: Direction, limit: u64 },
    /// See [`SentFrame::NewToken`].
    NewToken { token: Seq<u8> },
}

impl View for SentFrame {
    type V = SentFrameView;

    open spec fn view(&self) -> SentFrameView {
        match *self {
            SentFrame::Crypto { offset, data } => SentFrameView::Crypto { offset, data: data@ },
            SentFrame::Stream { id, offset, fin, data } => SentFrameView::Stream {
                id,
                offset,
                fin,
                data: data@,
            },
            SentFrame::Ping => SentFrameView::Ping,
            SentFrame::MtuProbe(size) => SentFrameView::MtuProbe(size),
            SentFrame::NewConnectionId {
                seq,
                retire_prior_to,
                cid,
                stateless_reset_token,
            } => SentFrameView::NewConnectionId {
                seq,
                retire_prior_to,
                cid: cid@,
                token: stateless_reset_token@,
            },
            SentFrame::RetireConnectionId { seq } => SentFrameView::RetireConnectionId { seq },
            SentFrame::MaxStreams { dir, max } => SentFrameView::MaxStreams { dir, max },
            SentFrame::StreamsBlocked { dir, limit } => SentFrameView::StreamsBlocked {
                dir,
                limit,
            },
            SentFrame::NewToken { token } => SentFrameView::NewToken { token: token@ },
        }
    }
}

impl Clone for SentFrame {
    fn clone(&self) -> (f: SentFrame)
        ensures
            f@ == self@,
    {
        match self {
            SentFrame::Crypto { offset, data } => SentFrame::Crypto {
                offset: *offset,
                data: copy_bytes(data.as_slice()),
            },
            SentFrame::Stream { id, offset, fin, data } => SentFrame::Stream {
                id: *id,
                offset: *offset,
                fin: *fin,
                data: copy_bytes(data.as_slice()),
            },
            SentFrame::Ping => SentFrame::Ping,
            SentFrame::MtuProbe(size) => SentFrame::MtuProbe(*size),
            SentFrame::NewConnectionId {
                seq,
                retire_prior_to,
                cid,
                stateless_reset_token,
            } => SentFrame::NewConnectionId {
                seq: *seq,
                retire_prior_to: *retire_prior_to,
                cid: cid.clone(),
                stateless_reset_token: *stateless_reset_token,
            },
            SentFrame::RetireConnectionId { seq } => SentFrame::RetireConnectionId { seq: *seq },
            SentFrame::MaxStreams { dir, max } => SentFrame::MaxStreams { dir: *dir, max: *max },
            SentFrame::StreamsBlocked { dir, limit } => SentFrame::StreamsBlocked {
                dir: *dir,
                limit: *limit,
            },
            SentFrame::NewToken { token } => SentFrame::NewToken {
                token: copy_bytes(token.as_slice()),
            },
        }
    }
}

/// A packet in flight.
#[derive(Debug)]
pub struct SentPacket {
    /// Its packet number.
    pub packet_number: u64,
    /// When it was sent.
    pub time_sent: Instant,
    /// Its size in bytes.
    pub sent_bytes: usize,
    /// Whether it counts towards the congestion window.
    pub in_flight: bool,
    /// Whether the peer must acknowledge it.
    pub ack_eliciting: bool,
    /// The congestion controller's handle of the delivery-rate sample taken when
    /// the packet was sent.
    pub rate_sample: Option<u64>,
    /// What it carried.
    pub frames: Vec<SentFrame>,
}

/// A packet in flight, with its frames as a sequence.
#[verifier::ext_equal]
pub struct SentPacketView {
    /// See [`SentPacket::packet_number`].
    pub packet_number: u64,
    /// See [`SentPacket::time_sent`].
    pub time_sent: Instant,
    /// See [`SentPacket::sent_bytes`].
    pub sent_bytes: usize,
    /// See [`SentPacket::in_flight`].
    pub in_flight: bool,
    /// See [`SentPacket::ack_eliciting`].
    pub ack_eliciting: bool,
    /// See [`SentPacket::rate_sample`].
    pub rate_sample: Option<u64>,
    /// See [`SentPacket::frames`].
    pub frames: Seq<SentFrameView>,
}

impl View for SentPacket {
    type V = SentPacketView;

    open spec fn view(&self) -> SentPacketView {
        SentPacketView {
            packet_number: self.packet_number,
            time_sent: self.time_sent,
            sent_bytes: self.sent_bytes,
            in_flight: self.in_flight,
            ack_eliciting: self.ack_eliciting,
            rate_sample: self.rate_sample,
            frames: frame_views(self.frames@),
        }
    }
}

/// Whether the offsets of handshake data are in range.
pub open spec fn frames_fit(frames: Seq<SentFrameView>) -> bool {
    forall|i: int|
        0 <= i < frames.len() ==> ((#[trigger] frames[i]) matches SentFrameView::Crypto {
            offset,
            data,
        } ==> offset + data.len() <= u64::MAX)
}

/// What the frames carry.
pub open spec fn frame_views(frames: Seq<SentFrame>) -> Seq<SentFrameView> {
    frames.map_values(|f: SentFrame| f@)
}

/// What the packets are.
pub open spec fn packet_views(packets: Seq<SentPacket>) -> Seq<SentPacketView> {
    packets.map_values(|p: SentPacket| p@)
}

/// Whether an acknowledgement of these ranges covers packet number `pn`.
pub open spec fn acks(largest: u64, first_range: u64, ranges: Seq<AckRange>, pn: u64) -> bool {
    ||| largest - first_range <= pn <= largest
    ||| exists|i: int|
        0 <= i < ranges.len() && #[trigger] ack_low(largest, first_range, ranges, i + 1) <= pn
            <= ack_low(largest, first_range, ranges, i) - ranges[i].gap - 2
}

/// The packets of one packet number space that are in flight.
#[verifier::ext_equal]
pub struct InFlight {
    /// The packets in the order of sending.
    pub packets: Seq<SentPacketView>,
    /// The largest packet number the peer has acknowledged.
    pub largest_acked: Option<u64>,
}

impl InFlight {
    /// Nothing sent.
    pub open spec fn fresh() -> InFlight {
        InFlight { packets: Seq::empty(), largest_acked: None }
    }

    /// Packets are numbered in the order of sending, were sent within the range of
    /// the clock, their bytes can be counted, and their offsets are in range.
    pub open spec fn wf(self) -> bool {
        &&& total_bytes(self.packets) <= u64::MAX
        &&& forall|i: int, j: int|
            0 <= i < j < self.packets.len() ==> (#[trigger] self.packets[i]).packet_number < (
            #[trigger] self.packets[j]).packet_number
        &&& forall|i: int|
            0 <= i < self.packets.len() ==> (#[trigger] self.packets[i]).time_sent.in_range()
                && frames_fit(self.packets[i].frames)
    }

    /// The largest packet number acknowledged once `largest` is.
    pub open spec fn largest_with(self, largest: u64) -> u64 {
        match self.largest_acked {
            Some(l) => if l > largest {
                l
            } else {
                largest
            },
            None => largest,
        }
    }

    /// The packets an acknowledgement takes out of flight.
    pub open spec fn newly_acked(self, largest: u64, first_range: u64, ranges: Seq<AckRange>) -> Seq<
        SentPacketView,
    > {
        self.packets.filter(|p: SentPacketView| acks(largest, first_range, ranges, p.packet_number))
    }

    /// After an acknowledgement.
    pub open spec fn after_ack(self, largest: u64, first_range: u64, ranges: Seq<AckRange>) -> InFlight {
        InFlight {
            packets: self.packets.filter(
                |p: SentPacketView| !acks(largest, first_range, ranges, p.packet_number),
            ),
            largest_acked: Some(self.largest_with(largest)),
        }
    }

    /// Whether a packet in flight is lost at `now`: the peer has acknowledged one
    /// sent enough later, by number or by time.
    pub open spec fn is_lost(self, p: SentPacketView, now: Instant, loss_delay: Duration) -> bool {
        self.largest_acked matches Some(l) && p.packet_number <= l && (p.time_sent.nanos
            + loss_delay.nanos <= now.nanos || l >= p.packet_number + PACKET_THRESHOLD)
    }

    /// Whether a packet in flight will be lost for its age if nothing is heard.
    pub open spec fn may_be_lost(self, p: SentPacketView, now: Instant, loss_delay: Duration) -> bool {
        &&& self.largest_acked matches Some(l) && p.packet_number <= l
        &&& !self.is_lost(p, now, loss_delay)
    }

    /// The packets that are lost.
    pub open spec fn lost(self, now: Instant, loss_delay: Duration) -> Seq<SentPacketView> {
        self.packets.filter(|p: SentPacketView| self.is_lost(p, now, loss_delay))
    }

    /// After the lost packets were taken out of flight.
    pub open spec fn without_lost(self, now: Instant, loss_delay: Duration) -> InFlight {
        InFlight {
            packets: self.packets.filter(|p: SentPacketView| !self.is_lost(p, now, loss_delay)),
            ..self
        }
    }

    /// The packets that will be lost for their age if nothing is heard.
    pub open spec fn at_risk(self, now: Instant, loss_delay: Duration) -> Seq<SentPacketView> {
        self.packets.filter(|p: SentPacketView| self.may_be_lost(p, now, loss_delay))
    }

    /// When the next packet becomes lost for its age.
    pub open spec fn next_loss_time(self, now: Instant, loss_delay: Duration) -> Option<Instant> {
        match earliest_sent(self.at_risk(now, loss_delay)) {
            Some(t) => Some(t.after(loss_delay)),
            None => None,
        }
    }

    /// The packets the peer must acknowledge.
    pub open spec fn eliciting(self) -> Seq<SentPacketView> {
        self.packets.filter(|p: SentPacketView| p.ack_eliciting)
    }

    /// When the first packet in flight that the peer must acknowledge was sent.
    pub open spec fn earliest_eliciting(self) -> Option<Instant> {
        earliest_sent(self.eliciting())
    }
}

/// The bytes of these packets together.
pub open spec fn total_bytes(packets: Seq<SentPacketView>) -> nat
    decreases packets.len(),
{
    if packets.len() == 0 {
        0
    } else {
        total_bytes(packets.drop_last()) + packets.last().sent_bytes as nat
    }
}

/// A part of the packets holds no more bytes than all of them.
pub proof fn lemma_total_bytes_filter(s: Seq<SentPacketView>, f: spec_fn(SentPacketView) -> bool)
    ensures
        total_bytes(s.filter(f)) <= total_bytes(s),
        s.filter(f).len() <= s.len(),
    decreases s.len(),
{
    reveal(Seq::filter);
    if s.len() > 0 {
        lemma_total_bytes_filter(s.drop_last(), f);
        let t = s.drop_last().filter(f);
        assert(t.push(s.last()).drop_last() =~= t);
    }
}

/// The first packets hold no more bytes than all of them.
pub proof fn lemma_total_bytes_take(s: Seq<SentPacketView>, n: int)
    requires
        0 <= n <= s.len(),
    ensures
        total_bytes(s.take(n)) <= total_bytes(s),
    decreases s.len(),
{
    if n < s.len() {
        lemma_total_bytes_take(s.drop_last(), n);
        assert(s.drop_last().take(n) =~= s.take(n));
    } else {
        assert(s.take(n) =~= s);
    }
}

/// When the earliest of these packets was sent.
pub open spec fn earliest_sent(packets: Seq<SentPacketView>) -> Option<Instant>
    decreases packets.len(),
{
    if packets.len() == 0 {
        None
    } else {
        match earliest_sent(packets.drop_last()) {
            Some(t) => Some(t.spec_min(packets.last().time_sent)),
            None => Some(packets.last().time_sent),
        }
    }
}

/// What an acknowledgement did.
#[derive(Debug)]
pub struct AckOutcome {
    /// The packets it took out of flight, in the order of sending.
    pub newly_acked: Vec<SentPacket>,
    /// The largest packet number among them.
    pub largest_newly_acked: Option<u64>,
    /// Whether the peer had to acknowledge one of them.
    pub acked_ack_eliciting: bool,
}

/// The packets of one packet number space that are in flight.
#[derive(Debug)]
pub struct SentPackets {
    packets: Vec<SentPacket>,
    largest_acked: Option<u64>,
}

impl View for SentPackets {
    type V = InFlight;

    closed spec fn view(&self) -> InFlight {
        InFlight { packets: packet_views(self.packets@), largest_acked: self.largest_acked }
    }
}

/// Counting one more packet into a filter.
proof fn lemma_filter_next(s: Seq<SentPacketView>, i: int, f: spec_fn(SentPacketView) -> bool)
    requires
        0 <= i < s.len(),
    ensures
        s.take(i + 1).filter(f) == if f(s[i]) {
            s.take(i).filter(f).push(s[i])
        } else {
            s.take(i).filter(f)
        },
{
    reveal(Seq::filter);
    assert(s.take(i + 1).drop_last() =~= s.take(i));
}

proof fn lemma_filter_start(s: Seq<SentPacketView>, f: spec_fn(SentPacketView) -> bool)
    ensures
        s.take(0).filter(f) =~= Seq::empty(),
{
    reveal(Seq::filter);
    assert(s.take(0).len() == 0);
}

proof fn lemma_views_push(v: Seq<SentPacket>, p: SentPacket)
    ensures
        packet_views(v.push(p)) =~= packet_views(v).push(p@),
{
}

impl SentPackets {
    /// Nothing sent.
    pub fn new() -> (s: SentPackets)
        ensures
            s@ == InFlight::fresh(),
            s@.wf(),
    {
        let s = SentPackets { packets: Vec::new(), largest_acked: None };
        assert(s@.packets =~= Seq::empty());
        s
    }

    /// How many packets are in flight.
    pub fn len(&self) -> (n: usize)
        ensures
            n == self@.packets.len(),
    {
        self.packets.len()
    }

    /// The packets in flight.
    pub fn into_packets(self) -> (packets: Vec<SentPacket>)
        ensures
            packet_views(packets@) == self@.packets,
    {
        self.packets
    }

    /// Counts a packet in that was just sent.
    pub fn on_packet_sent(&mut self, packet: SentPacket)
        requires
            old(self)@.wf(),
            packet.time_sent.in_range(),
            total_bytes(old(self)@.packets) + packet.sent_bytes <= u64::MAX,
            frames_fit(packet@.frames),
            old(self)@.packets.len() > 0 ==> old(self)@.packets.last().packet_number
                < packet.packet_number,
        ensures
            final(self)@.wf(),
            final(self)@ == (InFlight {
                packets: old(self)@.packets.push(packet@),
                ..old(self)@
            }),
    {
        let ghost before = self.packets@;
        self.packets.push(packet);
        proof {
            lemma_views_push(before, packet);
        }
        assert(self@.packets =~= old(self)@.packets.push(packet@));
        assert(self@.packets.drop_last() =~= old(self)@.packets);
    }

    /// Takes the packets out of flight that an acknowledgement covers.
    pub fn on_ack(&mut self, largest: u64, first_range: u64, ranges: &[AckRange]) -> (outcome:
        AckOutcome)
        ensures
            final(self)@ == old(self)@.after_ack(largest, first_range, ranges@),
            old(self)@.wf() ==> final(self)@.wf(),
            packet_views(outcome.newly_acked@) == old(self)@.newly_acked(
                largest,
                first_range,
                ranges@,
            ),
            outcome.largest_newly_acked == largest_of(packet_views(outcome.newly_acked@)),
            outcome.acked_ack_eliciting == any_eliciting(packet_views(outcome.newly_acked@)),
    {
        let spans = ack_spans(largest, first_range, ranges);
        let ghost acked = |p: SentPacketView| acks(largest, first_range, ranges@, p.packet_number);
        let ghost not_acked = |p: SentPacketView|
            !acks(largest, first_range, ranges@, p.packet_number);
        let ghost all = self@.packets;
        self.largest_acked =
        Some(
            match self.largest_acked {
                Some(l) => if l > largest {
                    l
                } else {
                    largest
                },
                None => largest,
            },
        );
        let mut sent: Vec<SentPacket> = Vec::new();
        std::mem::swap(&mut sent, &mut self.packets);
        let mut newly_acked: Vec<SentPacket> = Vec::new();
        let mut kept: Vec<SentPacket> = Vec::new();
        let mut largest_newly_acked: Option<u64> = None;
        let mut acked_ack_eliciting: bool = false;
        let ghost whole = sent@;
        assert(all =~= packet_views(whole));
        proof {
            lemma_filter_start(all, acked);
            lemma_filter_start(all, not_acked);
            assert(packet_views(newly_acked@) =~= Seq::empty());
            assert(packet_views(kept@) =~= Seq::empty());
        }
        for p in it: sent.into_iter()
            invariant
                it.seq() == whole,
                all == packet_views(whole),
                spans_cover(spans@, largest, first_range, ranges@),
                acked == (|p: SentPacketView|
                    acks(largest, first_range, ranges@, p.packet_number)),
                not_acked == (|p: SentPacketView|
                    !acks(largest, first_range, ranges@, p.packet_number)),
                packet_views(newly_acked@) == all.take(it.index() as int).filter(acked),
                packet_views(kept@) == all.take(it.index() as int).filter(not_acked),
                largest_newly_acked == largest_of(packet_views(newly_acked@)),
                acked_ack_eliciting == any_eliciting(packet_views(newly_acked@)),
        {
            let ghost i = it.index() as int;
            let ghost n = newly_acked@;
            let ghost k = kept@;
            proof {
                assert(all[i] == p@);
                lemma_filter_next(all, i, acked);
                lemma_filter_next(all, i, not_acked);
                lemma_views_push(n, p);
                lemma_views_push(k, p);
            }
            if in_spans(&spans, p.packet_number) {
                let number: u64 = p.packet_number;
                largest_newly_acked =
                Some(
                    match largest_newly_acked {
                        Some(l) => if l > number {
                            l
                        } else {
                            number
                        },
                        None => number,
                    },
                );
                acked_ack_eliciting = acked_ack_eliciting || p.ack_eliciting;
                newly_acked.push(p);
                assert(packet_views(newly_acked@).drop_last() =~= packet_views(n));
            } else {
                kept.push(p);
            }
        }
        assert(all.take(all.len() as int) =~= all);
        self.packets = kept;
        proof {
            lemma_filter_keeps_order(all, not_acked);
        }
        AckOutcome { newly_acked, largest_newly_acked, acked_ack_eliciting }
    }

    /// Takes the packets out of flight that are lost at `now`, and says when the
    /// next one will be lost for its age.
    pub fn detect_lost(&mut self, now: Instant, loss_delay: Duration) -> (r: (
        Vec<SentPacket>,
        Option<Instant>,
    ))
        requires
            old(self)@.wf(),
            loss_delay.nanos <= 2 * CLOCK_LIMIT,
        ensures
            packet_views(r.0@) == old(self)@.lost(now, loss_delay),
            r.1 == old(self)@.next_loss_time(now, loss_delay),
            final(self)@ == old(self)@.without_lost(now, loss_delay),
            final(self)@.wf(),
            forall|i: int| 0 <= i < r.0@.len() ==> frames_fit((#[trigger] r.0@[i])@.frames),
    {
        let ghost before = self@;
        let ghost all = self@.packets;
        let ghost lost_f = |p: SentPacketView| before.is_lost(p, now, loss_delay);
        let ghost kept_f = |p: SentPacketView| !before.is_lost(p, now, loss_delay);
        let ghost risk_f = |p: SentPacketView| before.may_be_lost(p, now, loss_delay);
        let mut sent: Vec<SentPacket> = Vec::new();
        std::mem::swap(&mut sent, &mut self.packets);
        let mut lost: Vec<SentPacket> = Vec::new();
        let mut kept: Vec<SentPacket> = Vec::new();
        let mut earliest: Option<Instant> = None;
        let largest_acked = self.largest_acked;
        let ghost whole = sent@;
        assert(all =~= packet_views(whole));
        proof {
            lemma_filter_start(all, lost_f);
            lemma_filter_start(all, kept_f);
            lemma_filter_start(all, risk_f);
            assert(packet_views(lost@) =~= Seq::empty());
            assert(packet_views(kept@) =~= Seq::empty());
        }
        for p in it: sent.into_iter()
            invariant
                it.seq() == whole,
                all == packet_views(whole),
                all == before.packets,
                before.wf(),
                largest_acked == before.largest_acked,
                loss_delay.nanos <= 2 * CLOCK_LIMIT,
                lost_f == (|p: SentPacketView| before.is_lost(p, now, loss_delay)),
                kept_f == (|p: SentPacketView| !before.is_lost(p, now, loss_delay)),
                risk_f == (|p: SentPacketView| before.may_be_lost(p, now, loss_delay)),
                packet_views(lost@) == all.take(it.index() as int).filter(lost_f),
                packet_views(kept@) == all.take(it.index() as int).filter(kept_f),
                earliest == earliest_sent(all.take(it.index() as int).filter(risk_f)),
        {
            let ghost i = it.index() as int;
            let ghost l = lost@;
            let ghost k = kept@;
            proof {
                assert(all[i] == p@);
                lemma_filter_next(all, i, lost_f);
                lemma_filter_next(all, i, kept_f);
                lemma_filter_next(all, i, risk_f);
                lemma_views_push(l, p);
                lemma_views_push(k, p);
                let r = all.take(i).filter(risk_f);
                assert(r.push(p@).drop_last() =~= r);
            }
            let passed: bool = match largest_acked {
                Some(largest) => p.packet_number <= largest,
                None => false,
            };
            let by_number: bool = match largest_acked {
                Some(largest) => passed && largest - p.packet_number >= PACKET_THRESHOLD,
                None => false,
            };
            let by_time: bool = p.time_sent.nanos + loss_delay.nanos <= now.nanos;
            if passed && (by_number || by_time) {
                lost.push(p);
            } else {
                if passed {
                    earliest =
                    Some(
                        match earliest {
                            Some(t) => t.min(p.time_sent),
                            None => p.time_sent,
                        },
                    );
                }
                kept.push(p);
            }
        }
        assert(all.take(all.len() as int) =~= all);
        self.packets = kept;
        proof {
            lemma_filter_keeps_order(all, kept_f);
            lemma_filter_keeps_order(all, lost_f);
            assert forall|i: int| 0 <= i < lost@.len() implies frames_fit(
                (#[trigger] lost@[i])@.frames,
            ) by {
                assert(packet_views(lost@)[i] == lost@[i]@);
                assert(all.filter(lost_f)[i] == lost@[i]@);
            }
            lemma_filter_subset(all, risk_f);
            lemma_earliest_in_range(all.filter(risk_f));
        }
        let next = match earliest {
            Some(t) => Some(t.plus(loss_delay)),
            None => None,
        };
        (lost, next)
    }

    /// When the first packet in flight that the peer must acknowledge was sent.
    pub fn earliest_ack_eliciting_time(&self) -> (t: Option<Instant>)
        ensures
            t == self@.earliest_eliciting(),
            self@.wf() ==> (t matches Some(u) ==> u.in_range()),
    {
        let ghost f = |p: SentPacketView| p.ack_eliciting;
        let ghost all = self@.packets;
        let mut earliest: Option<Instant> = None;
        let mut i: usize = 0;
        proof {
            lemma_filter_start(all, f);
        }
        while i < self.packets.len()
            invariant
                i <= self.packets@.len(),
                all == packet_views(self.packets@),
                f == (|p: SentPacketView| p.ack_eliciting),
                earliest == earliest_sent(all.take(i as int).filter(f)),
            decreases self.packets@.len() - i,
        {
            proof {
                lemma_filter_next(all, i as int, f);
                let r = all.take(i as int).filter(f);
                assert(r.push(all[i as int]).drop_last() =~= r);
            }
            if self.packets[i].ack_eliciting {
                let sent = self.packets[i].time_sent;
                earliest =
                Some(
                    match earliest {
                        Some(t) => t.min(sent),
                        None => sent,
                    },
                );
            }
            i = i + 1;
        }
        assert(all.take(all.len() as int) =~= all);
        proof {
            if self@.wf() {
                lemma_filter_subset(all, f);
                lemma_earliest_in_range(all.filter(f));
            }
        }
        earliest
    }

    /// The frames of the first packet in flight that the peer must acknowledge.
    pub fn oldest_ack_eliciting_frames(&self) -> (frames: Option<Vec<SentFrame>>)
        ensures
            match frames {
                Some(v) => self@.eliciting().len() > 0 && frame_views(v@)
                    == self@.eliciting()[0].frames && (self@.wf() ==> frames_fit(frame_views(v@))),
                None => self@.eliciting().len() == 0,
            },
    {
        let ghost f = |p: SentPacketView| p.ack_eliciting;
        let ghost all = self@.packets;
        let mut i: usize = 0;
        proof {
            lemma_filter_start(all, f);
        }
        while i < self.packets.len()
            invariant
                i <= self.packets@.len(),
                all == packet_views(self.packets@),
                all == self@.packets,
                f == (|p: SentPacketView| p.ack_eliciting),
                all.take(i as int).filter(f).len() == 0,
            decreases self.packets@.len() - i,
        {
            proof {
                lemma_filter_next(all, i as int, f);
            }
            if self.packets[i].ack_eliciting {
                let frames = copy_frames(&self.packets[i].frames);
                proof {
                    lemma_filter_prefix(all, i + 1, f);
                    assert(all[i as int] == self.packets@[i as int]@);
                    let front = all.take(i + 1).filter(f);
                    assert(front[0] == all[i as int]);
                    assert(self@.eliciting() == all.filter(f));
                    assert(all.filter(f)[0] == front[0]);
                    assert(self@.packets[i as int] == all[i as int]);
                }
                return Some(frames);
            }
            i = i + 1;
        }
        assert(all.take(all.len() as int) =~= all);
        None
    }
}

/// Copies frames.
fn copy_frames(frames: &Vec<SentFrame>) -> (v: Vec<SentFrame>)
    ensures
        frame_views(v@) == frame_views(frames@),
{
    let mut v: Vec<SentFrame> = Vec::new();
    let mut i: usize = 0;
    while i < frames.len()
        invariant
            i <= frames@.len(),
            v@.len() == i,
            forall|j: int| 0 <= j < i ==> (#[trigger] v@[j])@ == frames@[j]@,
        decreases frames@.len() - i,
    {
        v.push(frames[i].clone());
        i = i + 1;
    }
    assert(frame_views(v@) =~= frame_views(frames@));
    v
}

/// The largest packet number of these packets.
pub open spec fn largest_of(packets: Seq<SentPacketView>) -> Option<u64>
    decreases packets.len(),
{
    if packets.len() == 0 {
        None
    } else {
        let last = packets.last().packet_number;
        match largest_of(packets.drop_last()) {
            Some(l) => if l > last {
                Some(l)
            } else {
                Some(last)
            },
            None => Some(last),
        }
    }
}

/// Whether the peer had to acknowledge one of these packets.
pub open spec fn any_eliciting(packets: Seq<SentPacketView>) -> bool
    decreases packets.len(),
{
    packets.len() > 0 && (any_eliciting(packets.drop_last()) || packets.last().ack_eliciting)
}

/// Inclusive ranges of packet numbers.
spec fn spans_cover(
    spans: Seq<(u64, u64)>,
    largest: u64,
    first_range: u64,
    ranges: Seq<AckRange>,
) -> bool {
    forall|pn: u64|
        #![trigger acks(largest, first_range, ranges, pn)]
        acks(largest, first_range, ranges, pn) <==> in_some_span(spans, pn)
}

spec fn in_some_span(spans: Seq<(u64, u64)>, pn: u64) -> bool {
    exists|i: int| 0 <= i < spans.len() && (#[trigger] spans[i]).0 <= pn <= spans[i].1
}

fn in_spans(spans: &Vec<(u64, u64)>, pn: u64) -> (r: bool)
    ensures
        r == in_some_span(spans@, pn),
{
    let mut i: usize = 0;
    while i < spans.len()
        invariant
            i <= spans@.len(),
            forall|j: int| 0 <= j < i ==> !((#[trigger] spans@[j]).0 <= pn <= spans@[j].1),
        decreases spans@.len() - i,
    {
        let (low, high) = spans[i];
        if low <= pn && pn <= high {
            assert(spans@[i as int].0 <= pn);
            return true;
        }
        i = i + 1;
    }
    false
}

/// Whether one of the first `n` further ranges covers `pn`.
spec fn acks_below(
    largest: u64,
    first_range: u64,
    ranges: Seq<AckRange>,
    n: int,
    pn: u64,
) -> bool {
    ||| largest - first_range <= pn <= largest
    ||| exists|i: int|
        0 <= i < n && #[trigger] ack_low(largest, first_range, ranges, i + 1) <= pn <= ack_low(
            largest,
            first_range,
            ranges,
            i,
        ) - ranges[i].gap - 2
}

/// Once the ranges have reached packet number zero, no further one covers anything.
proof fn lemma_nothing_below(
    largest: u64,
    first_range: u64,
    ranges: Seq<AckRange>,
    n: int,
    i: int,
)
    requires
        0 <= n <= i < ranges.len(),
        ack_low(largest, first_range, ranges, n) <= 1 || ack_low(largest, first_range, ranges, n)
            - ranges[n].gap - 2 < 0,
    ensures
        ack_low(largest, first_range, ranges, i) - ranges[i].gap - 2 < 0,
    decreases i,
{
    if n < i {
        assert(ack_low(largest, first_range, ranges, n + 1) <= ack_low(
            largest,
            first_range,
            ranges,
            n,
        ) - ranges[n].gap - 2);
        if n + 1 <= i {
            lemma_low_descends(largest, first_range, ranges, n + 1, i);
        }
    }
}

proof fn lemma_low_descends(
    largest: u64,
    first_range: u64,
    ranges: Seq<AckRange>,
    n: int,
    m: int,
)
    requires
        0 <= n <= m,
    ensures
        ack_low(largest, first_range, ranges, m) <= ack_low(largest, first_range, ranges, n),
    decreases m,
{
    if n < m {
        lemma_low_descends(largest, first_range, ranges, n, m - 1);
    }
}

/// The ranges of an acknowledgement as inclusive ranges of packet numbers.
fn ack_spans(largest: u64, first_range: u64, ranges: &[AckRange]) -> (spans: Vec<(u64, u64)>)
    ensures
        spans_cover(spans@, largest, first_range, ranges@),
{
    let mut spans: Vec<(u64, u64)> = Vec::new();
    let mut low: u64 = if first_range <= largest {
        largest - first_range
    } else {
        0
    };
    spans.push((low, largest));
    assert(spans@[0] == (low, largest));
    let mut i: usize = 0;
    let mut done: bool = first_range > largest;
    proof {
        assert forall|pn: u64| in_some_span(spans@, pn) <==> #[trigger] acks_below(
            largest,
            first_range,
            ranges@,
            0,
            pn,
        ) by {
            assert(spans@[0] == (low, largest));
        }
        if done {
            assert forall|k: int| 0 <= k < ranges@.len() implies ack_low(
                largest,
                first_range,
                ranges@,
                k,
            ) - #[trigger] ranges@[k].gap - 2 < 0 by {
                lemma_low_descends(largest, first_range, ranges@, 0, k);
            }
        }
    }
    while i < ranges.len() && !done
        invariant
            i <= ranges@.len(),
            !done ==> low == ack_low(largest, first_range, ranges@, i as int),
            done ==> forall|k: int|
                i <= k < ranges@.len() ==> ack_low(largest, first_range, ranges@, k)
                    - #[trigger] ranges@[k].gap - 2 < 0,
            forall|pn: u64|
                in_some_span(spans@, pn) <==> #[trigger] acks_below(
                    largest,
                    first_range,
                    ranges@,
                    i as int,
                    pn,
                ),
        decreases
            ranges@.len() - i + if done {
                0int
            } else {
                1int
            },
    {
        let ghost before = spans@;
        let gap: u64 = ranges[i].gap;
        let range: u64 = ranges[i].range;
        if low < 2 || low - 2 < gap {
            // Nothing of this range, or of those after it, lies at or above zero.
            proof {
                assert forall|k: int| i <= k < ranges@.len() implies ack_low(
                    largest,
                    first_range,
                    ranges@,
                    k,
                ) - #[trigger] ranges@[k].gap - 2 < 0 by {
                    lemma_nothing_below(largest, first_range, ranges@, i as int, k);
                }
            }
            done = true;
        } else {
            let high: u64 = low - 2 - gap;
            let bottom: u64 = if range <= high {
                high - range
            } else {
                0
            };
            assert(ack_low(largest, first_range, ranges@, i + 1) == high - range);
            spans.push((bottom, high));
            proof {
                assert forall|pn: u64| in_some_span(spans@, pn) <==> #[trigger] acks_below(
                    largest,
                    first_range,
                    ranges@,
                    i + 1,
                    pn,
                ) by {
                    assert(in_some_span(before, pn) <==> acks_below(
                        largest,
                        first_range,
                        ranges@,
                        i as int,
                        pn,
                    ));
                    if in_some_span(before, pn) {
                        let j = choose|j: int|
                            0 <= j < before.len() && (#[trigger] before[j]).0 <= pn <= before[j].1;
                        assert(spans@[j] == before[j]);
                    }
                    assert(spans@[before.len() as int] == (bottom, high));
                    if in_some_span(spans@, pn) {
                        let j = choose|j: int|
                            0 <= j < spans@.len() && (#[trigger] spans@[j]).0 <= pn <= spans@[j].1;
                        if j < before.len() {
                            assert(before[j] == spans@[j]);
                        } else {
                            assert(ack_low(largest, first_range, ranges@, i as int + 1) <= pn);
                        }
                    }
                    if acks_below(largest, first_range, ranges@, i + 1, pn) && !acks_below(
                        largest,
                        first_range,
                        ranges@,
                        i as int,
                        pn,
                    ) {
                        let j = choose|j: int|
                            0 <= j < i + 1 && #[trigger] ack_low(
                                largest,
                                first_range,
                                ranges@,
                                j + 1,
                            ) <= pn <= ack_low(largest, first_range, ranges@, j) - ranges@[j].gap
                                - 2;
                        assert(j == i);
                    }
                }
            }
            if range > high {
                proof {
                    assert forall|k: int| i + 1 <= k < ranges@.len() implies ack_low(
                        largest,
                        first_range,
                        ranges@,
                        k,
                    ) - #[trigger] ranges@[k].gap - 2 < 0 by {
                        lemma_nothing_below(largest, first_range, ranges@, i + 1, k);
                    }
                }
                done = true;
            }
            low = bottom;
            i = i + 1;
        }
    }
    proof {
        assert forall|pn: u64|
            #![trigger acks(largest, first_range, ranges@, pn)]
            acks(largest, first_range, ranges@, pn) <==> in_some_span(spans@, pn) by {
            assert(in_some_span(spans@, pn) <==> acks_below(
                largest,
                first_range,
                ranges@,
                i as int,
                pn,
            ));
            if acks(largest, first_range, ranges@, pn) && !(largest - first_range <= pn
                <= largest) {
                let j = choose|j: int|
                    0 <= j < ranges@.len() && #[trigger] ack_low(
                        largest,
                        first_range,
                        ranges@,
                        j + 1,
                    ) <= pn <= ack_low(largest, first_range, ranges@, j) - ranges@[j].gap - 2;
                assert(ranges@[j].gap >= 0);
                assert(j < i);
            }
        }
    }
    spans
}

/// What is filtered out of packets in order is in order.
proof fn lemma_filter_keeps_order(s: Seq<SentPacketView>, f: spec_fn(SentPacketView) -> bool)
    ensures
        (InFlight { packets: s, largest_acked: None }).wf() ==> (InFlight {
            packets: s.filter(f),
            largest_acked: None,
        }).wf(),
        forall|i: int|
            0 <= i < s.filter(f).len() ==> exists|j: int|
                0 <= j < s.len() && #[trigger] s.filter(f)[i] == #[trigger] s[j],
    decreases s.len(),
{
    reveal(Seq::filter);
    lemma_total_bytes_filter(s, f);
    if s.len() > 0 {
        let t = s.drop_last();
        lemma_filter_keeps_order(t, f);
        lemma_total_bytes_take(s, s.len() - 1);
        assert(s.take(s.len() - 1) =~= t);
        assert forall|i: int| 0 <= i < s.filter(f).len() implies exists|j: int|
            0 <= j < s.len() && #[trigger] s.filter(f)[i] == #[trigger] s[j] by {
            if i < t.filter(f).len() {
                let j = choose|j: int| 0 <= j < t.len() && t.filter(f)[i] == t[j];
                assert(s.filter(f)[i] == t.filter(f)[i]);
                assert(s[j] == t[j]);
            } else {
                assert(s.filter(f)[i] == s[s.len() - 1]);
            }
        }
        if (InFlight { packets: s, largest_acked: None }).wf() {
            assert((InFlight { packets: t, largest_acked: None }).wf());
            let u = s.filter(f);
            assert forall|i: int, j: int| 0 <= i < j < u.len() implies (
            #[trigger] u[i]).packet_number < (#[trigger] u[j]).packet_number by {
                if j == t.filter(f).len() {
                    assert(u[i] == t.filter(f)[i]);
                    let k = choose|k: int| 0 <= k < t.len() && t.filter(f)[i] == t[k];
                    assert(s[k] == t[k]);
                } else {
                    assert(u[i] == t.filter(f)[i]);
                    assert(u[j] == t.filter(f)[j]);
                }
            }
            assert forall|i: int| 0 <= i < u.len() implies (
            #[trigger] u[i]).time_sent.in_range() && frames_fit(u[i].frames) by {
                let k = choose|k: int| 0 <= k < s.len() && u[i] == s[k];
            }
        }
    }
}

proof fn lemma_filter_subset(s: Seq<SentPacketView>, f: spec_fn(SentPacketView) -> bool)
    requires
        forall|i: int| 0 <= i < s.len() ==> (#[trigger] s[i]).time_sent.in_range(),
    ensures
        forall|i: int|
            0 <= i < s.filter(f).len() ==> (#[trigger] s.filter(f)[i]).time_sent.in_range(),
{
    lemma_filter_keeps_order(s, f);
    assert forall|i: int| 0 <= i < s.filter(f).len() implies (
    #[trigger] s.filter(f)[i]).time_sent.in_range() by {
        let k = choose|k: int| 0 <= k < s.len() && s.filter(f)[i] == s[k];
    }
}

proof fn lemma_earliest_in_range(s: Seq<SentPacketView>)
    requires
        forall|i: int| 0 <= i < s.len() ==> (#[trigger] s[i]).time_sent.in_range(),
    ensures
        earliest_sent(s) matches Some(t) ==> t.in_range(),
    decreases s.len(),
{
    if s.len() > 0 {
        lemma_earliest_in_range(s.drop_last());
    }
}

/// A filter of the whole starts with the filter of the front.
proof fn lemma_filter_prefix(s: Seq<SentPacketView>, n: int, f: spec_fn(SentPacketView) -> bool)
    requires
        0 <= n <= s.len(),
    ensures
        s.take(n).filter(f).is_prefix_of(s.filter(f)),
    decreases s.len(),
{
    reveal(Seq::filter);
    if n < s.len() {
        let t = s.drop_last();
        lemma_filter_prefix(t, n, f);
        assert(t.take(n) =~= s.take(n));
    } else {
        assert(s.take(n) =~= s);
    }
}

/// A filter and its opposite share the sequence out.
proof fn lemma_filter_split(s: Seq<SentPacketView>, f: spec_fn(SentPacketView) -> bool, g: spec_fn(
    SentPacketView,
) -> bool)
    requires
        forall|p: SentPacketView| #[trigger] g(p) <==> !f(p),
    ensures
        s.filter(f).len() + s.filter(g).len() == s.len(),
        s.filter(g).filter(f).len() == 0,
    decreases s.len(),
{
    reveal(Seq::filter);
    if s.len() > 0 {
        lemma_filter_split(s.drop_last(), f, g);
        let t = s.drop_last().filter(g);
        if g(s.last()) {
            assert(t.push(s.last()).drop_last() =~= t);
        }
    }
}

/// Every packet leaves flight once: an acknowledgement shares the packets in flight
/// out between those it covers and those that stay, and the same acknowledgement
/// again takes nothing.
pub proof fn law_acked_once(
    s: InFlight,
    largest: u64,
    first_range: u64,
    ranges: Seq<AckRange>,
)
    ensures
        s.newly_acked(largest, first_range, ranges).len() + s.after_ack(
            largest,
            first_range,
            ranges,
        ).packets.len() == s.packets.len(),
        s.after_ack(largest, first_range, ranges).newly_acked(
            largest,
            first_range,
            ranges,
        ).len() == 0,
{
    lemma_filter_split(
        s.packets,
        |p: SentPacketView| acks(largest, first_range, ranges, p.packet_number),
        |p: SentPacketView| !acks(largest, first_range, ranges, p.packet_number),
    );
}

/// Every packet is lost once: looking for losses shares the packets in flight out
/// between those that are lost and those that stay, and looking again at the same
/// time finds none.
pub proof fn law_lost_once(s: InFlight, now: Instant, loss_delay: Duration)
    ensures
        s.lost(now, loss_delay).len() + s.without_lost(now, loss_delay).packets.len()
            == s.packets.len(),
        s.without_lost(now, loss_delay).lost(now, loss_delay).len() == 0,
{
    let after = s.without_lost(now, loss_delay);
    let f = |p: SentPacketView| s.is_lost(p, now, loss_delay);
    let g = |p: SentPacketView| !s.is_lost(p, now, loss_delay);
    lemma_filter_split(s.packets, f, g);
    assert(f =~= |p: SentPacketView| after.is_lost(p, now, loss_delay));
}

/// Nothing is lost before a later packet is acknowledged.
pub proof fn law_no_loss_without_ack(s: InFlight, now: Instant, loss_delay: Duration)
    requires
        s.largest_acked is None,
    ensures
        s.lost(now, loss_delay).len() == 0,
        s.next_loss_time(now, loss_delay) is None,
{
    s.packets.lemma_all_neg_filter_empty(|p: SentPacketView| s.is_lost(p, now, loss_delay));
    s.packets.lemma_all_neg_filter_empty(|p: SentPacketView| s.may_be_lost(p, now, loss_delay));
}

} // verus!
