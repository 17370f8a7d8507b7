//! Loss recovery of a connection: acknowledgements, lost frames, and the timer.
use super::model::Conn;
use super::Connection;
use crate::cid::{CidView, IssuedCid};
use crate::frame::AckRange;
use crate::recovery::{space_index, SpaceIndex};
use crate::sent_packet::{
    frame_views, frames_fit, packet_views, SentFrame, SentFrameView, SentPacket, SentPacketView,
};
use crate::time::Instant;
use crate::types::{copy_bytes, PacketType};
use vstd::prelude::*;

verus! {

impl Connection {
    /// Process an `ACK` frame for `packet_type`'s space: acknowledge packets,
    /// sample the RTT, advance congestion control and run loss detection
    /// (RFC 9002 Section 5, 6, Appendix A.7).
    pub fn process_ack(
        &mut self,
        now: Instant,
        packet_type: PacketType,
        largest: u64,
        delay: u64,
        first_range: u64,
        ranges: &[AckRange],
    )
        requires
            old(self)@.wf(),
            now.in_range(),
        ensures
            final(self)@.wf(),
            final(self)@ == old(self)@.with_ack(
                now,
                packet_type,
                largest,
                delay,
                first_range,
                ranges@,
            ),
    {
        proof {
            reveal(Conn::with_ack);
        }
        let idx = space_index(packet_type);
        // Record the largest acknowledged for packet-number truncation length.
        match packet_type {
            PacketType::Initial => self.initial.on_ack_received(largest),
            PacketType::Handshake => self.handshake.on_ack_received(largest),
            _ => self.application.on_ack_received(largest),
        }
        assert(self@ == old(self)@.space_acked(packet_type, largest));
        let newly = self.recovery.on_ack(
            now,
            idx,
            self.handshake_done,
            largest,
            delay,
            first_range,
            ranges,
        );
        if !newly {
            return;
        }
        // Run loss detection for this space.

        self.detect_and_handle_loss(idx, now);
        self.set_loss_detection_timer(now);
    }

    /// Detect lost packets in space `idx` and re-queue their retransmittable
    /// frames; feed the loss to congestion control (RFC 9002 Section 6.1, 6.2).
    pub fn detect_and_handle_loss(&mut self, idx: SpaceIndex, now: Instant)
        requires
            old(self)@.wf(),
        ensures
            final(self)@.wf(),
            final(self)@ == old(self)@.with_losses(idx, now),
    {
        let lost = self.recovery.take_lost(idx, now);
        // Re-queue retransmittable frames onto their originating streams. The
        // space index routes CRYPTO retransmission to the correct CRYPTO stream.
        self.requeue_packets(idx, lost);
    }

    /// Re-queues the frames of several packets in turn.
    pub(super) fn requeue_packets(&mut self, idx: SpaceIndex, packets: Vec<SentPacket>)
        requires
            old(self)@.wf(),
            forall|i: int| 0 <= i < packets@.len() ==> frames_fit((#[trigger] packets@[i])@.frames),
        ensures
            final(self)@.wf(),
            final(self)@ == old(self)@.requeued_packets(idx, packet_views(packets@)),
    {
        let ghost start = self@;
        let ghost all = packet_views(packets@);
        let mut i: usize = 0;
        assert(all.take(0) =~= Seq::empty());
        while i < packets.len()
            invariant
                i <= packets@.len(),
                all == packet_views(packets@),
                forall|i: int|
                    0 <= i < packets@.len() ==> frames_fit((#[trigger] packets@[i])@.frames),
                self@.wf(),
                self@ == start.requeued_packets(idx, all.take(i as int)),
            decreases packets@.len() - i,
        {
            proof {
                assert(all.take(i + 1).drop_last() =~= all.take(i as int));
                assert(all.take(i + 1).last() == packets@[i as int]@);
                assert(frames_fit(packets@[i as int]@.frames));
            }
            self.requeue_frames(idx, &packets[i].frames);
            i = i + 1;
        }
        assert(all.take(all.len() as int) =~= all);
    }

    /// Re-queues several lost frames in turn.
    fn requeue_frames(&mut self, idx: SpaceIndex, frames: &Vec<SentFrame>)
        requires
            old(self)@.wf(),
            frames_fit(frame_views(frames@)),
        ensures
            final(self)@.wf(),
            final(self)@ == old(self)@.requeued_all(idx, frame_views(frames@)),
    {
        let ghost all = frame_views(frames@);
        let mut i: usize = 0;
        assert(all.take(0) =~= Seq::empty());
        while i < frames.len()
            invariant
                i <= frames@.len(),
                all == frame_views(frames@),
                frames_fit(all),
                self@.wf(),
                self@ == old(self)@.requeued_all(idx, all.take(i as int)),
            decreases frames@.len() - i,
        {
            proof {
                assert(all.take(i + 1).drop_last() =~= all.take(i as int));
                assert(all.take(i + 1).last() == frames@[i as int]@);
                assert(all[i as int] == frames@[i as int]@);
            }
            self.requeue_frame(idx, &frames[i]);
            i = i + 1;
        }
        assert(all.take(all.len() as int) =~= all);
    }

    /// Re-queue a single lost frame's data onto the stream it came from. `idx`
    /// is the packet-number space the lost packet belonged to, used to
    /// route CRYPTO retransmission to the matching CRYPTO stream.
    pub fn requeue_frame(&mut self, idx: SpaceIndex, frame: &SentFrame)
        requires
            old(self)@.wf(),
            frame@ matches SentFrameView::Crypto { offset, data } ==> offset + data.len()
                <= u64::MAX,
        ensures
            final(self)@.wf(),
            final(self)@ == old(self)@.requeued(idx, frame@),
    {
        match frame {
            SentFrame::Crypto { offset, data } => {
                if idx == SpaceIndex::Handshake {
                    self.handshake_crypto.requeue(*offset, copy_bytes(data.as_slice()));
                } else {
                    self.initial_crypto.requeue(*offset, copy_bytes(data.as_slice()));
                }
            },
            SentFrame::Stream { id, offset, fin, data } => {
                self.streams.requeue(*id, *offset, copy_bytes(data.as_slice()), *fin);
            },
            SentFrame::Ping => {
                // PING carries no data; a fresh probe is sent on PTO instead.
            },
            SentFrame::MtuProbe(_) => {
                // MTU probes are reported as lost when their packet is; they are
                // never re-queued as retransmissions.
            },
            SentFrame::NewConnectionId {
                seq,
                retire_prior_to: _,
                cid,
                stateless_reset_token,
            } => {
                // On loss, re-queue the NEW_CONNECTION_ID for retransmission. The
                // pool state already reflects the correct retire threshold.
                self.local_cids.requeue(
                    IssuedCid {
                        seq: *seq,
                        cid: cid.clone(),
                        stateless_reset_token: *stateless_reset_token,
                    },
                );
            },
            SentFrame::RetireConnectionId { seq } => {
                // On loss, re-queue the RETIRE_CONNECTION_ID for retransmission.
                self.peer_cids.requeue_retire(*seq);
            },
            SentFrame::MaxStreams { dir, max } => {
                // On loss, re-queue the MAX_STREAMS update if the value is still
                // current (only keep the highest advertised limit).
                self.streams.requeue_max_streams(*dir, *max);
            },
            SentFrame::StreamsBlocked { dir, limit } => {
                self.streams.requeue_streams_blocked(*dir, *limit);
            },
            SentFrame::NewToken { token } => {
                // On loss, re-queue the NEW_TOKEN only if none is already pending.
                if self.pending_new_token.is_none() {
                    self.pending_new_token = Some(copy_bytes(token.as_slice()));
                }
            },
        }
    }

    /// Recompute the loss-detection timer (RFC 9002 Appendix A.6/A.8): the
    /// earliest pending time-threshold loss deadline if any, otherwise the PTO
    /// armed from the earliest outstanding ack-eliciting packet across spaces.
    pub fn set_loss_detection_timer(&mut self, _now: Instant)
        requires
            old(self)@.wf(),
        ensures
            final(self)@.wf(),
            final(self)@ == old(self)@.timed(),
    {
        self.recovery.set_loss_detection_timer();
    }

    /// Fire the loss-detection timer at `now` (RFC 9002 Appendix A.9
    /// `OnLossDetectionTimeout`): either declare time-threshold losses, or, if
    /// the PTO fired, schedule probe packets to elicit fresh acknowledgements.
    pub fn on_loss_timeout(&mut self, now: Instant)
        requires
            old(self)@.wf(),
        ensures
            final(self)@.wf(),
            final(self)@ == old(self)@.timed_out(now),
    {
        // If a time-threshold loss is due, process it.
        match self.recovery.expired_space(now) {
            Some(space) => {
                self.detect_and_handle_loss(space, now);
                self.set_loss_detection_timer(now);
                return;
            },
            None => {},
        }
        // Otherwise this is a PTO expiry: back off and owe probe packets so the
        // next transmission retransmits / sends a PING to elicit an ACK.
        if self.recovery.earliest_ack_eliciting_across_spaces().is_some() {
            self.recovery.owe_probes();
            self.requeue_for_probe();
        }
        self.set_loss_detection_timer(now);
    }

    /// On PTO, re-queue the oldest outstanding data so a probe carries useful
    /// retransmission (RFC 9002 Section 6.2.4). For the Application space this
    /// re-queues stream data; for Initial/Handshake it re-queues CRYPTO. If no
    /// data is outstanding a bare PING is sent by the probe path.
    fn requeue_for_probe(&mut self)
        requires
            old(self)@.wf(),
        ensures
            final(self)@.wf(),
            final(self)@ == old(self)@.probing(),
    {
        // Re-queue the lowest-numbered outstanding ack-eliciting packet's frames
        // in each space that has outstanding ack-eliciting data. They stay in
        // flight (tracked until acked/lost); the resend queues simply ensure the
        // data is re-emitted. To avoid unbounded duplication we re-queue only the
        // single oldest packet.
        let ghost r = self@.recovery;
        let frames = self.recovery.probe_frames(SpaceIndex::Initial);
        self.requeue_frames(SpaceIndex::Initial, &frames);
        proof {
            lemma_requeued_all_frame(
                old(self)@,
                SpaceIndex::Initial,
                r.probe_frames(SpaceIndex::Initial),
            );
        }
        let ghost mid = self@;
        let frames = self.recovery.probe_frames(SpaceIndex::Handshake);
        self.requeue_frames(SpaceIndex::Handshake, &frames);
        proof {
            lemma_requeued_all_frame(
                mid,
                SpaceIndex::Handshake,
                r.probe_frames(SpaceIndex::Handshake),
            );
        }
        let frames = self.recovery.probe_frames(SpaceIndex::Application);
        self.requeue_frames(SpaceIndex::Application, &frames);
    }
}

/// What is lost goes out again: putting a lost frame back makes its data wait for
/// sending once more, behind what waits already, and touches nothing else of the
/// stream it came from.
pub proof fn law_lost_data_waits_again(
    c: Conn,
    space: SpaceIndex,
    id: u64,
    offset: u64,
    data: Seq<u8>,
    fin: bool,
)
    ensures
        c.requeued(SpaceIndex::Handshake, SentFrameView::Crypto { offset, data }).handshake_crypto
            == c.handshake_crypto.requeued((offset, data)),
        c.requeued(SpaceIndex::Initial, SentFrameView::Crypto { offset, data }).initial_crypto
            == c.initial_crypto.requeued((offset, data)),
        c.streams.send.contains_key(id) ==> c.requeued(
            space,
            SentFrameView::Stream { id, offset, fin, data },
        ).streams.send[id].resend == c.streams.send[id].resend.push((offset, data, fin)),
        !c.streams.send.contains_key(id) ==> c.requeued(
            space,
            SentFrameView::Stream { id, offset, fin, data },
        ) == c,
{
}

impl Conn {
    /// Whether what a frame carried waits to be sent (again): its data or something
    /// that says at least as much. PINGs and probes of the path MTU carry nothing.
    pub open spec fn waits(self, space: SpaceIndex, frame: SentFrameView) -> bool {
        match frame {
            SentFrameView::Crypto { offset, data } => if space == SpaceIndex::Handshake {
                self.handshake_crypto.resend.contains((offset, data))
            } else {
                self.initial_crypto.resend.contains((offset, data))
            },
            SentFrameView::Stream { id, offset, fin, data } => self.streams.send.contains_key(id)
                ==> self.streams.send[id].resend.contains((offset, data, fin)),
            SentFrameView::NewConnectionId { seq, retire_prior_to, cid, token } =>
                self.local_cids.pending_new.contains(CidView { seq, cid, token }),
            SentFrameView::RetireConnectionId { seq } => self.peer_cids.pending_retire.contains(
                seq,
            ),
            SentFrameView::MaxStreams { dir, max } => self.streams.limits(
                dir,
            ).pending_max matches Some(m) && m >= max,
            SentFrameView::StreamsBlocked { dir, limit } => self.streams.limits(
                dir,
            ).pending_blocked is Some,
            SentFrameView::NewToken { token } => self.pending_new_token is Some,
            SentFrameView::Ping | SentFrameView::MtuProbe(_) => true,
        }
    }
}

/// A frame that is put back waits, and those that wait already go on to.
proof fn lemma_requeued_waits(
    c: Conn,
    space: SpaceIndex,
    frame: SentFrameView,
    other_space: SpaceIndex,
    other: SentFrameView,
)
    ensures
        c.requeued(space, frame).waits(space, frame),
        c.waits(other_space, other) ==> c.requeued(space, frame).waits(other_space, other),
{
    broadcast use vstd::seq_lib::group_seq_properties;

}

/// Frames that wait go on to when others are put back.
pub(crate) proof fn lemma_requeued_all_keeps(
    c: Conn,
    space: SpaceIndex,
    frames: Seq<SentFrameView>,
    other_space: SpaceIndex,
    other: SentFrameView,
)
    requires
        c.waits(other_space, other),
    ensures
        c.requeued_all(space, frames).waits(other_space, other),
    decreases frames.len(),
{
    if frames.len() > 0 {
        lemma_requeued_all_keeps(c, space, frames.drop_last(), other_space, other);
        lemma_requeued_waits(
            c.requeued_all(space, frames.drop_last()),
            space,
            frames.last(),
            other_space,
            other,
        );
    }
}

/// Each of several frames that are put back waits.
pub(crate) proof fn lemma_requeued_all_waits(
    c: Conn,
    space: SpaceIndex,
    frames: Seq<SentFrameView>,
    i: int,
)
    requires
        0 <= i < frames.len(),
    ensures
        c.requeued_all(space, frames).waits(space, frames[i]),
    decreases frames.len(),
{
    let before = c.requeued_all(space, frames.drop_last());
    lemma_requeued_waits(before, space, frames.last(), space, frames[i]);
    if i < frames.len() - 1 {
        lemma_requeued_all_waits(c, space, frames.drop_last(), i);
    }
}

/// Nothing that was sent is forgotten with the packet that carried it: every frame of
/// every packet that is put back waits to be sent again.
pub proof fn law_lost_frames_wait(
    c: Conn,
    space: SpaceIndex,
    packets: Seq<SentPacketView>,
    i: int,
    j: int,
)
    requires
        0 <= i < packets.len(),
        0 <= j < packets[i].frames.len(),
    ensures
        c.requeued_packets(space, packets).waits(space, packets[i].frames[j]),
    decreases packets.len(),
{
    let before = c.requeued_packets(space, packets.drop_last());
    if i < packets.len() - 1 {
        law_lost_frames_wait(c, space, packets.drop_last(), i, j);
        lemma_requeued_all_keeps(
            before,
            space,
            packets.last().frames,
            space,
            packets[i].frames[j],
        );
    } else {
        lemma_requeued_all_waits(before, space, packets.last().frames, j);
    }
}

/// What is found lost leaves flight, and every frame of it waits to be sent again.
pub proof fn law_losses_recovered(c: Conn, space: SpaceIndex, now: Instant, i: int, j: int)
    requires
        0 <= i < c.recovery.lost(space, now).len(),
        0 <= j < c.recovery.lost(space, now)[i].frames.len(),
    ensures
        c.with_losses(space, now).waits(space, c.recovery.lost(space, now)[i].frames[j]),
        c.with_losses(space, now).recovery == c.recovery.after_loss(space, now),
{
    let lost = c.recovery.lost(space, now);
    let without = Conn { recovery: c.recovery.after_loss(space, now), ..c };
    law_lost_frames_wait(without, space, lost, i, j);
    law_requeue_frame_condition(without, space, lost);
}

/// Putting lost frames back never changes what is in flight, the estimates, the
/// keys, the state of the connection, the packet number spaces, TLS, or the calls on
/// record.
pub proof fn law_requeue_frame_condition(c: Conn, space: SpaceIndex, packets: Seq<SentPacketView>)
    ensures
        ({
            let after = c.requeued_packets(space, packets);
            &&& after.recovery == c.recovery
            &&& after.keys == c.keys
            &&& after.state == c.state
            &&& after.handshake_complete == c.handshake_complete
            &&& after.handshake_done == c.handshake_done
            &&& after.path == c.path
            &&& after.streams.recv == c.streams.recv
            &&& after.initial == c.initial
            &&& after.handshake == c.handshake
            &&& after.application == c.application
            &&& after.tls == c.tls
            &&& after.reads == c.reads
            &&& after.draws == c.draws
        }),
    decreases packets.len(),
{
    if packets.len() > 0 {
        law_requeue_frame_condition(c, space, packets.drop_last());
        lemma_requeued_all_frame(
            c.requeued_packets(space, packets.drop_last()),
            space,
            packets.last().frames,
        );
    }
}

pub(crate) proof fn lemma_requeued_all_frame(c: Conn, space: SpaceIndex, frames: Seq<SentFrameView>)
    ensures
        ({
            let after = c.requeued_all(space, frames);
            &&& after.recovery == c.recovery
            &&& after.keys == c.keys
            &&& after.state == c.state
            &&& after.handshake_complete == c.handshake_complete
            &&& after.handshake_done == c.handshake_done
            &&& after.path == c.path
            &&& after.streams.recv == c.streams.recv
            &&& after.initial == c.initial
            &&& after.handshake == c.handshake
            &&& after.application == c.application
            &&& after.tls == c.tls
            &&& after.reads == c.reads
            &&& after.draws == c.draws
        }),
    decreases frames.len(),
{
    if frames.len() > 0 {
        lemma_requeued_all_frame(c, space, frames.drop_last());
    }
}

} // verus!
