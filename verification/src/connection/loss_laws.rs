//! What acknowledgements, losses and the timer do, packet by packet.
use super::loss::{
    in_flight, latest_sent, packet_probe_sizes, probe_sizes, EventView, RecoveryState,
};
use super::model::Conn;
use super::recovery::{
    law_requeue_frame_condition, lemma_requeued_all_frame, lemma_requeued_all_keeps,
    lemma_requeued_all_waits,
};
use super::streams::{StreamLimits, StreamsState};
use crate::cid::CidView;
use crate::filtered::{
    lemma_filter_first, lemma_filter_members, lemma_filter_none, lemma_filter_split,
};
use crate::recovery::{LossDetector, SpaceIndex};
use crate::sent_packet::{
    earliest_sent, total_bytes, InFlight, SentFrameView, SentPacketView,
};
use crate::time::{Duration, Instant};
use crate::types::Direction;
use vstd::prelude::*;

verus! {

/// Whether no timer of loss for age has run out at `now`.
pub open spec fn none_due(l: LossDetector, now: Instant) -> bool {
    &&& l.initial matches Some(t) ==> now.nanos < t.nanos
    &&& l.handshake matches Some(t) ==> now.nanos < t.nanos
    &&& l.application matches Some(t) ==> now.nanos < t.nanos
}

/// Whether the packet at `k` is the oldest that the peer must acknowledge.
pub open spec fn oldest_at(packets: Seq<SentPacketView>, k: int) -> bool {
    &&& 0 <= k < packets.len()
    &&& packets[k].ack_eliciting
    &&& forall|m: int| 0 <= m < k ==> !(#[trigger] packets[m]).ack_eliciting
}

/// Whether `frames` are those of the oldest packet that the peer must acknowledge, and
/// none if there is no such packet.
pub open spec fn oldest_frames(packets: Seq<SentPacketView>, frames: Seq<SentFrameView>) -> bool {
    ||| exists|k: int| #[trigger] oldest_at(packets, k) && frames == packets[k].frames
    ||| frames.len() == 0 && forall|m: int|
        0 <= m < packets.len() ==> !(#[trigger] packets[m]).ack_eliciting
}

/// The handshake data among frames, in order.
pub open spec fn crypto_of(frames: Seq<SentFrameView>) -> Seq<(u64, Seq<u8>)>
    decreases frames.len(),
{
    if frames.len() == 0 {
        Seq::empty()
    } else {
        match frames.last() {
            SentFrameView::Crypto { offset, data } => crypto_of(frames.drop_last()).push(
                (offset, data),
            ),
            _ => crypto_of(frames.drop_last()),
        }
    }
}

/// The data of one stream among frames, in order.
pub open spec fn data_of(frames: Seq<SentFrameView>, stream: u64) -> Seq<(u64, Seq<u8>, bool)>
    decreases frames.len(),
{
    if frames.len() == 0 {
        Seq::empty()
    } else {
        match frames.last() {
            SentFrameView::Stream { id, offset, fin, data } => if id == stream {
                data_of(frames.drop_last(), stream).push((offset, data, fin))
            } else {
                data_of(frames.drop_last(), stream)
            },
            _ => data_of(frames.drop_last(), stream),
        }
    }
}

proof fn lemma_probe_frames(r: RecoveryState, space: SpaceIndex, frames: Seq<SentFrameView>)
    requires
        oldest_frames(r.sent(space).packets, frames),
    ensures
        r.probe_frames(space) == frames,
{
    let packets = r.sent(space).packets;
    let f = |p: SentPacketView| p.ack_eliciting;
    if exists|k: int| #[trigger] oldest_at(packets, k) && frames == packets[k].frames {
        let k = choose|k: int| #[trigger] oldest_at(packets, k) && frames == packets[k].frames;
        lemma_filter_first(packets, f, k);
    } else {
        lemma_filter_none(packets, f);
        assert(frames =~= Seq::empty());
    }
}

proof fn lemma_none_expired(r: RecoveryState, now: Instant)
    requires
        none_due(r.loss, now),
    ensures
        r.expired_space(now) is None,
{
}

proof fn lemma_some_eliciting(r: RecoveryState, space: SpaceIndex, k: int)
    requires
        oldest_at(r.sent(space).packets, k),
    ensures
        r.earliest_eliciting() is Some,
{
    let packets = r.sent(space).packets;
    lemma_filter_first(packets, |p: SentPacketView| p.ack_eliciting, k);
    assert(earliest_sent(r.sent(space).eliciting()) is Some);
}

/// When the timer fires and no packet is lost for its age, every frame of the oldest
/// packet in each space that the peer must acknowledge waits to be sent again, and what
/// is in flight stays so.
pub proof fn law_probe_carries_oldest(c: Conn, now: Instant, space: SpaceIndex, k: int, j: int)
    requires
        none_due(c.recovery.loss, now),
        oldest_at(flight_in(c.recovery, space).packets, k),
        0 <= j < flight_in(c.recovery, space).packets[k].frames.len(),
    ensures
        c.timed_out(now).waits(space, flight_in(c.recovery, space).packets[k].frames[j]),
        c.timed_out(now).recovery.initial == c.recovery.initial,
        c.timed_out(now).recovery.handshake == c.recovery.handshake,
        c.timed_out(now).recovery.application == c.recovery.application,
{
    let r = c.recovery;
    let frames = r.sent(space).packets[k].frames;
    lemma_none_expired(r, now);
    lemma_some_eliciting(r, space, k);
    lemma_probe_frames(r, space, frames);
    let c0 = Conn { recovery: r.probing(), ..c };
    let fi = r.probe_frames(SpaceIndex::Initial);
    let fh = r.probe_frames(SpaceIndex::Handshake);
    let fa = r.probe_frames(SpaceIndex::Application);
    assert(c0.recovery.probe_frames(SpaceIndex::Initial) == fi);
    assert(c0.recovery.probe_frames(SpaceIndex::Handshake) == fh);
    assert(c0.recovery.probe_frames(SpaceIndex::Application) == fa);
    let c1 = c0.requeued_all(SpaceIndex::Initial, fi);
    let c2 = c1.requeued_all(SpaceIndex::Handshake, fh);
    let c3 = c2.requeued_all(SpaceIndex::Application, fa);
    lemma_requeued_all_frame(c0, SpaceIndex::Initial, fi);
    lemma_requeued_all_frame(c1, SpaceIndex::Handshake, fh);
    lemma_requeued_all_frame(c2, SpaceIndex::Application, fa);
    match space {
        SpaceIndex::Initial => {
            lemma_requeued_all_waits(c0, space, fi, j);
            lemma_requeued_all_keeps(c1, SpaceIndex::Handshake, fh, space, fi[j]);
            lemma_requeued_all_keeps(c2, SpaceIndex::Application, fa, space, fi[j]);
        },
        SpaceIndex::Handshake => {
            lemma_requeued_all_waits(c1, space, fh, j);
            lemma_requeued_all_keeps(c2, SpaceIndex::Application, fa, space, fh[j]);
        },
        SpaceIndex::Application => {
            lemma_requeued_all_waits(c2, space, fa, j);
        },
    }
    assert(c.timed_out(now) == c3.timed());
    assert(c3.waits(space, frames[j]));
    assert(c3.timed().waits(space, frames[j]));
}

/// Frames that are put back go behind what waits, in their order: handshake data of the
/// Handshake space to Handshake packets, that of the others to Initial packets, stream
/// data to its stream.
pub proof fn law_put_back_in_order(
    c: Conn,
    space: SpaceIndex,
    frames: Seq<SentFrameView>,
    id: u64,
)
    ensures
        ({
            let after = c.requeued_all(space, frames);
            &&& space == SpaceIndex::Handshake ==> after.handshake_crypto.resend
                == c.handshake_crypto.resend + crypto_of(frames) && after.initial_crypto
                == c.initial_crypto
            &&& space != SpaceIndex::Handshake ==> after.initial_crypto.resend
                == c.initial_crypto.resend + crypto_of(frames) && after.handshake_crypto
                == c.handshake_crypto
            &&& after.initial_crypto.recv == c.initial_crypto.recv && after.initial_crypto.send_buf
                == c.initial_crypto.send_buf && after.initial_crypto.send_base
                == c.initial_crypto.send_base
            &&& after.handshake_crypto.recv == c.handshake_crypto.recv
                && after.handshake_crypto.send_buf == c.handshake_crypto.send_buf
                && after.handshake_crypto.send_base == c.handshake_crypto.send_base
            &&& after.streams.send.contains_key(id) == c.streams.send.contains_key(id)
            &&& c.streams.send.contains_key(id) ==> after.streams.send[id].resend
                == c.streams.send[id].resend + data_of(frames, id) && after.streams.send[id].written
                == c.streams.send[id].written && after.streams.send[id].reset
                == c.streams.send[id].reset
        }),
    decreases frames.len(),
{
    if frames.len() > 0 {
        law_put_back_in_order(c, space, frames.drop_last(), id);
        let before = c.requeued_all(space, frames.drop_last());
        let after = before.requeued(space, frames.last());
        match frames.last() {
            SentFrameView::Crypto { offset, data } => {
                if space == SpaceIndex::Handshake {
                    assert(after.handshake_crypto.resend =~= c.handshake_crypto.resend + crypto_of(
                        frames,
                    ));
                } else {
                    assert(after.initial_crypto.resend =~= c.initial_crypto.resend + crypto_of(
                        frames,
                    ));
                }
            },
            SentFrameView::Stream { id: i, offset, fin, data } => {
                if i == id && c.streams.send.contains_key(id) {
                    assert(after.streams.send[id].resend =~= c.streams.send[id].resend + data_of(
                        frames,
                        id,
                    ));
                }
            },
            _ => {},
        }
    } else {
        assert(c.handshake_crypto.resend + Seq::<(u64, Seq<u8>)>::empty()
            =~= c.handshake_crypto.resend);
        assert(c.initial_crypto.resend + Seq::<(u64, Seq<u8>)>::empty()
            =~= c.initial_crypto.resend);
        if c.streams.send.contains_key(id) {
            assert(c.streams.send[id].resend + Seq::<(u64, Seq<u8>, bool)>::empty()
                =~= c.streams.send[id].resend);
        }
    }
}

/// When the timer fires, no packet is lost for its age and one that the peer must
/// acknowledge is in flight, the data of the oldest such packet of each space is put back
/// once, and no other data; two more probes are owed, four at most, and one more expiry
/// is counted.
pub proof fn law_probe_resends_oldest_only(
    c: Conn,
    now: Instant,
    space: SpaceIndex,
    k: int,
    fi: Seq<SentFrameView>,
    fh: Seq<SentFrameView>,
    fa: Seq<SentFrameView>,
    id: u64,
)
    requires
        none_due(c.recovery.loss, now),
        oldest_at(flight_in(c.recovery, space).packets, k),
        oldest_frames(c.recovery.initial.packets, fi),
        oldest_frames(c.recovery.handshake.packets, fh),
        oldest_frames(c.recovery.application.packets, fa),
    ensures
        ({
            let after = c.timed_out(now);
            let (r, s) = (c.recovery, after.recovery);
            &&& after.handshake_crypto.resend == c.handshake_crypto.resend + crypto_of(fh)
            &&& after.initial_crypto.resend == c.initial_crypto.resend + crypto_of(fi) + crypto_of(
                fa,
            )
            &&& c.streams.send.contains_key(id) ==> after.streams.send.contains_key(id)
                && after.streams.send[id].resend == c.streams.send[id].resend + data_of(fi, id)
                + data_of(fh, id) + data_of(fa, id)
            &&& r.probes_owed <= 2 ==> s.probes_owed == r.probes_owed + 2
            &&& r.probes_owed > 2 ==> s.probes_owed == 4
            &&& r.loss.pto_count < u32::MAX ==> s.loss.pto_count == r.loss.pto_count + 1
            &&& s.loss.initial == r.loss.initial && s.loss.handshake == r.loss.handshake
                && s.loss.application == r.loss.application
            &&& s.rtt == r.rtt && s.packets_lost == r.packets_lost && s.events == r.events
        }),
{
    let r = c.recovery;
    lemma_none_expired(r, now);
    lemma_some_eliciting(r, space, k);
    lemma_probe_frames(r, SpaceIndex::Initial, fi);
    lemma_probe_frames(r, SpaceIndex::Handshake, fh);
    lemma_probe_frames(r, SpaceIndex::Application, fa);
    let c0 = Conn { recovery: r.probing(), ..c };
    assert(c0.recovery.probe_frames(SpaceIndex::Initial) == fi);
    assert(c0.recovery.probe_frames(SpaceIndex::Handshake) == fh);
    assert(c0.recovery.probe_frames(SpaceIndex::Application) == fa);
    let c1 = c0.requeued_all(SpaceIndex::Initial, fi);
    let c2 = c1.requeued_all(SpaceIndex::Handshake, fh);
    let c3 = c2.requeued_all(SpaceIndex::Application, fa);
    lemma_requeued_all_frame(c0, SpaceIndex::Initial, fi);
    lemma_requeued_all_frame(c1, SpaceIndex::Handshake, fh);
    lemma_requeued_all_frame(c2, SpaceIndex::Application, fa);
    law_put_back_in_order(c0, SpaceIndex::Initial, fi, id);
    law_put_back_in_order(c1, SpaceIndex::Handshake, fh, id);
    law_put_back_in_order(c2, SpaceIndex::Application, fa, id);
    assert(c.timed_out(now) == c3.timed());
}

/// When the timer fires with nothing due and nothing in flight that the peer must
/// acknowledge, only the timer itself is set anew.
pub proof fn law_idle_timeout_harmless(c: Conn, now: Instant)
    requires
        none_due(c.recovery.loss, now),
        forall|m: int|
            0 <= m < c.recovery.initial.packets.len()
                ==> !(#[trigger] c.recovery.initial.packets[m]).ack_eliciting,
        forall|m: int|
            0 <= m < c.recovery.handshake.packets.len()
                ==> !(#[trigger] c.recovery.handshake.packets[m]).ack_eliciting,
        forall|m: int|
            0 <= m < c.recovery.application.packets.len()
                ==> !(#[trigger] c.recovery.application.packets[m]).ack_eliciting,
    ensures
        ({
            let after = c.timed_out(now);
            after == (Conn {
                recovery: RecoveryState { loss_timer: after.recovery.loss_timer, ..c.recovery },
                ..c
            })
        }),
{
    let f = |p: SentPacketView| p.ack_eliciting;
    lemma_none_expired(c.recovery, now);
    lemma_filter_none(c.recovery.initial.packets, f);
    lemma_filter_none(c.recovery.handshake.packets, f);
    lemma_filter_none(c.recovery.application.packets, f);
}

proof fn lemma_earliest(s: Seq<SentPacketView>)
    ensures
        earliest_sent(s) is None <==> s.len() == 0,
        earliest_sent(s) matches Some(t) ==> {
            &&& exists|p: SentPacketView| #[trigger] s.contains(p) && p.time_sent == t
            &&& forall|p: SentPacketView| #[trigger] s.contains(p) ==> t.nanos <= p.time_sent.nanos
        },
    decreases s.len(),
{
    if s.len() > 0 {
        let front = s.drop_last();
        lemma_earliest(front);
        assert(s.contains(s.last()));
        let t = earliest_sent(s)->Some_0;
        if t == s.last().time_sent {
            assert(exists|p: SentPacketView| #[trigger] s.contains(p) && p.time_sent == t);
        } else {
            let p = choose|p: SentPacketView| #[trigger] front.contains(p) && p.time_sent == t;
            let i = choose|i: int| 0 <= i < front.len() && front[i] == p;
            assert(s[i] == p);
            assert(s.contains(p));
        }
        assert forall|p: SentPacketView| #[trigger] s.contains(p) implies t.nanos
            <= p.time_sent.nanos by {
            let i = choose|i: int| 0 <= i < s.len() && s[i] == p;
            if i < front.len() {
                assert(front[i] == p);
                assert(front.contains(p));
            }
        }
    }
}

proof fn lemma_latest(s: Seq<SentPacketView>)
    ensures
        latest_sent(s) is None <==> s.len() == 0,
        latest_sent(s) matches Some(t) ==> {
            &&& exists|p: SentPacketView| #[trigger] s.contains(p) && p.time_sent == t
            &&& forall|p: SentPacketView| #[trigger] s.contains(p) ==> t.nanos >= p.time_sent.nanos
        },
    decreases s.len(),
{
    if s.len() > 0 {
        let front = s.drop_last();
        lemma_latest(front);
        assert(s.contains(s.last()));
        let t = latest_sent(s)->Some_0;
        if t == s.last().time_sent {
            assert(exists|p: SentPacketView| #[trigger] s.contains(p) && p.time_sent == t);
        } else {
            let p = choose|p: SentPacketView| #[trigger] front.contains(p) && p.time_sent == t;
            let i = choose|i: int| 0 <= i < front.len() && front[i] == p;
            assert(s[i] == p);
            assert(s.contains(p));
        }
        assert forall|p: SentPacketView| #[trigger] s.contains(p) implies t.nanos
            >= p.time_sent.nanos by {
            let i = choose|i: int| 0 <= i < s.len() && s[i] == p;
            if i < front.len() {
                assert(front[i] == p);
                assert(front.contains(p));
            }
        }
    }
}

/// Whether a packet that the peer must acknowledge is in flight, in any space.
pub open spec fn outstanding(r: RecoveryState, p: SentPacketView) -> bool {
    p.ack_eliciting && (r.initial.packets.contains(p) || r.handshake.packets.contains(p)
        || r.application.packets.contains(p))
}

proof fn lemma_earliest_outstanding(r: RecoveryState)
    ensures
        r.earliest_eliciting() is None ==> forall|p: SentPacketView| !#[trigger] outstanding(r, p),
        r.earliest_eliciting() matches Some(t) ==> {
            &&& exists|p: SentPacketView| #[trigger] outstanding(r, p) && p.time_sent == t
            &&& forall|p: SentPacketView| #[trigger]
                outstanding(r, p) ==> t.nanos <= p.time_sent.nanos
        },
{
    let f = |p: SentPacketView| p.ack_eliciting;
    let (i, h, a) = (r.initial.eliciting(), r.handshake.eliciting(), r.application.eliciting());
    lemma_earliest(i);
    lemma_earliest(h);
    lemma_earliest(a);
    assert forall|p: SentPacketView| #[trigger] outstanding(r, p) <==> i.contains(p) || h.contains(
        p,
    ) || a.contains(p) by {
        lemma_filter_members(r.initial.packets, f, p);
        lemma_filter_members(r.handshake.packets, f, p);
        lemma_filter_members(r.application.packets, f, p);
    }
    if r.earliest_eliciting() is Some {
        let t = r.earliest_eliciting()->Some_0;
        if r.initial.earliest_eliciting() == Some(t) {
            let p = choose|p: SentPacketView| #[trigger] i.contains(p) && p.time_sent == t;
            assert(outstanding(r, p));
        } else if r.handshake.earliest_eliciting() == Some(t) {
            let p = choose|p: SentPacketView| #[trigger] h.contains(p) && p.time_sent == t;
            assert(outstanding(r, p));
        } else {
            let p = choose|p: SentPacketView| #[trigger] a.contains(p) && p.time_sent == t;
            assert(outstanding(r, p));
        }
    }
}

/// The timer of loss detection (RFC 9002 Section A.8): the earliest time at which a packet
/// becomes lost for its age, over all spaces; if there is none, the probe timeout after
/// the packet was sent that has been outstanding longest; if there is none either, it is
/// off.
pub proof fn law_timer_set(c: Conn)
    ensures
        ({
            let r = c.recovery;
            let timer = c.timed().recovery.loss_timer;
            let l = r.loss;
            let pto = r.rtt.spec_pto_base(r.peer_max_ack_delay);
            &&& c.timed() == (Conn { recovery: RecoveryState { loss_timer: timer, ..r }, ..c })
            &&& l.initial is Some || l.handshake is Some || l.application is Some ==> {
                &&& timer is Some
                &&& timer == l.initial || timer == l.handshake || timer == l.application
                &&& l.initial matches Some(t) ==> timer->Some_0.nanos <= t.nanos
                &&& l.handshake matches Some(t) ==> timer->Some_0.nanos <= t.nanos
                &&& l.application matches Some(t) ==> timer->Some_0.nanos <= t.nanos
            }
            &&& l.initial is None && l.handshake is None && l.application is None ==> {
                &&& timer is None ==> forall|p: SentPacketView| !#[trigger] outstanding(r, p)
                &&& timer is Some ==> exists|p: SentPacketView| #[trigger]
                    outstanding(r, p) && timer == Some(l.spec_pto_deadline(p.time_sent, pto)) && (
                    forall|q: SentPacketView| #[trigger]
                        outstanding(r, q) ==> p.time_sent.nanos <= q.time_sent.nanos)
            }
        }),
{
    lemma_earliest_outstanding(c.recovery);
    if c.recovery.earliest_eliciting() is Some {
        let r = c.recovery;
        let t = r.earliest_eliciting()->Some_0;
        let p = choose|p: SentPacketView| #[trigger] outstanding(r, p) && p.time_sent == t;
        assert(outstanding(r, p));
        assert(forall|q: SentPacketView| #[trigger]
            outstanding(r, q) ==> p.time_sent.nanos <= q.time_sent.nanos);
    }
}

/// What is in flight in a space.
pub open spec fn flight_in(r: RecoveryState, space: SpaceIndex) -> InFlight {
    if space == SpaceIndex::Initial {
        r.initial
    } else if space == SpaceIndex::Handshake {
        r.handshake
    } else {
        r.application
    }
}

/// When a packet of a space becomes lost for its age.
pub open spec fn timer_of(l: LossDetector, space: SpaceIndex) -> Option<Instant> {
    if space == SpaceIndex::Initial {
        l.initial
    } else if space == SpaceIndex::Handshake {
        l.handshake
    } else {
        l.application
    }
}

/// Whether a packet in flight is lost at `now`: it was sent before the largest
/// acknowledged, and either three later ones up to that were sent, or it has been in
/// flight for `wait`.
pub open spec fn is_late(f: InFlight, p: SentPacketView, now: Instant, wait: Duration) -> bool {
    f.largest_acked matches Some(l) && p.packet_number <= l && (l - p.packet_number >= 3
        || now.nanos - p.time_sent.nanos >= wait.nanos)
}

/// Whether a packet in flight is not late yet but will be if nothing is heard.
pub open spec fn will_be_late(f: InFlight, p: SentPacketView, now: Instant, wait: Duration) -> bool {
    &&& f.packets.contains(p)
    &&& !is_late(f, p, now, wait)
    &&& f.largest_acked matches Some(l) && p.packet_number <= l
}

/// What looking for losses in a space does: exactly the late packets leave flight, they
/// are counted, and the timer of the space is set to the earliest time at which one more
/// that was sent before the largest acknowledged becomes late.
pub proof fn law_loss_detection(c: Conn, space: SpaceIndex, now: Instant, p: SentPacketView)
    requires
        c.wf(),
    ensures
        ({
            let after = c.with_losses(space, now);
            let (r, s) = (c.recovery, after.recovery);
            let (was, is) = (flight_in(r, space), flight_in(s, space));
            let timer = timer_of(s.loss, space);
            let wait = r.rtt.spec_loss_delay();
            &&& is.packets.contains(p) <==> was.packets.contains(p) && !is_late(was, p, now, wait)
            &&& is.largest_acked == was.largest_acked
            &&& s.packets_lost - r.packets_lost == was.packets.len() - is.packets.len()
            &&& will_be_late(was, p, now, wait) ==> timer is Some && timer->Some_0.nanos <= p.time_sent.nanos + wait.nanos
            &&& timer is Some ==> exists|q: SentPacketView| #[trigger]
                will_be_late(was, q, now, wait) && timer->Some_0.nanos == q.time_sent.nanos + wait.nanos
            &&& space != SpaceIndex::Initial ==> s.initial == r.initial && s.loss.initial
                == r.loss.initial
            &&& space != SpaceIndex::Handshake ==> s.handshake == r.handshake && s.loss.handshake
                == r.loss.handshake
            &&& space != SpaceIndex::Application ==> s.application == r.application
                && s.loss.application == r.loss.application
            &&& s.rtt == r.rtt && s.probes_owed == r.probes_owed && s.loss.pto_count
                == r.loss.pto_count
        }),
{
    let r = c.recovery;
    let was = flight_in(r, space);
    assert(was == r.sent(space));
    let wait = r.rtt.spec_loss_delay();
    crate::recovery::law_loss_delay(r.rtt);
    let without = Conn { recovery: r.after_loss(space, now), ..c };
    law_requeue_frame_condition(without, space, r.lost(space, now));
    lemma_filter_members(was.packets, |q: SentPacketView| !was.is_lost(q, now, wait), p);
    lemma_filter_split(
        was.packets,
        |q: SentPacketView| was.is_lost(q, now, wait),
        |q: SentPacketView| !was.is_lost(q, now, wait),
    );
    let risk = |q: SentPacketView| was.may_be_lost(q, now, wait);
    let at_risk = was.packets.filter(risk);
    assert(was.at_risk(now, wait) == at_risk);
    lemma_earliest(at_risk);
    lemma_filter_members(was.packets, risk, p);
    assert forall|q: SentPacketView| #[trigger] at_risk.contains(q) implies will_be_late(was, q, now, wait)
        && q.time_sent.in_range() by {
        lemma_filter_members(was.packets, risk, q);
        let i = choose|i: int| 0 <= i < was.packets.len() && was.packets[i] == q;
        assert(was.packets[i].time_sent.in_range());
    }
    if earliest_sent(at_risk) is Some {
        let t = earliest_sent(at_risk)->Some_0;
        let q = choose|q: SentPacketView| #[trigger] at_risk.contains(q) && q.time_sent == t;
        assert(will_be_late(was, q, now, wait));
        assert(t.nanos + wait.nanos <= u128::MAX);
        let timer = timer_of(c.with_losses(space, now).recovery.loss, space);
        assert(timer == Some(t.after(wait)));
        assert(exists|q: SentPacketView| #[trigger]
            will_be_late(was, q, now, wait) && timer->Some_0.nanos == q.time_sent.nanos
                + wait.nanos);
    }
}

/// When the timer of a space has run out, the timer event looks for losses in the space
/// whose timer is earliest, the earlier space of two that are equal, and owes no probe.
pub proof fn law_timeout_finds_losses(c: Conn, now: Instant, space: SpaceIndex)
    requires
        ({
            let l = c.recovery.loss;
            let own = timer_of(l, space);
            &&& own matches Some(t) && t.nanos <= now.nanos
            &&& l.initial matches Some(t) ==> own->Some_0.nanos <= t.nanos
            &&& l.handshake matches Some(t) ==> own->Some_0.nanos <= t.nanos && (space
                == SpaceIndex::Application ==> own->Some_0.nanos < t.nanos)
            &&& l.application matches Some(t) ==> own->Some_0.nanos <= t.nanos
            &&& space != SpaceIndex::Initial ==> (l.initial matches Some(t) ==> own->Some_0.nanos
                < t.nanos)
        }),
    ensures
        c.timed_out(now) == c.with_losses(space, now).timed(),
        c.timed_out(now).recovery.probes_owed == c.recovery.probes_owed,
        c.timed_out(now).recovery.loss.pto_count == c.recovery.loss.pto_count,
{
    let r = c.recovery;
    let without = Conn { recovery: r.after_loss(space, now), ..c };
    law_requeue_frame_condition(without, space, r.lost(space, now));
}

/// Whether the newest of these packets was sent at `t`.
pub open spec fn newest_of(packets: Seq<SentPacketView>, t: Instant) -> bool {
    &&& exists|p: SentPacketView| #[trigger] packets.contains(p) && p.time_sent == t
    &&& forall|p: SentPacketView| #[trigger]
        packets.contains(p) ==> p.time_sent.nanos <= t.nanos
}

/// Whether one of these packets was sent more than `span` before `t`.
pub open spec fn sent_before(packets: Seq<SentPacketView>, t: Instant, span: int) -> bool {
    exists|p: SentPacketView| #[trigger]
        packets.contains(p) && t.nanos - p.time_sent.nanos > span
}

/// What is told of packets that are lost: first the size of each path MTU probe among
/// them; then, if any counted towards the congestion window, the bytes of those, and when
/// the newest of them was sent; then that congestion is persistent, exactly if that is
/// more than three probe timeouts after another of them was sent.
pub proof fn law_losses_told(c: Conn, space: SpaceIndex, now: Instant)
    requires
        c.wf(),
    ensures
        ({
            let r = c.recovery;
            let s = c.with_losses(space, now).recovery;
            let lost = r.lost(space, now);
            let flying = in_flight(lost);
            let sizes = packet_probe_sizes(lost);
            let told = s.events.skip(r.events.len() as int);
            let n = sizes.len() as int;
            let pto = r.rtt.spec_pto_base(r.peer_max_ack_delay);
            &&& forall|p: SentPacketView| #[trigger]
                lost.contains(p) <==> flight_in(r, space).packets.contains(p) && is_late(
                    flight_in(r, space),
                    p,
                    now,
                    r.rtt.spec_loss_delay(),
                )
            &&& forall|p: SentPacketView| #[trigger]
                flying.contains(p) <==> lost.contains(p) && p.in_flight
            &&& s.events.len() >= r.events.len()
            &&& s.events.take(r.events.len() as int) == r.events
            &&& told.len() >= n
            &&& forall|i: int|
                0 <= i < n ==> #[trigger] told[i] == (EventView::MtuProbeLost { size: sizes[i] })
            &&& flying.len() == 0 ==> told.len() == n
            &&& flying.len() > 0 ==> told.len() > n && (told[n] matches EventView::Lost {
                bytes,
                newest,
                now: at,
            } && at == now && bytes == total_bytes(flying) && newest_of(flying, newest) && (
            if sent_before(flying, newest, 3 * pto.nanos) {
                told.len() == n + 2 && told[n + 1] == EventView::PersistentCongestion
            } else {
                told.len() == n + 1
            }))
        }),
{
    let r = c.recovery;
    let was = flight_in(r, space);
    assert(was == r.sent(space));
    let wait = r.rtt.spec_loss_delay();
    let without = Conn { recovery: r.after_loss(space, now), ..c };
    let lost = r.lost(space, now);
    law_requeue_frame_condition(without, space, lost);
    let gone = |q: SentPacketView| was.is_lost(q, now, wait);
    assert(lost == was.packets.filter(gone));
    let flying = in_flight(lost);
    assert forall|p: SentPacketView| #[trigger] lost.contains(p) <==> was.packets.contains(p)
        && is_late(was, p, now, wait) by {
        lemma_filter_members(was.packets, gone, p);
    }
    assert forall|p: SentPacketView| #[trigger] flying.contains(p) <==> lost.contains(p)
        && p.in_flight by {
        lemma_filter_members(lost, |q: SentPacketView| q.in_flight, p);
    }
    lemma_latest(flying);
    lemma_earliest(flying);
    crate::sent_packet::lemma_total_bytes_filter(was.packets, gone);
    crate::sent_packet::lemma_total_bytes_filter(lost, |q: SentPacketView| q.in_flight);
    let told = r.loss_events(lost, now);
    let s = c.with_losses(space, now).recovery;
    assert(s.events == r.events + told);
    assert(s.events.take(r.events.len() as int) =~= r.events);
    assert(s.events.skip(r.events.len() as int) =~= told);
    if flying.len() > 0 {
        let newest = latest_sent(flying)->Some_0;
        let oldest = earliest_sent(flying)->Some_0;
        let pto = r.rtt.spec_pto_base(r.peer_max_ack_delay);
        let last = choose|p: SentPacketView| #[trigger]
            flying.contains(p) && p.time_sent == newest;
        let first = choose|p: SentPacketView| #[trigger]
            flying.contains(p) && p.time_sent == oldest;
        assert(oldest.nanos <= newest.nanos);
        if sent_before(flying, newest, 3 * pto.nanos) {
            let p = choose|p: SentPacketView| #[trigger]
                flying.contains(p) && newest.nanos - p.time_sent.nanos > 3 * pto.nanos;
            assert(newest.nanos - oldest.nanos > 3 * pto.nanos);
        } else {
            assert(flying.contains(first));
            assert(newest.nanos - first.time_sent.nanos <= 3 * pto.nanos);
        }
    }
}

/// Bytes are counted packet by packet, and MTU probes frame by frame: no other frame
/// counts as one.
pub proof fn law_packets_summed(
    packets: Seq<SentPacketView>,
    p: SentPacketView,
    frames: Seq<SentFrameView>,
    frame: SentFrameView,
)
    ensures
        total_bytes(Seq::empty()) == 0,
        total_bytes(packets.push(p)) == total_bytes(packets) + p.sent_bytes,
        probe_sizes(Seq::empty()) == Seq::<u16>::empty(),
        probe_sizes(frames.push(frame)) == if frame is MtuProbe {
            probe_sizes(frames).push(frame->MtuProbe_0)
        } else {
            probe_sizes(frames)
        },
        packet_probe_sizes(Seq::empty()) == Seq::<u16>::empty(),
        packet_probe_sizes(packets.push(p)) == packet_probe_sizes(packets) + probe_sizes(p.frames),
{
    assert(packets.push(p).drop_last() =~= packets);
    assert(frames.push(frame).drop_last() =~= frames);
}

/// Where each lost frame goes that carries no stream or handshake data: identifiers, their
/// retirement and limits go back to be sent, a limit only as the highest that waits, a
/// token only if none waits; PINGs and MTU probes are not repeated. Nothing else changes.
pub proof fn law_lost_control_frames(
    c: Conn,
    space: SpaceIndex,
    seq: u64,
    before: u64,
    bytes: Seq<u8>,
    token: Seq<u8>,
    n: u64,
    size: u16,
)
    ensures
        c.requeued(space, SentFrameView::Ping) == c,
        c.requeued(space, SentFrameView::MtuProbe(size)) == c,
        ({
            let frame = SentFrameView::NewConnectionId {
                seq,
                retire_prior_to: before,
                cid: bytes,
                token,
            };
            let after = c.requeued(space, frame);
            let ids = after.local_cids;
            &&& ids.pending_new == c.local_cids.pending_new.push(CidView { seq, cid: bytes, token })
            &&& ids.active == c.local_cids.active && ids.next_seq == c.local_cids.next_seq
                && ids.limit == c.local_cids.limit
            &&& after == (Conn { local_cids: ids, ..c })
        }),
        ({
            let after = c.requeued(space, SentFrameView::RetireConnectionId { seq });
            let ids = after.peer_cids;
            &&& ids.pending_retire == c.peer_cids.pending_retire.push(seq)
            &&& ids.active == c.peer_cids.active && ids.retire_prior_to
                == c.peer_cids.retire_prior_to && ids.limit == c.peer_cids.limit
            &&& after == (Conn { peer_cids: ids, ..c })
        }),
        ({
            let frame = SentFrameView::MaxStreams { dir: Direction::Bidirectional, max: n };
            let after = c.requeued(space, frame);
            let (l, m) = (c.streams.bidi, after.streams.bidi);
            &&& m.pending_max matches Some(x) && x >= n && (x == n || l.pending_max == Some(x)) && (
            l.pending_max matches Some(y) ==> x >= y)
            &&& m == (StreamLimits { pending_max: m.pending_max, ..l })
            &&& after == (Conn { streams: StreamsState { bidi: m, ..c.streams }, ..c })
        }),
        ({
            let frame = SentFrameView::MaxStreams { dir: Direction::Unidirectional, max: n };
            let after = c.requeued(space, frame);
            let (l, m) = (c.streams.uni, after.streams.uni);
            &&& m.pending_max matches Some(x) && x >= n && (x == n || l.pending_max == Some(x)) && (
            l.pending_max matches Some(y) ==> x >= y)
            &&& m == (StreamLimits { pending_max: m.pending_max, ..l })
            &&& after == (Conn { streams: StreamsState { uni: m, ..c.streams }, ..c })
        }),
        ({
            let frame = SentFrameView::StreamsBlocked { dir: Direction::Bidirectional, limit: n };
            let after = c.requeued(space, frame);
            let (l, m) = (c.streams.bidi, after.streams.bidi);
            &&& m.pending_blocked == Some(n)
            &&& m == (StreamLimits { pending_blocked: m.pending_blocked, ..l })
            &&& after == (Conn { streams: StreamsState { bidi: m, ..c.streams }, ..c })
        }),
        ({
            let frame = SentFrameView::StreamsBlocked { dir: Direction::Unidirectional, limit: n };
            let after = c.requeued(space, frame);
            let (l, m) = (c.streams.uni, after.streams.uni);
            &&& m.pending_blocked == Some(n)
            &&& m == (StreamLimits { pending_blocked: m.pending_blocked, ..l })
            &&& after == (Conn { streams: StreamsState { uni: m, ..c.streams }, ..c })
        }),
        ({
            let after = c.requeued(space, SentFrameView::NewToken { token });
            &&& c.pending_new_token is Some ==> after == c
            &&& c.pending_new_token is None ==> after.pending_new_token == Some(token) && after == (
            Conn { pending_new_token: after.pending_new_token, ..c })
        }),
{
}

} // verus!
