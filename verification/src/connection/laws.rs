//! What holds of a connection over several steps.
use super::arrival::{unprotected, Arrival, DatagramRun};
use super::keys::KeyState;
use super::loss::RecoveryState;
use super::challenge_begun;
use super::model::{Conn, FrameAnswers, FrameRun, TlsAnswer};
use super::recovery::{law_lost_frames_wait, law_requeue_frame_condition};
use crate::cid::LOCAL_CID_LEN;
use crate::crypto_stream::CryptoState;
use crate::error::ErrorView;
use crate::frame::{AckRange, FrameView};
use crate::packet::{lemma_protected_bounds, peeked, retry_at, retry_tag_valid};
use crate::reassembly::{agrees, law_delivers_the_stream, law_delivery_contiguous};
use crate::recovery::SpaceIndex;
use crate::sent_packet::{InFlight, SentFrameView, SentPacketView};
use crate::session::{hs_written, initial_keys_of, opened, HsRead, ReadKeys};
use crate::space::SpaceState;
use crate::time::Instant;
use crate::types::{ConnectionState, PacketType, Role};
use vstd::prelude::*;

verus! {

impl Conn {
    /// Whether another state has the same keys, side, identifiers of the handshake,
    /// and counters of what came in.
    pub open spec fn same_core(self, other: Conn) -> bool {
        &&& self.keys == other.keys
        &&& self.role == other.role
        &&& self.local_cid == other.local_cid
        &&& self.initial_dcid == other.initial_dcid
        &&& self.peer_cid == other.peer_cid
        &&& self.retry_done == other.retry_done
        &&& self.retry_token == other.retry_token
        &&& self.retry_count == other.retry_count
        &&& self.packets_recv == other.packets_recv
        &&& self.bytes_recv == other.bytes_recv
        &&& self.idle_timeout_ms == other.idle_timeout_ms
        &&& self.idle_deadline == other.idle_deadline
        &&& self.handshake_complete == other.handshake_complete
    }
}

/// Putting lost frames back keeps the core.
pub(super) proof fn lemma_requeued_all_core(c: Conn, space: SpaceIndex, frames: Seq<SentFrameView>)
    ensures
        c.requeued_all(space, frames).same_core(c),
    decreases frames.len(),
{
    if frames.len() > 0 {
        lemma_requeued_all_core(c, space, frames.drop_last());
    }
}

/// Putting the frames of lost packets back keeps the core.
pub(super) proof fn lemma_requeued_packets_core(
    c: Conn,
    space: SpaceIndex,
    packets: Seq<SentPacketView>,
)
    ensures
        c.requeued_packets(space, packets).same_core(c),
    decreases packets.len(),
{
    if packets.len() > 0 {
        let before = c.requeued_packets(space, packets.drop_last());
        lemma_requeued_packets_core(c, space, packets.drop_last());
        lemma_requeued_all_core(before, space, packets.last().frames);
    }
}

/// An acknowledgement keeps the core.
proof fn lemma_ack_core(
    c: Conn,
    now: Instant,
    packet_type: PacketType,
    largest: u64,
    delay: u64,
    first_range: u64,
    ranges: Seq<AckRange>,
)
    ensures
        c.with_ack(now, packet_type, largest, delay, first_range, ranges).same_core(c),
{
    reveal(Conn::with_ack);
    let space = crate::recovery::spec_space_index(packet_type);
    let noted = c.space_acked(packet_type, largest);
    let acked = Conn {
        recovery: c.recovery.acked(
            now,
            space,
            c.handshake_done,
            largest,
            delay,
            first_range,
            ranges,
        ),
        ..noted
    };
    let without = Conn { recovery: acked.recovery.after_loss(space, now), ..acked };
    lemma_requeued_packets_core(without, space, acked.recovery.lost(space, now));
}

/// A frame keeps the core.
proof fn lemma_frame_core(
    c: Conn,
    now: Instant,
    packet_type: PacketType,
    frame: FrameView,
    a: FrameAnswers,
)
    ensures
        c.with_frame(now, packet_type, frame, a).0.same_core(c),
{
    reveal(Conn::with_frame);
    reveal(Conn::with_crypto);
    reveal(Conn::with_new_cid);
    reveal(Conn::with_retired_cid);
    match frame {
        FrameView::Ack { largest, delay, first_range, ranges } => {
            lemma_ack_core(c, now, packet_type, largest, delay, first_range, ranges);
        },
        _ => {},
    }
}

/// No payload changes the keys, the identifiers of the handshake, or the counters of
/// what came in: only TLS and a key update change keys.
pub proof fn law_frames_keep_core(
    c: Conn,
    now: Instant,
    packet_type: PacketType,
    payload: Seq<u8>,
    answers: Seq<FrameAnswers>,
)
    ensures
        FrameRun::run(c, now, packet_type, payload, answers).conn.same_core(c),
    decreases answers.len(),
{
    if answers.len() > 0 {
        let before = FrameRun::run(c, now, packet_type, payload, answers.drop_last());
        law_frames_keep_core(c, now, packet_type, payload, answers.drop_last());
        match crate::frame::frame_at(before.rest) {
            Ok((frame, rest)) => {
                lemma_frame_core(before.conn, now, packet_type, frame, answers.last());
            },
            Err(_) => {},
        }
    }
}

/// Whether a packet leaves the keys as they are, and takes `consumed` bytes if any.
spec fn keeps_keys(c: Conn, want: Arrival, consumed: int) -> bool {
    want matches Some((after, r)) ==> after.keys == c.keys && (r matches Ok(n) ==> n == Some(
        consumed,
    ))
}

/// Frames and the count of a packet keep the keys.
proof fn lemma_payload_keeps_keys(
    c: Conn,
    now: Instant,
    packet_type: PacketType,
    pn: u64,
    payload: Seq<u8>,
    frames: Seq<FrameAnswers>,
    consumed: int,
)
    ensures
        keeps_keys(
            c,
            c.payload_processed(now, packet_type, pn, payload, frames, consumed),
            consumed,
        ),
{
    reveal(Conn::payload_processed);
    law_frames_keep_core(c, now, packet_type, payload, frames);
}

/// A packet with a long header keeps the keys of 1-RTT packets, and takes at least
/// one byte, and no more than there are.
proof fn lemma_long_received(c: Conn, now: Instant, s: Seq<u8>, frames: Seq<FrameAnswers>)
    ensures
        c.long_received(now, s, frames) matches Some((after, r)) ==> {
            &&& after.keys == (KeyState { initial: after.keys.initial, ..c.keys })
            &&& r matches Ok(Some(n)) ==> 0 < n <= s.len()
        },
{
    reveal(Conn::long_received);
    reveal(Conn::zero_rtt_received);
    reveal(Conn::level_received);
    reveal(Conn::level_opened);
    reveal(Conn::retry_received);
    lemma_protected_bounds(s);
    match retry_at(s) {
        Some((scid, dcid, token)) => {
            let c1 = Conn { peer_cid: scid, retry_done: true, ..c };
            let c2 = Conn {
                initial_dcid: scid,
                retry_token: token,
                retry_count: (c.retry_count + 1) as u64,
                keys: KeyState {
                    initial: Some(initial_keys_of(c.suite, scid, c.role)),
                    ..c.keys
                },
                initial: SpaceState::fresh(),
                recovery: RecoveryState { initial: InFlight::fresh(), ..c.recovery },
                ..c1
            };
            lemma_requeued_packets_core(c2, SpaceIndex::Initial, c.recovery.initial.packets);
        },
        None => {},
    }
    assert forall|c: Conn, packet_type: PacketType, pn: u64, payload: Seq<u8>, consumed: int|
        keeps_keys(
            c,
            #[trigger] c.payload_processed(now, packet_type, pn, payload, frames, consumed),
            consumed,
        ) by {
        lemma_payload_keeps_keys(c, now, packet_type, pn, payload, frames, consumed);
    }
}

/// A packet with a short header takes all the bytes there are, and updates the keys
/// at most once.
proof fn lemma_short_received(c: Conn, now: Instant, s: Seq<u8>, frames: Seq<FrameAnswers>)
    ensures
        c.short_received(now, s, frames) matches Some((after, r)) ==> {
            &&& after.keys == c.keys || after.keys == c.keys.updated_by_peer(
                now,
                c.pto_base(),
            )
            &&& r matches Ok(Some(n)) ==> n == s.len()
        },
{
    reveal(Conn::short_received);
    reveal(Conn::same_phase_received);
    reveal(Conn::next_phase_received);
    assert forall|c: Conn, packet_type: PacketType, pn: u64, payload: Seq<u8>, consumed: int|
        keeps_keys(
            c,
            #[trigger] c.payload_processed(now, packet_type, pn, payload, frames, consumed),
            consumed,
        ) by {
        lemma_payload_keeps_keys(c, now, packet_type, pn, payload, frames, consumed);
    }
}

/// Every packet of a datagram takes at least one byte and no more than there are
/// left; a packet with a short header takes them all. Only such a packet updates the
/// keys of 1-RTT packets, once at most.
pub proof fn law_packet_progress(c: Conn, now: Instant, s: Seq<u8>, frames: Seq<FrameAnswers>)
    requires
        s.len() > 0,
    ensures
        c.packet_received(now, s, frames) matches Some((after, r)) ==> {
            &&& r matches Ok(Some(n)) ==> 0 < n <= s.len() && (s[0] < 0x80 ==> n == s.len())
            &&& if s[0] >= 0x80 {
                after.keys == (KeyState { initial: after.keys.initial, ..c.keys })
            } else {
                after.keys == c.keys || after.keys == c.keys.updated_by_peer(
                    now,
                    c.pto_base(),
                )
            }
        },
{
    reveal(Conn::packet_received);
    lemma_long_received(c, now, s, frames);
    lemma_short_received(c, now, s, frames);
}

/// Flights of TLS do not count as key updates.
pub(super) proof fn lemma_flights_count(c: Conn, rounds: nat)
    ensures
        c.with_flights(rounds).keys.update_count == c.keys.update_count,
    decreases rounds,
{
    if rounds > 0 {
        reveal(Conn::flight_taken);
        if !(hs_written(c.tls).1 is Same) {
            lemma_flights_count(c.with_flight(), (rounds - 1) as nat);
        }
    }
}

impl Conn {
    /// Whether another state has the same side, identifier, counters of what came in,
    /// and idle timer.
    pub open spec fn same_counts(self, other: Conn) -> bool {
        &&& self.role == other.role
        &&& self.local_cid == other.local_cid
        &&& self.packets_recv == other.packets_recv
        &&& self.bytes_recv == other.bytes_recv
        &&& self.idle_timeout_ms == other.idle_timeout_ms
        &&& self.idle_deadline == other.idle_deadline
    }
}

/// Whether a packet leaves the counters as they are.
spec fn keeps_counts(c: Conn, want: Arrival) -> bool {
    want matches Some((after, r)) ==> after.same_counts(c)
}

/// A packet does not count again, nor does it touch the idle timer: its datagram did.
proof fn lemma_packet_keeps_counts(c: Conn, now: Instant, s: Seq<u8>, frames: Seq<FrameAnswers>)
    ensures
        keeps_counts(c, c.packet_received(now, s, frames)),
{
    assert forall|c: Conn, packet_type: PacketType, pn: u64, payload: Seq<u8>, consumed: int|
        keeps_counts(
            c,
            #[trigger] c.payload_processed(now, packet_type, pn, payload, frames, consumed),
        ) by {
        reveal(Conn::payload_processed);
        law_frames_keep_core(c, now, packet_type, payload, frames);
    }
    assert forall|c: Conn, packets: Seq<SentPacketView>|
        #![trigger c.requeued_packets(SpaceIndex::Initial, packets)]
        c.requeued_packets(SpaceIndex::Initial, packets).same_counts(c) by {
        lemma_requeued_packets_core(c, SpaceIndex::Initial, packets);
    }
    reveal(Conn::packet_received);
    reveal(Conn::long_received);
    reveal(Conn::level_received);
    reveal(Conn::level_opened);
    reveal(Conn::zero_rtt_received);
    reveal(Conn::retry_received);
    reveal(Conn::short_received);
    reveal(Conn::same_phase_received);
    reveal(Conn::next_phase_received);
}

/// Driving TLS on keeps the counters.
proof fn lemma_flights_keep_counts(c: Conn, rounds: nat)
    ensures
        c.with_flights(rounds).same_counts(c),
    decreases rounds,
{
    if rounds > 0 {
        reveal(Conn::flight_taken);
        if !(hs_written(c.tls).1 is Same) {
            lemma_flights_keep_counts(c.with_flight(), (rounds - 1) as nat);
        }
    }
}

/// Every datagram counts, whatever is in it, and starts the idle timer over: it adds
/// one packet and all its bytes to what came in.
pub proof fn law_datagram_counted(
    c: Conn,
    now: Instant,
    datagram: Seq<u8>,
    answers: Seq<Seq<FrameAnswers>>,
)
    ensures
        DatagramRun::run(c, now, datagram, answers) matches Some(run) ==> run.conn.same_counts(
            Conn {
                packets_recv: (c.packets_recv + 1) as u64,
                bytes_recv: (c.bytes_recv + datagram.len()) as u64,
                ..c.idle_armed(now)
            },
        ),
    decreases answers.len(),
{
    if answers.len() > 0 {
        law_datagram_counted(c, now, datagram, answers.drop_last());
        match DatagramRun::run(c, now, datagram, answers.drop_last()) {
            Some(before) => {
                lemma_packet_keeps_counts(before.conn, now, before.rest, answers.last());
                match before.conn.packet_received(now, before.rest, answers.last()) {
                    Some((after, r)) => lemma_flights_keep_counts(after, 3),
                    None => {},
                }
            },
            None => {},
        }
    }
}

/// No datagram leads to more than one key update, and to none as long as there is a
/// packet left in it to be looked at.
pub proof fn law_one_key_update_per_datagram(
    c: Conn,
    now: Instant,
    datagram: Seq<u8>,
    answers: Seq<Seq<FrameAnswers>>,
)
    requires
        c.keys.update_count < u64::MAX,
    ensures
        DatagramRun::run(c, now, datagram, answers) matches Some(run) ==> {
            &&& run.conn.keys.update_count == c.keys.update_count
                || run.conn.keys.update_count == c.keys.update_count + 1
            &&& !run.over() ==> run.conn.keys.update_count == c.keys.update_count
        },
    decreases answers.len(),
{
    if answers.len() > 0 {
        law_one_key_update_per_datagram(c, now, datagram, answers.drop_last());
        match DatagramRun::run(c, now, datagram, answers.drop_last()) {
            Some(before) => if !before.over() {
                law_packet_progress(before.conn, now, before.rest, answers.last());
                match before.conn.packet_received(now, before.rest, answers.last()) {
                    Some((after, r)) => lemma_flights_count(after, 3),
                    None => {},
                }
            },
            None => {},
        }
    }
}

impl ConnectionState {
    /// How far into its life a connection is.
    pub open spec fn stage(self) -> int {
        match self {
            ConnectionState::Handshaking => 0,
            ConnectionState::Established => 1,
            ConnectionState::Closed => 2,
        }
    }
}

impl Conn {
    /// Whether this is at the same stage of a connection's life as another state, or
    /// later.
    pub open spec fn no_earlier(self, other: Conn) -> bool {
        &&& self.state.stage() >= other.state.stage()
        &&& other.handshake_complete ==> self.handshake_complete
        &&& other.handshake_done ==> self.handshake_done
    }
}

/// Whether a packet does not lead back to an earlier stage.
spec fn leads_on(c: Conn, want: Arrival) -> bool {
    want matches Some((after, r)) ==> after.no_earlier(c)
}

/// No acknowledgement leads back to an earlier stage.
proof fn lemma_ack_leads_on(
    c: Conn,
    now: Instant,
    packet_type: PacketType,
    largest: u64,
    delay: u64,
    first_range: u64,
    ranges: Seq<AckRange>,
)
    ensures
        c.with_ack(now, packet_type, largest, delay, first_range, ranges).no_earlier(c),
{
    reveal(Conn::with_ack);
    let space = crate::recovery::spec_space_index(packet_type);
    let acked = Conn {
        recovery: c.recovery.acked(
            now,
            space,
            c.handshake_done,
            largest,
            delay,
            first_range,
            ranges,
        ),
        ..c.space_acked(packet_type, largest)
    };
    let without = Conn { recovery: acked.recovery.after_loss(space, now), ..acked };
    law_requeue_frame_condition(without, space, acked.recovery.lost(space, now));
}

/// No frame leads back to an earlier stage.
proof fn lemma_frame_leads_on(
    c: Conn,
    now: Instant,
    packet_type: PacketType,
    frame: FrameView,
    a: FrameAnswers,
)
    ensures
        c.with_frame(now, packet_type, frame, a).0.no_earlier(c),
{
    reveal(Conn::with_frame);
    reveal(Conn::with_crypto);
    reveal(Conn::with_new_cid);
    reveal(Conn::with_retired_cid);
    match frame {
        FrameView::Ack { largest, delay, first_range, ranges } => {
            lemma_ack_leads_on(c, now, packet_type, largest, delay, first_range, ranges);
        },
        _ => {},
    }
}

/// No payload leads back to an earlier stage.
proof fn lemma_frames_lead_on(
    c: Conn,
    now: Instant,
    packet_type: PacketType,
    payload: Seq<u8>,
    answers: Seq<FrameAnswers>,
)
    ensures
        FrameRun::run(c, now, packet_type, payload, answers).conn.no_earlier(c),
    decreases answers.len(),
{
    if answers.len() > 0 {
        let before = FrameRun::run(c, now, packet_type, payload, answers.drop_last());
        lemma_frames_lead_on(c, now, packet_type, payload, answers.drop_last());
        match crate::frame::frame_at(before.rest) {
            Ok((frame, rest)) => {
                lemma_frame_leads_on(before.conn, now, packet_type, frame, answers.last());
            },
            Err(_) => {},
        }
    }
}

/// No packet leads back to an earlier stage.
proof fn lemma_packet_leads_on(c: Conn, now: Instant, s: Seq<u8>, frames: Seq<FrameAnswers>)
    ensures
        leads_on(c, c.packet_received(now, s, frames)),
{
    assert forall|c: Conn, packet_type: PacketType, pn: u64, payload: Seq<u8>, consumed: int|
        leads_on(
            c,
            #[trigger] c.payload_processed(now, packet_type, pn, payload, frames, consumed),
        ) by {
        reveal(Conn::payload_processed);
        lemma_frames_lead_on(c, now, packet_type, payload, frames);
    }
    assert forall|c: Conn, packets: Seq<SentPacketView>|
        #![trigger c.requeued_packets(SpaceIndex::Initial, packets)]
        c.requeued_packets(SpaceIndex::Initial, packets).no_earlier(c) by {
        law_requeue_frame_condition(c, SpaceIndex::Initial, packets);
    }
    reveal(Conn::packet_received);
    reveal(Conn::long_received);
    reveal(Conn::level_received);
    reveal(Conn::level_opened);
    reveal(Conn::zero_rtt_received);
    reveal(Conn::retry_received);
    reveal(Conn::short_received);
    reveal(Conn::same_phase_received);
    reveal(Conn::next_phase_received);
}

/// Flights of TLS do not change the stage.
proof fn lemma_flights_keep_stage(c: Conn, rounds: nat)
    ensures
        c.with_flights(rounds).no_earlier(c),
    decreases rounds,
{
    if rounds > 0 {
        reveal(Conn::flight_taken);
        if !(hs_written(c.tls).1 is Same) {
            lemma_flights_keep_stage(c.with_flight(), (rounds - 1) as nat);
        }
    }
}

/// A connection's life has one direction: whatever comes in, one that is established
/// does not shake hands again, and one that is closed stays so.
pub proof fn law_state_never_goes_back(
    c: Conn,
    now: Instant,
    datagram: Seq<u8>,
    answers: Seq<Seq<FrameAnswers>>,
)
    ensures
        DatagramRun::run(c, now, datagram, answers) matches Some(run) ==> run.conn.no_earlier(c),
    decreases answers.len(),
{
    if answers.len() > 0 {
        law_state_never_goes_back(c, now, datagram, answers.drop_last());
        match DatagramRun::run(c, now, datagram, answers.drop_last()) {
            Some(before) => {
                lemma_packet_leads_on(before.conn, now, before.rest, answers.last());
                match before.conn.packet_received(now, before.rest, answers.last()) {
                    Some((after, r)) => lemma_flights_keep_stage(after, 3),
                    None => {},
                }
            },
            None => {},
        }
    }
}

/// A packet that none of the connection's keys opens is passed over: the connection
/// is as it was, unless it is a Retry packet, which is not encrypted. The only error
/// it can lead to is that of a stateless reset or of a version negotiation.
pub proof fn law_unopened_packet_harmless(
    c: Conn,
    now: Instant,
    s: Seq<u8>,
    frames: Seq<FrameAnswers>,
)
    requires
        s.len() > 0,
        forall|keys: ReadKeys, pn: u64, header: Seq<u8>, from: int, to: int|
            c.keys.reads(keys, now) && 0 <= from <= to <= s.len() ==> #[trigger] opened(
                keys,
                pn,
                header,
                s.subrange(from, to),
            ) is None,
        peeked(s, LOCAL_CID_LEN) matches Some((packet_type, dcid)) ==> packet_type
            != PacketType::Retry,
    ensures
        ({
            &&& c.packet_received(now, s, frames) matches Some((after, r))
            &&& after == c
            &&& r matches Ok(n) ==> n is None
            &&& r matches Err(e) ==> e is StatelessReset || e is VersionNegotiation
        }),
{
    reveal(Conn::packet_received);
    reveal(Conn::long_received);
    reveal(Conn::level_received);
    reveal(Conn::zero_rtt_received);
    reveal(Conn::short_received);
    reveal(Conn::same_phase_received);
    reveal(Conn::next_phase_received);
    reveal(unprotected);
    lemma_protected_bounds(s);
}

/// Whether a packet is taken depends on the packet and the connection alone, not on
/// what TLS and the random number generator answer while its frames are worked through.
pub proof fn law_packet_taken_by_keys(
    c: Conn,
    now: Instant,
    s: Seq<u8>,
    frames: Seq<FrameAnswers>,
    others: Seq<FrameAnswers>,
)
    requires
        s.len() > 0,
        c.packet_received(now, s, frames) is Some,
        c.packet_received(now, s, others) is Some,
    ensures
        c.packet_received(now, s, frames)->Some_0.1 == Ok::<Option<int>, ErrorView>(None)
            <==> c.packet_received(now, s, others)->Some_0.1 == Ok::<Option<int>, ErrorView>(None),
{
    reveal(Conn::packet_received);
    reveal(Conn::long_received);
    reveal(Conn::level_received);
    reveal(Conn::level_opened);
    reveal(Conn::zero_rtt_received);
    reveal(Conn::short_received);
    reveal(Conn::same_phase_received);
    reveal(Conn::next_phase_received);
    assert forall|
        c: Conn,
        packet_type: PacketType,
        pn: u64,
        payload: Seq<u8>,
        answers: Seq<FrameAnswers>,
        consumed: int,
    |
        keeps_keys(
            c,
            #[trigger] c.payload_processed(now, packet_type, pn, payload, answers, consumed),
            consumed,
        ) by {
        lemma_payload_keeps_keys(c, now, packet_type, pn, payload, answers, consumed);
    }
}

/// Version Negotiation is believed only before anything else was heard from the
/// server, and only by a client: a live connection cannot be ended by it
/// (RFC 9000 Section 6.2).
pub proof fn law_version_negotiation_late_ignored(
    c: Conn,
    now: Instant,
    s: Seq<u8>,
    frames: Seq<FrameAnswers>,
)
    requires
        peeked(s, LOCAL_CID_LEN) matches Some((packet_type, dcid)) && packet_type
            == PacketType::VersionNegotiation,
        c.role == Role::Server || c.state != ConnectionState::Handshaking
            || c.initial.largest_received is Some,
    ensures
        c.long_received(now, s, frames) == Some((c, Ok::<Option<int>, ErrorView>(None))),
{
    reveal(Conn::long_received);
}

/// A Retry is accepted once, and only as long as no other packet has come from the
/// server; any other leaves the connection as it was.
pub proof fn law_retry_once(c: Conn, first: Seq<u8>, second: Seq<u8>)
    requires
        c.wf(),
    ensures
        ({
            let once = c.retry_received(first);
            &&& once != c ==> once.retry_count == 1 && c.expects_retry() && retry_tag_valid(
                c.initial_dcid,
                first,
            )
            &&& once != c ==> once.retry_received(second) == once
            &&& c.initial.largest_received is Some ==> once == c
        }),
{
    reveal(Conn::retry_received);
    match retry_at(first) {
        Some((scid, dcid, token)) => {
            let fresh = Conn {
                peer_cid: scid,
                retry_done: true,
                initial_dcid: scid,
                retry_token: token,
                retry_count: (c.retry_count + 1) as u64,
                keys: KeyState {
                    initial: Some(initial_keys_of(c.suite, scid, c.role)),
                    ..c.keys
                },
                initial: SpaceState::fresh(),
                recovery: RecoveryState { initial: InFlight::fresh(), ..c.recovery },
                ..c
            };
            lemma_requeued_packets_core(fresh, SpaceIndex::Initial, c.recovery.initial.packets);
        },
        None => {},
    }
}

/// An accepted Retry starts the handshake over towards the server it names: its source
/// identifier is where packets go and what the keys of Initial packets come from, its
/// token goes along, packet numbers start from zero, and all that was sent in Initial
/// packets waits to be sent again.
pub proof fn law_retry_starts_over(c: Conn, s: Seq<u8>, i: int, j: int)
    requires
        c.expects_retry(),
        retry_tag_valid(c.initial_dcid, s),
        retry_at(s) is Some,
        0 <= i < c.recovery.initial.packets.len(),
        0 <= j < c.recovery.initial.packets[i].frames.len(),
    ensures
        ({
            let (scid, dcid, token) = retry_at(s)->Some_0;
            let after = c.retry_received(s);
            &&& after.peer_cid == scid && after.initial_dcid == scid
            &&& after.retry_token == token
            &&& after.keys.initial == Some(initial_keys_of(c.suite, scid, c.role))
            &&& after.initial == SpaceState::fresh()
            &&& after.recovery.initial == InFlight::fresh()
            &&& after.waits(SpaceIndex::Initial, c.recovery.initial.packets[i].frames[j])
        }),
{
    reveal(Conn::retry_received);
    let (scid, dcid, token) = retry_at(s)->Some_0;
    let fresh = Conn {
        peer_cid: scid,
        retry_done: true,
        initial_dcid: scid,
        retry_token: token,
        retry_count: (c.retry_count + 1) as u64,
        keys: KeyState { initial: Some(initial_keys_of(c.suite, scid, c.role)), ..c.keys },
        initial: SpaceState::fresh(),
        recovery: RecoveryState { initial: InFlight::fresh(), ..c.recovery },
        ..c
    };
    let sent = c.recovery.initial.packets;
    lemma_requeued_packets_core(fresh, SpaceIndex::Initial, sent);
    law_requeue_frame_condition(fresh, SpaceIndex::Initial, sent);
    law_lost_frames_wait(fresh, SpaceIndex::Initial, sent, i, j);
}

/// A path challenge validates the path: the frame that carries it makes the peer
/// respond with the same data, and the frame that carries the response back validates
/// the path and moves the connection to its candidate address. A response with other
/// data changes nothing.
pub proof fn law_path_challenge_round_trip(
    asker: Conn,
    peer: Conn,
    now: Instant,
    nonce: Seq<u8>,
    other: Seq<u8>,
    a: FrameAnswers,
)
    requires
        asker.keys.one_rtt_ready,
        other != nonce,
    ensures
        ({
            let (asked, r) = challenge_begun(asker, Some(nonce));
            let answering = peer.with_frame(
                now,
                PacketType::Short,
                FrameView::PathChallenge(nonce),
                a,
            ).0;
            let done = asked.with_frame(
                now,
                PacketType::Short,
                FrameView::PathResponse(nonce),
                a,
            ).0;
            &&& r is Ok
            &&& asked.path.challenge_send && asked.path.challenge == Some(nonce)
            &&& !asked.path.validated
            &&& answering.path.response == Some(nonce)
            &&& done.path.validated
            &&& done.path.peer_addr == match asker.path.candidate {
                Some(addr) => addr,
                None => asker.path.peer_addr,
            }
            &&& asked.with_frame(
                now,
                PacketType::Short,
                FrameView::PathResponse(other),
                a,
            ).0 == asked
        }),
{
    reveal(Conn::with_frame);
}

/// A packet without a faulty frame is counted in: its number waits to be
/// acknowledged, and an acknowledgement is owed if one of its frames asks for it.
pub proof fn law_packet_counted(
    c: Conn,
    now: Instant,
    packet_type: PacketType,
    pn: u64,
    payload: Seq<u8>,
    frames: Seq<FrameAnswers>,
    consumed: int,
)
    ensures
        ({
            let run = FrameRun::run(c, now, packet_type, payload, frames);
            c.payload_processed(now, packet_type, pn, payload, frames, consumed) matches Some(
                (after, Ok(n)),
            ) ==> {
                let (before, space) = match packet_type {
                    PacketType::Initial => (run.conn.initial, after.initial),
                    PacketType::Handshake => (run.conn.handshake, after.handshake),
                    _ => (run.conn.application, after.application),
                };
                &&& space.to_ack == before.to_ack.push(pn)
                &&& space.ack_owed == (before.ack_owed || run.ack_eliciting)
                &&& space.largest_received matches Some(l) && l >= pn
            }
        }),
{
    reveal(Conn::payload_processed);
}

/// TLS hears the handshake: if what waits and what comes in of the handshake data of a
/// level holds bytes of `f`, then TLS is handed those bytes of `f` that follow on what
/// it has heard and are now in order, in one call, or none if there are none.
pub proof fn law_handshake_data_in_order(
    c: Conn,
    packet_type: PacketType,
    offset: u64,
    data: Seq<u8>,
    tls: TlsAnswer,
    f: spec_fn(int) -> u8,
)
    requires
        c.wf(),
        packet_type == PacketType::Initial || packet_type == PacketType::Handshake,
        offset + data.len() <= u64::MAX,
        agrees(c.crypto(packet_type).recv.pending, f),
        forall|i: int| 0 <= i < data.len() ==> data[i] == f(offset + i),
    ensures
        ({
            let (after, r) = c.with_crypto(packet_type, offset, data, tls);
            let heard = c.crypto(packet_type).recv.offset;
            let n = after.crypto(packet_type).recv.offset - heard;
            &&& n >= 0
            &&& agrees(after.crypto(packet_type).recv.pending, f)
            &&& after.reads == if n == 0 {
                c.reads
            } else {
                c.reads.push(
                    HsRead {
                        bytes: Seq::new(n as nat, |i: int| f(heard + i)),
                        error: tls.error,
                    },
                )
            }
            &&& r is Err <==> n > 0 && tls.error is Some
        }),
{
    reveal(Conn::with_crypto);
    let recv = c.crypto(packet_type).recv;
    law_delivers_the_stream(recv, offset, data, f);
    law_delivery_contiguous(recv, offset, data);
    let bytes = recv.accepted(offset, data).0;
    assert(bytes =~= Seq::new(bytes.len(), |i: int| f(recv.offset + i)));
}

impl Conn {
    /// The handshake data of a level.
    pub open spec fn crypto(self, packet_type: PacketType) -> CryptoState {
        if packet_type == PacketType::Handshake {
            self.handshake_crypto
        } else {
            self.initial_crypto
        }
    }
}

} // verus!
