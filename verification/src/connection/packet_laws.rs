//! What each kind of packet does to a connection.
use super::arrival::{frames_wf, unprotected, DatagramRun};
use super::keys::{KeyState, PrevKeys};
use super::loss::RecoveryState;
use super::model::{Conn, FrameAnswers, FrameRun};
use super::recovery::law_requeue_frame_condition;
use crate::error::{ErrorView, TransportErrorCode};
use crate::frame::{law_frame_round_trip, FrameView};
use crate::packet::{
    law_version_negotiation_round_trip, peeked, protected_long_at, retry_at, retry_tag_valid,
    version_negotiation_bytes, Clear, Protected,
};
use crate::recovery::SpaceIndex;
use crate::session::{early_keys, hs_written, initial_keys_of, opened, KeyStep, ReadKeys};
use crate::time::Instant;
use crate::types::{ConnectionState, PacketType, Role};
use vstd::prelude::*;

verus! {

/// The frames of a packet are worked through one after the other: the one at the front has
/// its effect, what follows it is left, and the packet asks for an acknowledgement if any
/// of its frames does. A frame at fault ends the packet.
pub proof fn law_frames_in_turn(
    run: FrameRun,
    now: Instant,
    packet_type: PacketType,
    f: FrameView,
    rest: Seq<u8>,
    answers: FrameAnswers,
)
    requires
        f.encodable(),
        !(f is Padding),
        run.error is None,
        run.rest == f.bytes() + rest,
        run.rest.len() > 0,
    ensures
        ({
            let next = run.step(now, packet_type, answers);
            let (conn, r) = run.conn.with_frame(now, packet_type, f, answers);
            &&& next.conn == conn
            &&& next.rest == rest
            &&& next.ack_eliciting <==> run.ack_eliciting || !(f is Ack || f is ConnectionClose)
            &&& r is Ok ==> next.error is None
            &&& r matches Err(e) ==> next.error == Some(e) && next.step(
                now,
                packet_type,
                answers,
            ) == next
        }),
{
    law_frame_round_trip(f, rest);
}

/// A packet starts with no identifier counted as received in it; it ends with its last
/// frame, and one with nothing in it has no effect.
pub proof fn law_packet_starts_afresh(
    c: Conn,
    now: Instant,
    packet_type: PacketType,
    payload: Seq<u8>,
    answers: FrameAnswers,
)
    ensures
        ({
            let run = FrameRun::start(c, payload);
            &&& run.conn == (Conn { cids_this_packet: Set::empty(), ..c })
            &&& run.rest == payload
            &&& !run.ack_eliciting
            &&& run.error is None
            &&& payload.len() == 0 ==> run.step(now, packet_type, answers) == run
        }),
{
}

/// A packet whose frames are all in order is counted in the space of its type, and in no
/// other; the packet is taken whole. After a frame at fault it is not counted, and the
/// fault is what is reported.
pub proof fn law_packet_counted_once(
    c: Conn,
    now: Instant,
    packet_type: PacketType,
    pn: u64,
    payload: Seq<u8>,
    frames: Seq<FrameAnswers>,
    consumed: int,
)
    requires
        frames_wf(frames),
        FrameRun::run(c, now, packet_type, payload, frames).over(),
    ensures
        ({
            let run = FrameRun::run(c, now, packet_type, payload, frames);
            let got = c.payload_processed(now, packet_type, pn, payload, frames, consumed);
            &&& run.error matches Some(e) ==> got == Some((run.conn, Err::<Option<int>, _>(e)))
            &&& run.error is None ==> got is Some && got->Some_0.1 == Ok::<Option<int>, ErrorView>(
                Some(consumed),
            ) && ({
                let after = got->Some_0.0;
                &&& packet_type == PacketType::Initial ==> after.initial.to_ack
                    == run.conn.initial.to_ack.push(pn) && after == (Conn { initial: after.initial, ..run.conn })
                &&& packet_type == PacketType::Handshake ==> after.handshake.to_ack
                    == run.conn.handshake.to_ack.push(pn) && after == (Conn { handshake: after.handshake, ..run.conn })
                &&& packet_type == PacketType::Short || packet_type == PacketType::ZeroRtt
                    ==> after.application.to_ack == run.conn.application.to_ack.push(pn) && after
                    == (Conn { application: after.application, ..run.conn })
            })
        }),
{
    reveal(Conn::payload_processed);
}

/// Whether a packet opens with these keys: its header protection comes off, given the
/// largest number received in its space, and the payload is what is claimed.
pub open spec fn opens(
    keys: ReadKeys,
    s: Seq<u8>,
    pn_offset: int,
    end: int,
    largest: Option<u64>,
    clear: Clear,
    payload: Seq<u8>,
) -> bool {
    &&& unprotected(keys, s, pn_offset, end, largest) matches Some((first, found)) && found == clear
    &&& opened(keys, clear.pn, clear.header, clear.payload) == Some(payload)
}

/// An Initial packet is read with the Initial keys and the numbers of the Initial space. If
/// it opens, it is passed over unless it is sent to no identifier, to the one issued here,
/// or to the one that the Initial keys come from; a client then sends to the identifier
/// that the packet names as its source, if it names one.
pub proof fn law_initial_packet(
    c: Conn,
    now: Instant,
    s: Seq<u8>,
    frames: Seq<FrameAnswers>,
    h: Protected,
    clear: Clear,
    payload: Seq<u8>,
    dcid: Seq<u8>,
)
    requires
        s.len() > 0,
        s[0] >= 128,
        peeked(s, 8) == Some((PacketType::Initial, dcid)),
        protected_long_at(s) == Some(h),
        h.packet_type == PacketType::Initial,
        c.keys.initial matches Some(keys) && opens(
            ReadKeys::Level(keys),
            s,
            h.pn_offset,
            h.end,
            c.initial.largest_received,
            clear,
            payload,
        ),
    ensures
        ({
            let got = c.packet_received(now, s, frames);
            let ours = h.dcid.len() == 0 || h.dcid == c.local_cid || h.dcid == c.initial_dcid;
            let to = if c.role == Role::Client && h.scid.len() > 0 {
                h.scid
            } else {
                c.peer_cid
            };
            &&& !ours ==> got == Some((c, Ok::<Option<int>, ErrorView>(Some(h.end))))
            &&& ours ==> got == (Conn { peer_cid: to, ..c }).payload_processed(
                now,
                PacketType::Initial,
                clear.pn,
                payload,
                frames,
                h.end,
            )
        }),
{
    reveal(Conn::packet_received);
    reveal(Conn::long_received);
    reveal(Conn::level_received);
    reveal(Conn::level_opened);
    assert((Conn { peer_cid: c.peer_cid, ..c }) == c);
}

/// A Handshake packet is read with the Handshake keys and the numbers of the Handshake
/// space. If it opens and is for this connection, its frames are worked through; where
/// packets are sent to does not change.
pub proof fn law_handshake_packet(
    c: Conn,
    now: Instant,
    s: Seq<u8>,
    frames: Seq<FrameAnswers>,
    h: Protected,
    clear: Clear,
    payload: Seq<u8>,
    dcid: Seq<u8>,
)
    requires
        s.len() > 0,
        s[0] >= 128,
        peeked(s, 8) == Some((PacketType::Handshake, dcid)),
        protected_long_at(s) == Some(h),
        h.packet_type == PacketType::Handshake,
        c.keys.handshake matches Some(keys) && opens(
            ReadKeys::Level(keys),
            s,
            h.pn_offset,
            h.end,
            c.handshake.largest_received,
            clear,
            payload,
        ),
    ensures
        ({
            let got = c.packet_received(now, s, frames);
            let ours = h.dcid.len() == 0 || h.dcid == c.local_cid || h.dcid == c.initial_dcid;
            &&& !ours ==> got == Some((c, Ok::<Option<int>, ErrorView>(Some(h.end))))
            &&& ours ==> got == c.payload_processed(
                now,
                PacketType::Handshake,
                clear.pn,
                payload,
                frames,
                h.end,
            )
        }),
{
    reveal(Conn::packet_received);
    reveal(Conn::long_received);
    reveal(Conn::level_received);
    reveal(Conn::level_opened);
}

/// A 0-RTT packet is read by a server alone, with the early keys and the numbers of the
/// Application space.
pub proof fn law_zero_rtt_packet(
    c: Conn,
    now: Instant,
    s: Seq<u8>,
    frames: Seq<FrameAnswers>,
    h: Protected,
    clear: Clear,
    payload: Seq<u8>,
    dcid: Seq<u8>,
)
    requires
        s.len() > 0,
        s[0] >= 128,
        peeked(s, 8) == Some((PacketType::ZeroRtt, dcid)),
    ensures
        c.role == Role::Client || c.keys.zero_rtt is None ==> c.packet_received(now, s, frames)
            == Some((c, Ok::<Option<int>, ErrorView>(None))),
        c.role == Role::Server && protected_long_at(s) == Some(h) && (
        c.keys.zero_rtt matches Some(keys) && opens(
            ReadKeys::Directional(keys),
            s,
            h.pn_offset,
            h.end,
            c.application.largest_received,
            clear,
            payload,
        )) ==> c.packet_received(now, s, frames) == c.payload_processed(
            now,
            PacketType::ZeroRtt,
            clear.pn,
            payload,
            frames,
            h.end,
        ),
{
    reveal(Conn::packet_received);
    reveal(Conn::long_received);
    reveal(Conn::zero_rtt_received);
}

/// Initial, Handshake and 0-RTT packets for which there are no keys end the datagram and
/// have no effect.
pub proof fn law_no_keys_no_effect(
    c: Conn,
    now: Instant,
    s: Seq<u8>,
    frames: Seq<FrameAnswers>,
    dcid: Seq<u8>,
)
    requires
        s.len() > 0,
        s[0] >= 128,
        (c.keys.initial is None && peeked(s, 8) == Some((PacketType::Initial, dcid))) || (
        c.keys.handshake is None && peeked(s, 8) == Some((PacketType::Handshake, dcid))) || (
        c.keys.zero_rtt is None && peeked(s, 8) == Some((PacketType::ZeroRtt, dcid))),
    ensures
        c.packet_received(now, s, frames) == Some((c, Ok::<Option<int>, ErrorView>(None))),
{
    reveal(Conn::packet_received);
    reveal(Conn::long_received);
    reveal(Conn::level_received);
    reveal(Conn::zero_rtt_received);
}

/// A Retry packet is taken exactly by a client that is still shaking hands, has taken none
/// before and has received no Initial packet, if its tag is right for the identifier that
/// was first sent to. What else is in flight, and the keys of the other levels, stay as
/// they are; the datagram ends with the packet either way.
pub proof fn law_retry_taken_exactly(
    c: Conn,
    now: Instant,
    s: Seq<u8>,
    frames: Seq<FrameAnswers>,
    to: Seq<u8>,
)
    requires
        c.wf(),
        s.len() > 0,
        s[0] >= 128,
        peeked(s, 8) == Some((PacketType::Retry, to)),
    ensures
        ({
            let got = c.packet_received(now, s, frames);
            let after = got->Some_0.0;
            let taken = c.role == Role::Client && c.state == ConnectionState::Handshaking
                && !c.retry_done && c.initial.largest_received is None && retry_tag_valid(
                c.initial_dcid,
                s,
            ) && retry_at(s) is Some;
            &&& got is Some
            &&& got->Some_0.1 == Ok::<Option<int>, ErrorView>(None)
            &&& !taken ==> after == c
            &&& taken ==> {
                let (scid, dcid, token) = retry_at(s)->Some_0;
                &&& after.retry_done
                &&& after.retry_count == 1
                &&& after.peer_cid == scid && after.initial_dcid == scid && after.retry_token
                    == token
                &&& after.keys == (KeyState {
                    initial: Some(initial_keys_of(c.suite, scid, Role::Client)),
                    ..c.keys
                })
                &&& after.initial.largest_received is None && after.initial.to_ack.len() == 0
                    && !after.initial.ack_owed
                &&& after.recovery.initial.packets.len() == 0
                    && after.recovery.initial.largest_acked is None
                &&& after.recovery == (RecoveryState {
                    initial: after.recovery.initial,
                    ..c.recovery
                })
                &&& after.state == c.state && after.handshake == c.handshake && after.application
                    == c.application && after.tls == c.tls && after.path == c.path
            }
        }),
{
    reveal(Conn::packet_received);
    reveal(Conn::long_received);
    reveal(Conn::retry_received);
    match retry_at(s) {
        Some((scid, dcid, token)) => {
            let fresh = Conn {
                peer_cid: scid,
                retry_done: true,
                initial_dcid: scid,
                retry_token: token,
                retry_count: (c.retry_count + 1) as u64,
                keys: KeyState { initial: Some(initial_keys_of(c.suite, scid, c.role)), ..c.keys },
                initial: crate::space::SpaceState::fresh(),
                recovery: RecoveryState {
                    initial: crate::sent_packet::InFlight::fresh(),
                    ..c.recovery
                },
                ..c
            };
            law_requeue_frame_condition(fresh, SpaceIndex::Initial, c.recovery.initial.packets);
            super::laws::lemma_requeued_packets_core(
                fresh,
                SpaceIndex::Initial,
                c.recovery.initial.packets,
            );
        },
        None => {},
    }
}

/// A client that is shaking hands and has received no Initial packet gives up on a Version
/// Negotiation packet, and reports the versions that the packet offers.
pub proof fn law_version_negotiation_reported(
    c: Conn,
    now: Instant,
    dcid: Seq<u8>,
    scid: Seq<u8>,
    versions: Seq<u32>,
    frames: Seq<FrameAnswers>,
)
    requires
        dcid.len() <= 255,
        scid.len() <= 255,
        c.role == Role::Client,
        c.state == ConnectionState::Handshaking,
        c.initial.largest_received is None,
    ensures
        c.packet_received(now, version_negotiation_bytes(dcid, scid, versions), frames) == Some(
            (c, Err::<Option<int>, ErrorView>(ErrorView::VersionNegotiation(versions))),
        ),
{
    reveal(Conn::packet_received);
    reveal(Conn::long_received);
    law_version_negotiation_round_trip(dcid, scid, versions, 8);
    assert(version_negotiation_bytes(dcid, scid, versions)[0] == 128);
}

/// A packet that does not open is a stateless reset exactly if it has 21 bytes or more and
/// the last 16 are the token of an identifier of the peer's that is in use.
pub proof fn law_stateless_reset(c: Conn, front: Seq<u8>, token: Seq<u8>, k: int)
    requires
        token.len() == 16,
    ensures
        front.len() >= 5 && 0 <= k < c.peer_cids.active.len() && c.peer_cids.active[k].token
            == token ==> c.unreadable(front + token) == Err::<Option<int>, ErrorView>(
            ErrorView::StatelessReset,
        ),
        front.len() < 5 ==> c.unreadable(front + token) == Ok::<Option<int>, ErrorView>(None),
        (forall|i: int|
            0 <= i < c.peer_cids.active.len() ==> (#[trigger] c.peer_cids.active[i]).token != token)
            ==> c.unreadable(front + token) == Ok::<Option<int>, ErrorView>(None),
{
    let s = front + token;
    assert(s.skip(s.len() - 16) =~= token);
    if front.len() >= 5 && 0 <= k < c.peer_cids.active.len() && c.peer_cids.active[k].token
        == token {
        assert(c.peer_cids.matches_reset(token));
    }
}

/// A packet with a short header is read behind one byte and an identifier of eight, with
/// the header keys of the handshake. If its key phase bit is that of the phase at hand, the
/// keys of that phase open it, which are those of the handshake until the first update; if
/// they do not, those of the phase before may, as long as they are kept. What nothing opens
/// is looked at as a stateless reset.
pub proof fn law_packet_of_this_phase(
    c: Conn,
    now: Instant,
    s: Seq<u8>,
    frames: Seq<FrameAnswers>,
    first: u8,
    clear: Clear,
    payload: Seq<u8>,
)
    requires
        s.len() > 0,
        s[0] < 128,
        crate::packet::samplable(9, s.len() as int),
        c.keys.one_rtt matches Some(keys) && unprotected(
            ReadKeys::Level(keys),
            s,
            9,
            s.len() as int,
            c.application.largest_received,
        ) == Some((first, clear)),
        c.keys.key_phase <==> (first % 8) / 4 == 1,
    ensures
        ({
            let got = c.packet_received(now, s, frames);
            let level = ReadKeys::Level(c.keys.one_rtt->Some_0);
            let now_keys = match c.keys.phase_keys {
                Some(phase) => ReadKeys::Phase(phase),
                None => level,
            };
            let taken = c.payload_processed(
                now,
                PacketType::Short,
                clear.pn,
                payload,
                frames,
                s.len() as int,
            );
            let by_now = opened(now_keys, clear.pn, clear.header, clear.payload);
            &&& by_now == Some(payload) ==> got == taken
            &&& by_now is None && c.keys.prev is None ==> got == Some((c, c.unreadable(s)))
            &&& by_now is None ==> (c.keys.prev matches Some((prev, until)) ==> {
                let old_keys = match prev {
                    PrevKeys::First => level,
                    PrevKeys::Phase(phase) => ReadKeys::Phase(phase),
                };
                let by_old = opened(old_keys, clear.pn, clear.header, clear.payload);
                &&& now.nanos <= until.nanos && by_old == Some(payload) ==> got == taken
                &&& now.nanos > until.nanos || by_old is None ==> got == Some((c, c.unreadable(s)))
            })
        }),
{
    reveal(Conn::packet_received);
    reveal(Conn::short_received);
    reveal(Conn::same_phase_received);
}

/// A packet of the other key phase that the next keys open is the peer's key update: it is
/// followed, the packet is of the phase that has begun, and only then are the frames worked
/// through. One that they do not open changes no keys.
pub proof fn law_packet_of_next_phase(
    c: Conn,
    now: Instant,
    s: Seq<u8>,
    frames: Seq<FrameAnswers>,
    first: u8,
    clear: Clear,
    payload: Seq<u8>,
)
    requires
        s.len() > 0,
        s[0] < 128,
        crate::packet::samplable(9, s.len() as int),
        c.keys.one_rtt matches Some(keys) && unprotected(
            ReadKeys::Level(keys),
            s,
            9,
            s.len() as int,
            c.application.largest_received,
        ) == Some((first, clear)),
        c.keys.key_phase <==> (first % 8) / 4 == 0,
        c.keys.next is Some,
    ensures
        ({
            let got = c.packet_received(now, s, frames);
            let by_next = opened(
                ReadKeys::Phase(c.keys.next->Some_0),
                clear.pn,
                clear.header,
                clear.payload,
            );
            let pto = c.recovery.rtt.spec_pto_base(c.recovery.peer_max_ack_delay);
            &&& by_next is None ==> got == Some((c, c.unreadable(s)))
            &&& by_next == Some(payload) ==> ({
                let keys = c.keys.updated_by_peer(now, pto);
                &&& keys.key_phase != c.keys.key_phase
                &&& keys.update_received
                &&& keys.update_pending == c.keys.update_pending
                &&& got == (Conn { keys, ..c }).payload_processed(
                    now,
                    PacketType::Short,
                    clear.pn,
                    payload,
                    frames,
                    s.len() as int,
                )
            })
        }),
{
    reveal(Conn::packet_received);
    reveal(Conn::short_received);
    reveal(Conn::next_phase_received);
}

/// The packets of a datagram are worked through from the front. One that is taken leaves
/// what is behind it, and TLS is driven on; a packet that cannot be read ends the datagram,
/// as does an error, a zero byte in place of a packet, or the end.
pub proof fn law_packets_in_turn(run: DatagramRun, now: Instant, frames: Seq<FrameAnswers>)
    ensures
        run.rest.len() == 0 || run.rest[0] == 0 || run.error is Some || run.stopped ==> run.step(
            now,
            frames,
        ) is None,
        run.rest.len() > 0 && run.rest[0] != 0 && run.error is None && !run.stopped
            ==> match run.conn.packet_received(now, run.rest, frames) {
            None => run.step(now, frames) is None,
            Some((c, r)) => run.step(now, frames) matches Some(next) && match r {
                Err(e) => next.error == Some(e) && next.conn == c && next.over(),
                Ok(None) => next.error is None && next.conn == c && next.over(),
                Ok(Some(n)) => next.error is None && !next.stopped && next.rest == run.rest.skip(n)
                    && next.conn == c.pumped().zero_rtt_tried(),
            },
        },
{
}

/// A datagram counts once, with all its bytes, and puts the idle timer off: by its number of
/// milliseconds, or the timer stays off where that number is zero.
pub proof fn law_datagram_starts(c: Conn, now: Instant, datagram: Seq<u8>)
    requires
        now.in_range(),
        c.packets_recv < u64::MAX,
        c.bytes_recv + datagram.len() <= u64::MAX,
    ensures
        ({
            let run = DatagramRun::start(c, now, datagram);
            &&& run.conn.packets_recv == c.packets_recv + 1
            &&& run.conn.bytes_recv == c.bytes_recv + datagram.len()
            &&& c.idle_timeout_ms == 0 ==> run.conn.idle_deadline is None
            &&& c.idle_timeout_ms > 0 ==> (run.conn.idle_deadline matches Some(t) && t.nanos
                - now.nanos == c.idle_timeout_ms * 1_000_000)
            &&& run.conn == (Conn {
                packets_recv: run.conn.packets_recv,
                bytes_recv: run.conn.bytes_recv,
                idle_deadline: run.conn.idle_deadline,
                ..c
            })
            &&& run.rest == datagram && run.error is None && !run.stopped
        }),
{
}

/// Handshake bytes that TLS gives wait behind those that wait: for Initial packets as long
/// as there are no Handshake keys, then for Handshake packets. Keys that come with them are
/// installed after that: those of a level at their level, and 1-RTT keys with those of the
/// phase that follows.
pub proof fn law_flight_queued(c: Conn, bytes: Seq<u8>, step: KeyStep)
    requires
        c.wf(),
        c.initial_crypto.send_base + c.initial_crypto.send_buf.len() + bytes.len() <= u64::MAX,
        c.handshake_crypto.send_base + c.handshake_crypto.send_buf.len() + bytes.len() <= u64::MAX,
    ensures
        ({
            let after = c.flight_taken(bytes, step);
            let (i, h) = (after.initial_crypto, after.handshake_crypto);
            &&& c.keys.handshake is None ==> i.send_buf == c.initial_crypto.send_buf + bytes && h
                == c.handshake_crypto
            &&& c.keys.handshake is Some ==> h.send_buf == c.handshake_crypto.send_buf + bytes && i
                == c.initial_crypto
            &&& i.send_base == c.initial_crypto.send_base && i.recv == c.initial_crypto.recv
                && i.resend == c.initial_crypto.resend
            &&& h.send_base == c.handshake_crypto.send_base && h.recv == c.handshake_crypto.recv
                && h.resend == c.handshake_crypto.resend
            &&& step is Same ==> after.keys == c.keys
            &&& step matches KeyStep::Handshake(k) ==> after.keys == (KeyState {
                handshake: Some(k),
                ..c.keys
            })
            &&& step matches KeyStep::OneRtt(k, secrets) ==> after.keys.one_rtt == Some(k)
                && after.keys.one_rtt_ready && after.keys.next == Some(
                crate::session::ratcheted(secrets).0,
            ) && after.keys.secrets == Some(crate::session::ratcheted(secrets).1) && after.keys
                == (KeyState {
                one_rtt: after.keys.one_rtt,
                one_rtt_ready: true,
                next: after.keys.next,
                secrets: after.keys.secrets,
                ..c.keys
            })
            &&& after == (Conn { initial_crypto: i, handshake_crypto: h, keys: after.keys, ..c })
        }),
{
    reveal(Conn::flight_taken);
}

/// TLS is asked for handshake bytes as long as it gives keys, three times at most.
pub proof fn law_flights_until_no_keys(c: Conn)
    ensures
        ({
            let one = c.with_flight();
            let two = one.with_flight();
            let first = hs_written(c.tls).1;
            let second = hs_written(one.tls).1;
            &&& c.with_flights(0) == c
            &&& first is Same ==> c.with_flights(3) == one
            &&& !(first is Same) && second is Same ==> c.with_flights(3) == two
            &&& !(first is Same) && !(second is Same) ==> c.with_flights(3) == two.with_flight()
        }),
{
    reveal_with_fuel(Conn::with_flights, 4);
}

/// The connection is established when TLS has shaken hands, once; for a server the handshake
/// is then confirmed too.
pub proof fn law_established_once(c: Conn, handshaking: bool)
    ensures
        ({
            let after = c.handshake_checked(handshaking);
            &&& handshaking || c.state != ConnectionState::Handshaking ==> after == c
            &&& !handshaking && c.state == ConnectionState::Handshaking ==> {
                &&& after.state == ConnectionState::Established
                &&& after.handshake_complete
                &&& c.role == Role::Server ==> after.handshake_done
                &&& c.role == Role::Client ==> after.handshake_done == c.handshake_done
                &&& after == (Conn {
                    state: after.state,
                    handshake_complete: true,
                    handshake_done: after.handshake_done,
                    ..c
                })
            }
        }),
{
}

/// A server takes the early keys that TLS has, as long as it has none and the handshake is
/// not complete; a client never does.
pub proof fn law_early_keys_taken(c: Conn)
    ensures
        ({
            let after = c.zero_rtt_tried();
            let wanted = c.role == Role::Server && !c.handshake_complete && c.keys.zero_rtt is None;
            &&& wanted ==> after.keys.zero_rtt == early_keys(c.tls)
            &&& !wanted ==> after == c
            &&& after == (Conn {
                keys: KeyState { zero_rtt: after.keys.zero_rtt, ..c.keys },
                ..c
            })
        }),
{
}

/// A payload that does not decode ends its packet with FRAME_ENCODING_ERROR and what is wrong
/// with it; the frames before it have had their effect.
pub proof fn law_undecodable_payload(
    run: FrameRun,
    now: Instant,
    packet_type: PacketType,
    answers: FrameAnswers,
    detail: Seq<char>,
)
    requires
        run.error is None,
        run.rest.len() > 0,
        crate::frame::frame_at(run.rest) == Err::<(FrameView, Seq<u8>), Seq<char>>(detail),
    ensures
        ({
            let next = run.step(now, packet_type, answers);
            &&& next.conn == run.conn
            &&& next.error == Some(
                ErrorView::TransportError(TransportErrorCode::FrameEncodingError, None, detail),
            )
            &&& next.over()
        }),
{
}

} // verus!
