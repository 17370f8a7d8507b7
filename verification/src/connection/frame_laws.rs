//! What each frame does to a connection, field by field.
use super::model::{Conn, FrameAnswers};
use super::streams::{StreamLimits, StreamsState};
use crate::cid::{CidEventView, CidView};
use crate::error::{ErrorView, FrameType, TransportErrorCode};
use crate::frame::FrameView;
use crate::reassembly::{drained, Reassembly};
use crate::session::{error_display, utf8_lossy, Draw, HsRead};
use crate::stream::RecvState;
use crate::time::Instant;
use crate::types::{ConnectionState, Direction, PacketType, Role, StreamId};
use vstd::prelude::*;

verus! {

/// A STREAM frame announces a stream to the application exactly if its receiving side
/// was not known and the peer opened it: the lowest bit of the identifier is 0 for
/// streams that the client opened and 1 for those of the server. That holds whether or
/// not the data is taken.
pub proof fn law_peer_stream_announced(
    c: Conn,
    now: Instant,
    packet_type: PacketType,
    id: u64,
    offset: u64,
    fin: bool,
    data: Seq<u8>,
    answers: FrameAnswers,
)
    ensures
        ({
            let frame = FrameView::Stream { id, offset, fin, data };
            let after = c.with_frame(now, packet_type, frame, answers).0;
            let of_peer = (c.role == Role::Server && id % 2 == 0) || (c.role == Role::Client && id
                % 2 == 1);
            &&& !c.streams.recv.contains_key(id) && of_peer ==> after.streams.new_peer
                == c.streams.new_peer.push(StreamId(id))
            &&& c.streams.recv.contains_key(id) || !of_peer ==> after.streams.new_peer
                == c.streams.new_peer
        }),
{
    reveal(Conn::with_frame);
}

/// A STREAM frame opens what its stream needs: the receiving side with this side's
/// window; and, if the second bit of the identifier is 0 and the stream so goes both
/// ways, the sending side with the peer's window. What is open stays as it is, and no
/// other stream, limit or part of the connection is touched.
pub proof fn law_stream_opened(
    c: Conn,
    now: Instant,
    packet_type: PacketType,
    id: u64,
    offset: u64,
    fin: bool,
    data: Seq<u8>,
    answers: FrameAnswers,
    other: u64,
)
    requires
        other != id,
    ensures
        ({
            let frame = FrameView::Stream { id, offset, fin, data };
            let after = c.with_frame(now, packet_type, frame, answers).0;
            let (s, t) = (c.streams, after.streams);
            &&& t.recv.contains_key(id)
            &&& t.recv_credit.contains_key(id)
            &&& s.recv_credit.contains_key(id) ==> t.recv_credit[id] == s.recv_credit[id]
            &&& !s.recv_credit.contains_key(id) ==> t.recv_credit[id].limit == s.local_window
                && t.recv_credit[id].window == s.local_window && t.recv_credit[id].consumed == 0
            &&& (id / 2) % 2 == 1 ==> t.send == s.send && t.send_credit == s.send_credit
            &&& (id / 2) % 2 == 0 ==> {
                &&& t.send.contains_key(id)
                &&& t.send_credit.contains_key(id)
                &&& s.send.contains_key(id) ==> t.send[id] == s.send[id]
                &&& !s.send.contains_key(id) ==> t.send[id].written == 0 && t.send[id].resend.len()
                    == 0 && t.send[id].reset is None
                &&& s.send_credit.contains_key(id) ==> t.send_credit[id] == s.send_credit[id]
                &&& !s.send_credit.contains_key(id) ==> t.send_credit[id].limit == s.peer_window
                    && t.send_credit[id].sent == 0 && t.send_credit[id].blocked_at is None
            }
            &&& t.recv.contains_key(other) == s.recv.contains_key(other)
            &&& s.recv.contains_key(other) ==> t.recv[other] == s.recv[other]
            &&& t.send.contains_key(other) == s.send.contains_key(other)
            &&& s.send.contains_key(other) ==> t.send[other] == s.send[other]
            &&& t.recv_credit.contains_key(other) == s.recv_credit.contains_key(other)
            &&& s.recv_credit.contains_key(other) ==> t.recv_credit[other] == s.recv_credit[other]
            &&& t.send_credit.contains_key(other) == s.send_credit.contains_key(other)
            &&& s.send_credit.contains_key(other) ==> t.send_credit[other] == s.send_credit[other]
            &&& t.pending_resets == s.pending_resets
            &&& t.conn_credit == s.conn_credit
            &&& t.peer_window == s.peer_window
            &&& t.local_window == s.local_window
            &&& t.bidi == s.bidi
            &&& t.uni == s.uni
            &&& after == (Conn { streams: t, ..c })
        }),
{
    reveal(Conn::with_frame);
}

/// Data that contradicts the size of its stream is refused, and no other: data beyond a
/// size that is known, an end elsewhere than there, or an end before data that has come.
/// A stream that the peer has reset takes no data and refuses none.
pub proof fn law_final_size_enforced(
    c: Conn,
    now: Instant,
    packet_type: PacketType,
    id: u64,
    offset: u64,
    fin: bool,
    data: Seq<u8>,
    answers: FrameAnswers,
)
    requires
        offset + data.len() <= u64::MAX,
    ensures
        ({
            let frame = FrameView::Stream { id, offset, fin, data };
            let (after, r) = c.with_frame(now, packet_type, frame, answers);
            let end = offset + data.len();
            let known = c.streams.recv.contains_key(id);
            let stream = c.streams.recv[id];
            let refused = known && stream.reset is None && match stream.final_size {
                Some(size) => size < end || (fin && end < size),
                None => fin && end < stream.highest,
            };
            &&& r is Err <==> refused
            &&& refused ==> r == Err::<(), ErrorView>(
                ErrorView::TransportError(
                    TransportErrorCode::FinalSizeError,
                    None,
                    "stream final size violation"@,
                ),
            )
            &&& refused || (known && stream.reset is Some) ==> after.streams.recv[id] == stream
                && after.streams.readable == c.streams.readable
        }),
{
    reveal(Conn::with_frame);
}

/// What an accepted STREAM frame makes of its stream: bytes are only added behind those
/// that wait to be read, the size is known once the end has come, and the stream becomes
/// readable exactly if there are new bytes or its end has newly been reached.
pub proof fn law_stream_data_taken(
    c: Conn,
    now: Instant,
    packet_type: PacketType,
    id: u64,
    offset: u64,
    fin: bool,
    data: Seq<u8>,
    answers: FrameAnswers,
)
    requires
        c.wf(),
        offset + data.len() <= u64::MAX,
        c.with_frame(now, packet_type, FrameView::Stream { id, offset, fin, data }, answers).1 is Ok,
        c.streams.recv.contains_key(id) ==> c.streams.recv[id].reset is None,
    ensures
        ({
            let frame = FrameView::Stream { id, offset, fin, data };
            let after = c.with_frame(now, packet_type, frame, answers).0;
            let end = offset + data.len();
            let known = c.streams.recv.contains_key(id);
            let was = c.streams.recv[id];
            let unread = if known { was.unread } else { Seq::empty() };
            let point = if known { was.inbound.offset } else { 0 };
            let size = if known { was.final_size } else { None };
            let t = after.streams.recv[id];
            let ended = size == Some(point as u64);
            &&& unread.len() <= t.unread.len()
            &&& t.unread.take(unread.len() as int) == unread
            &&& t.inbound.offset - point == t.unread.len() - unread.len()
            &&& t.highest == if known && was.highest > end { was.highest } else { end as u64 }
            &&& t.final_size == if fin { Some(end as u64) } else { size }
            &&& t.reset is None
            &&& after.streams.readable == if t.unread.len() > unread.len() || (t.final_size == Some(
                t.inbound.offset as u64,
            ) && !ended) {
                c.streams.readable.push(StreamId(id))
            } else {
                c.streams.readable
            }
        }),
{
    reveal(Conn::with_frame);
    let known = c.streams.recv.contains_key(id);
    let was = if known {
        c.streams.recv[id]
    } else {
        RecvState::fresh()
    };
    assert(was.wf());
    crate::reassembly::law_delivery_contiguous(was.inbound, offset, data);
    crate::reassembly::law_accept_keeps_wf(was.inbound, offset, data);
    let frame = FrameView::Stream { id, offset, fin, data };
    let t = c.with_frame(now, packet_type, frame, answers).0.streams.recv[id];
    assert(t.unread.take(was.unread.len() as int) =~= was.unread);
}

/// Data that continues a stream without a gap is there to be read at once: where nothing
/// waits out of order, the bytes of a frame at the delivery point are appended to what
/// is unread.
pub proof fn law_stream_data_in_order(
    c: Conn,
    now: Instant,
    packet_type: PacketType,
    id: u64,
    fin: bool,
    data: Seq<u8>,
    answers: FrameAnswers,
)
    requires
        c.wf(),
        c.streams.recv.contains_key(id),
        c.streams.recv[id].reset is None,
        c.streams.recv[id].final_size is None,
        c.streams.recv[id].inbound.pending == Map::<u64, Seq<u8>>::empty(),
        c.streams.recv[id].inbound.offset + data.len() <= u64::MAX,
        c.streams.recv[id].highest <= c.streams.recv[id].inbound.offset,
    ensures
        ({
            let was = c.streams.recv[id];
            let offset = was.inbound.offset as u64;
            let frame = FrameView::Stream { id, offset, fin, data };
            let (after, r) = c.with_frame(now, packet_type, frame, answers);
            let t = after.streams.recv[id];
            &&& r is Ok
            &&& t.unread == was.unread + data
            &&& t.inbound.offset == was.inbound.offset + data.len()
            &&& t.inbound.pending == Map::<u64, Seq<u8>>::empty()
            &&& data.len() > 0 || fin ==> after.streams.readable == c.streams.readable.push(
                StreamId(id),
            )
        }),
{
    reveal(Conn::with_frame);
    let was = c.streams.recv[id];
    let offset = was.inbound.offset as u64;
    assert(was.wf());
    lemma_in_order(was.inbound, data);
    assert(was.unread + Seq::<u8>::empty() =~= was.unread);
}

/// A segment at the delivery point with nothing waiting is delivered whole.
pub(crate) proof fn lemma_in_order(r: Reassembly, data: Seq<u8>)
    requires
        r.wf(),
        r.pending == Map::<u64, Seq<u8>>::empty(),
        r.offset + data.len() <= u64::MAX,
    ensures
        r.accepted(r.offset as u64, data) == (
            data,
            (Reassembly { offset: r.offset + data.len(), pending: r.pending }),
        ),
{
    if data.len() > 0 {
        let start = r.offset as u64;
        let whole = r.with_segment(start, data);
        assert(data.skip(0) =~= data);
        assert(whole =~= Map::<u64, Seq<u8>>::empty().insert(start, data));
        assert(crate::reassembly::is_floor(whole, r.offset, start));
        let k = choose|k: u64| crate::reassembly::is_floor(whole, r.offset, k);
        assert(k == start);
        assert(whole.remove(k) =~= Map::<u64, Seq<u8>>::empty());
        let rest = Map::<u64, Seq<u8>>::empty();
        let end = r.offset + data.len();
        assert(drained(rest, end) == (Seq::<u8>::empty(), rest, end)) by {
            assert(forall|j: u64| !crate::reassembly::is_floor(rest, end, j));
        }
        assert(drained(whole, r.offset).0 =~= data);
        assert(r.accepted(start, data).0 =~= data);
    }
}

/// A RESET_STREAM frame ends a stream for its reader: the code is what reading finds,
/// the stream becomes readable, and what had come of it is not touched, nor any other
/// stream.
pub proof fn law_reset_noted(
    c: Conn,
    now: Instant,
    packet_type: PacketType,
    id: u64,
    code: u64,
    final_size: u64,
    answers: FrameAnswers,
    other: u64,
)
    requires
        other != id,
    ensures
        ({
            let frame = FrameView::ResetStream { stream_id: id, error_code: code, final_size };
            let (after, r) = c.with_frame(now, packet_type, frame, answers);
            let (s, t) = (c.streams, after.streams);
            &&& r is Ok
            &&& t.recv.contains_key(id)
            &&& t.recv[id].reset == Some(code)
            &&& s.recv.contains_key(id) ==> t.recv[id].unread == s.recv[id].unread
                && t.recv[id].inbound == s.recv[id].inbound && t.recv[id].highest
                == s.recv[id].highest && t.recv[id].final_size == s.recv[id].final_size
            &&& !s.recv.contains_key(id) ==> t.recv[id].unread.len() == 0
                && t.recv[id].inbound.offset == 0 && t.recv[id].highest == 0
                && t.recv[id].final_size is None
            &&& t.readable == s.readable.push(StreamId(id))
            &&& t.recv.contains_key(other) == s.recv.contains_key(other)
            &&& s.recv.contains_key(other) ==> t.recv[other] == s.recv[other]
            &&& after == (Conn {
                streams: StreamsState { recv: t.recv, readable: t.readable, ..s },
                ..c
            })
        }),
{
    reveal(Conn::with_frame);
}

/// A STOP_SENDING frame makes this side reset a stream that it sends on: nothing lost is
/// sent again, and a RESET_STREAM frame is due that carries the number of bytes written
/// and the code of the first reset. For an unknown stream nothing happens.
pub proof fn law_stop_answered_by_reset(
    c: Conn,
    now: Instant,
    packet_type: PacketType,
    id: u64,
    code: u64,
    answers: FrameAnswers,
    other: u64,
)
    requires
        other != id,
    ensures
        ({
            let frame = FrameView::StopSending { stream_id: id, error_code: code };
            let (after, r) = c.with_frame(now, packet_type, frame, answers);
            let (s, t) = (c.streams, after.streams);
            &&& r is Ok
            &&& !s.send.contains_key(id) ==> after == c
            &&& s.send.contains_key(id) ==> {
                &&& t.pending_resets.contains_key(id)
                &&& t.pending_resets[id].1 == s.send[id].written
                &&& t.send.contains_key(id)
                &&& s.send[id].reset is None ==> t.pending_resets[id].0 == code
                    && t.send[id].reset == Some(code) && t.send[id].resend.len() == 0
                    && t.send[id].written == s.send[id].written
                &&& s.send[id].reset matches Some(first) ==> t.pending_resets[id].0 == first
                    && t.send[id] == s.send[id]
            }
            &&& t.send.contains_key(other) == s.send.contains_key(other)
            &&& s.send.contains_key(other) ==> t.send[other] == s.send[other]
            &&& t.pending_resets.contains_key(other) == s.pending_resets.contains_key(other)
            &&& s.pending_resets.contains_key(other) ==> t.pending_resets[other]
                == s.pending_resets[other]
            &&& after == (Conn {
                streams: StreamsState { send: t.send, pending_resets: t.pending_resets, ..s },
                ..c
            })
        }),
{
    reveal(Conn::with_frame);
}

/// MAX_DATA moves the limit on all streams together up to its value, MAX_STREAM_DATA
/// that on one stream; neither moves it down, and what has been sent still counts.
pub proof fn law_credit_granted(
    c: Conn,
    now: Instant,
    packet_type: PacketType,
    id: u64,
    max: u64,
    answers: FrameAnswers,
    other: u64,
)
    requires
        other != id,
    ensures
        ({
            let (after, r) = c.with_frame(now, packet_type, FrameView::MaxData(max), answers);
            let (before, credit) = (c.streams.conn_credit, after.streams.conn_credit);
            &&& r is Ok
            &&& credit.sent == before.sent
            &&& max <= before.limit ==> credit == before
            &&& max > before.limit ==> credit.limit == max && credit.blocked_at is None
            &&& after == (Conn {
                streams: StreamsState { conn_credit: credit, ..c.streams },
                ..c
            })
        }),
        ({
            let frame = FrameView::MaxStreamData { id, max };
            let (after, r) = c.with_frame(now, packet_type, frame, answers);
            let (s, t) = (c.streams, after.streams);
            let limit = if s.send_credit.contains_key(id) {
                s.send_credit[id].limit
            } else {
                s.peer_window as nat
            };
            &&& r is Ok
            &&& t.send_credit.contains_key(id)
            &&& t.send_credit[id].limit == if max > limit {
                max as nat
            } else {
                limit
            }
            &&& t.send_credit[id].sent == if s.send_credit.contains_key(id) {
                s.send_credit[id].sent
            } else {
                0
            }
            &&& max > limit ==> t.send_credit[id].blocked_at is None
            &&& s.send_credit.contains_key(id) && max <= limit ==> t.send_credit[id]
                == s.send_credit[id]
            &&& t.send_credit.contains_key(other) == s.send_credit.contains_key(other)
            &&& s.send_credit.contains_key(other) ==> t.send_credit[other] == s.send_credit[other]
            &&& after == (Conn { streams: StreamsState { send_credit: t.send_credit, ..s }, ..c })
        }),
{
    reveal(Conn::with_frame);
}

/// MAX_STREAMS and STREAMS_BLOCKED act on the limits of the direction that they name
/// alone. The first raises how many streams may be opened here. The second is answered by
/// a new limit, one stream more than at first for each that was closed, exactly if that
/// is more than the peer was last told.
pub proof fn law_stream_limits_by_direction(
    c: Conn,
    now: Instant,
    packet_type: PacketType,
    max: u64,
    answers: FrameAnswers,
)
    requires
        c.wf(),
    ensures
        ({
            let frame = FrameView::MaxStreams { dir: Direction::Bidirectional, max };
            let (after, r) = c.with_frame(now, packet_type, frame, answers);
            let t = after.streams;
            &&& r is Ok
            &&& t.bidi.peer_max == if max > c.streams.bidi.peer_max {
                max
            } else {
                c.streams.bidi.peer_max
            }
            &&& t.bidi == (StreamLimits { peer_max: t.bidi.peer_max, ..c.streams.bidi })
            &&& after == (Conn { streams: StreamsState { bidi: t.bidi, ..c.streams }, ..c })
        }),
        ({
            let frame = FrameView::MaxStreams { dir: Direction::Unidirectional, max };
            let (after, r) = c.with_frame(now, packet_type, frame, answers);
            let t = after.streams;
            &&& r is Ok
            &&& t.uni.peer_max == if max > c.streams.uni.peer_max {
                max
            } else {
                c.streams.uni.peer_max
            }
            &&& t.uni == (StreamLimits { peer_max: t.uni.peer_max, ..c.streams.uni })
            &&& after == (Conn { streams: StreamsState { uni: t.uni, ..c.streams }, ..c })
        }),
        ({
            let frame = FrameView::StreamsBlocked { dir: Direction::Bidirectional, limit: max };
            let (after, r) = c.with_frame(now, packet_type, frame, answers);
            let (s, t) = (c.streams, after.streams);
            &&& r is Ok
            &&& s.bidi.local_max + s.bidi.closed_peer > s.bidi.sent_max ==> t.bidi.pending_max
                == Some((s.bidi.local_max + s.bidi.closed_peer) as u64)
            &&& s.bidi.local_max + s.bidi.closed_peer <= s.bidi.sent_max ==> t.bidi == s.bidi
            &&& t.bidi == (StreamLimits { pending_max: t.bidi.pending_max, ..s.bidi })
            &&& after == (Conn { streams: StreamsState { bidi: t.bidi, ..s }, ..c })
        }),
        ({
            let frame = FrameView::StreamsBlocked { dir: Direction::Unidirectional, limit: max };
            let (after, r) = c.with_frame(now, packet_type, frame, answers);
            let (s, t) = (c.streams, after.streams);
            &&& r is Ok
            &&& s.uni.local_max + s.uni.closed_peer > s.uni.sent_max ==> t.uni.pending_max == Some(
                (s.uni.local_max + s.uni.closed_peer) as u64,
            )
            &&& s.uni.local_max + s.uni.closed_peer <= s.uni.sent_max ==> t.uni == s.uni
            &&& t.uni == (StreamLimits { pending_max: t.uni.pending_max, ..s.uni })
            &&& after == (Conn { streams: StreamsState { uni: t.uni, ..s }, ..c })
        }),
{
    reveal(Conn::with_frame);
}

/// PADDING, PING, DATA_BLOCKED, STREAM_DATA_BLOCKED and frames of unknown types leave a
/// connection as it is.
pub proof fn law_frames_without_effect(
    c: Conn,
    now: Instant,
    packet_type: PacketType,
    frame: FrameView,
    answers: FrameAnswers,
)
    requires
        frame is Padding || frame is Ping || frame is DataBlocked || frame is StreamDataBlocked
            || frame is Unsupported,
    ensures
        c.with_frame(now, packet_type, frame, answers) == (c, Ok::<(), ErrorView>(())),
{
    reveal(Conn::with_frame);
}

/// A PATH_CHALLENGE frame's data is what the next PATH_RESPONSE carries. A PATH_RESPONSE
/// frame with the data of the outstanding challenge validates the path, and the address
/// under test, if there is one, is the peer's from then on; any other response has no
/// effect.
pub proof fn law_path_frames(
    c: Conn,
    now: Instant,
    packet_type: PacketType,
    data: Seq<u8>,
    answers: FrameAnswers,
)
    ensures
        ({
            let (after, r) = c.with_frame(now, packet_type, FrameView::PathChallenge(data), answers);
            let (p, q) = (c.path, after.path);
            &&& r is Ok
            &&& q.response == Some(data)
            &&& q.peer_addr == p.peer_addr && q.candidate == p.candidate && q.challenge
                == p.challenge && q.challenge_send == p.challenge_send && q.validated
                == p.validated
            &&& after == (Conn { path: q, ..c })
        }),
        ({
            let (after, r) = c.with_frame(now, packet_type, FrameView::PathResponse(data), answers);
            let (p, q) = (c.path, after.path);
            &&& r is Ok
            &&& after == (Conn { path: q, ..c })
            &&& p.challenge != Some(data) ==> q == p
            &&& p.challenge == Some(data) ==> {
                &&& q.validated
                &&& q.challenge is None
                &&& q.candidate is None
                &&& p.candidate matches Some(addr) ==> q.peer_addr == addr
                &&& p.candidate is None ==> q.peer_addr == p.peer_addr
                &&& q.response == p.response
                &&& q.challenge_send == p.challenge_send
            }
        }),
{
    reveal(Conn::with_frame);
}

/// HANDSHAKE_DONE confirms the handshake at a client and means nothing to a server.
/// CONNECTION_CLOSE closes the connection and keeps the peer's reason: the code and text
/// as they came from an application, the code by its meaning from the transport.
pub proof fn law_handshake_done_and_close(
    c: Conn,
    now: Instant,
    packet_type: PacketType,
    code: u64,
    frame_type: u64,
    reason: Seq<u8>,
    answers: FrameAnswers,
)
    ensures
        ({
            let (after, r) = c.with_frame(now, packet_type, FrameView::HandshakeDone, answers);
            &&& r is Ok
            &&& c.role == Role::Client ==> after.handshake_done
            &&& c.role == Role::Server ==> after == c
            &&& after == (Conn { handshake_done: after.handshake_done, ..c })
        }),
        ({
            let frame = FrameView::ConnectionClose {
                error_code: code,
                application: true,
                frame_type,
                reason,
            };
            let (after, r) = c.with_frame(now, packet_type, frame, answers);
            &&& r is Ok
            &&& after.state == ConnectionState::Closed
            &&& after.peer_closed == Some(ErrorView::ApplicationClose(code, utf8_lossy(reason)))
            &&& after == (Conn { state: after.state, peer_closed: after.peer_closed, ..c })
        }),
        ({
            let frame = FrameView::ConnectionClose {
                error_code: code,
                application: false,
                frame_type,
                reason,
            };
            let (after, r) = c.with_frame(now, packet_type, frame, answers);
            &&& r is Ok
            &&& after.state == ConnectionState::Closed
            &&& after.peer_closed matches Some(ErrorView::TransportError(meaning, None, text))
                && text == utf8_lossy(reason) && (code == 0 ==> meaning
                == TransportErrorCode::NoError) && (code == 1 ==> meaning
                == TransportErrorCode::InternalError) && (code == 2 ==> meaning
                == TransportErrorCode::ConnectionRefused) && (code == 3 ==> meaning
                == TransportErrorCode::FlowControlError) && (code == 4 ==> meaning
                == TransportErrorCode::StreamLimitError) && (code == 5 ==> meaning
                == TransportErrorCode::StreamStateError) && (code == 6 ==> meaning
                == TransportErrorCode::FinalSizeError) && (code == 7 ==> meaning
                == TransportErrorCode::FrameEncodingError) && (code == 8 ==> meaning
                == TransportErrorCode::TransportParameterError) && (code == 9 ==> meaning
                == TransportErrorCode::ConnectionIdLimitError) && (code == 10 ==> meaning
                == TransportErrorCode::ProtocolViolation) && (code == 11 ==> meaning
                == TransportErrorCode::InvalidToken) && (code == 12 ==> meaning
                == TransportErrorCode::ApplicationError) && (code == 13 ==> meaning
                == TransportErrorCode::CryptoBufferExceeded) && (code == 14 ==> meaning
                == TransportErrorCode::KeyUpdateError) && (code == 15 ==> meaning
                == TransportErrorCode::AeadLimitReached) && (code == 16 ==> meaning
                == TransportErrorCode::NoViablePath) && (256 <= code < 512 ==> (meaning matches
                TransportErrorCode::CryptoError(alert) && alert == code - 256)) && (16 < code < 256
                || code >= 512 ==> meaning == TransportErrorCode::Unknown(code))
            &&& after == (Conn { state: after.state, peer_closed: after.peer_closed, ..c })
        }),
{
    reveal(Conn::with_frame);
}

/// A NEW_TOKEN frame is kept by a client that gets it in a 1-RTT packet; a server refuses
/// it, and so does a client that gets it in another packet. Either way nothing else
/// changes.
pub proof fn law_token_kept(
    c: Conn,
    now: Instant,
    packet_type: PacketType,
    token: Seq<u8>,
    answers: FrameAnswers,
)
    ensures
        ({
            let (after, r) = c.with_frame(now, packet_type, FrameView::NewToken(token), answers);
            let kept = c.role == Role::Client && packet_type == PacketType::Short;
            &&& r is Ok <==> kept
            &&& kept ==> after.received_token == Some(token) && after == (Conn {
                received_token: after.received_token,
                ..c
            })
            &&& !kept ==> after == c && (r matches Err(ErrorView::TransportError(code, t, text))
                && code == TransportErrorCode::ProtocolViolation && t == Some(FrameType::NewToken)
                && text == if c.role == Role::Server {
                "server received NEW_TOKEN"@
            } else {
                "NEW_TOKEN in non-1-RTT packet"@
            })
        }),
{
    reveal(Conn::with_frame);
}

/// A DATAGRAM frame is taken exactly if datagrams are taken at all and it is no larger
/// than announced. It goes to the end of the queue; the oldest one leaves, and only that
/// one, exactly if the bytes kept would be more than the limit.
pub proof fn law_datagram_taken(
    c: Conn,
    now: Instant,
    packet_type: PacketType,
    data: Seq<u8>,
    answers: FrameAnswers,
    first: Seq<u8>,
    rest: Seq<Seq<u8>>,
)
    ensures
        ({
            let (after, r) = c.with_frame(now, packet_type, FrameView::Datagram(data), answers);
            let (d, e) = (c.datagrams, after.datagrams);
            let taken = d.local_max > 0 && data.len() <= d.local_max;
            &&& r is Ok <==> taken
            &&& !taken ==> after == c && (r matches Err(ErrorView::TransportError(code, t, _))
                && code == TransportErrorCode::ProtocolViolation && t is None)
            &&& after == (Conn { datagrams: e, ..c })
            &&& e.local_max == d.local_max && e.limit == d.limit
            &&& taken && d.queue.len() == 0 ==> e.queue == seq![data]
            &&& taken && d.queue == seq![first] + rest && first.len() + super::datagrams::total_len(
                rest,
            ) + data.len() <= d.limit ==> e.queue == d.queue.push(data)
            &&& taken && d.queue == seq![first] + rest && first.len() + super::datagrams::total_len(
                rest,
            ) + data.len() > d.limit ==> e.queue == rest.push(data)
        }),
        super::datagrams::total_len(Seq::empty()) == 0,
        super::datagrams::total_len(seq![first]) == first.len(),
        super::datagrams::total_len(seq![first] + rest) == first.len()
            + super::datagrams::total_len(rest),
{
    reveal(Conn::with_frame);
    lemma_total_len_first(first, rest);
    lemma_total_len_first(first, Seq::empty());
    assert(seq![first] + Seq::<Seq<u8>>::empty() =~= seq![first]);
    assert((seq![first] + rest).drop_first() =~= rest);
    assert(c.datagrams.queue.len() == 0 ==> c.datagrams.queue.push(data) =~= seq![data]);
}

proof fn lemma_total_len_first(first: Seq<u8>, rest: Seq<Seq<u8>>)
    ensures
        super::datagrams::total_len(seq![first] + rest) == first.len()
            + super::datagrams::total_len(rest),
    decreases rest.len(),
{
    let all = seq![first] + rest;
    if rest.len() > 0 {
        assert(all.drop_last() =~= seq![first] + rest.drop_last());
        lemma_total_len_first(first, rest.drop_last());
    } else {
        assert(all.drop_last() =~= Seq::empty());
        assert(super::datagrams::total_len(all.drop_last()) == 0);
    }
}

/// Handshake data in an Initial packet goes to the Initial stream, that in a Handshake packet
/// to the Handshake stream, and in other packets nowhere. What is new and in order is handed
/// to TLS in one call; nothing is handed over if there is nothing new. TLS's refusal is
/// reported.
pub proof fn law_crypto_by_level(
    c: Conn,
    now: Instant,
    packet_type: PacketType,
    offset: u64,
    data: Seq<u8>,
    answers: FrameAnswers,
)
    requires
        c.wf(),
        offset + data.len() <= u64::MAX,
    ensures
        ({
            let (after, r) = c.with_frame(
                now,
                packet_type,
                FrameView::Crypto { offset, data },
                answers,
            );
            let moved = (after.initial_crypto.recv.offset - c.initial_crypto.recv.offset) + (
            after.handshake_crypto.recv.offset - c.handshake_crypto.recv.offset);
            &&& packet_type != PacketType::Initial ==> after.initial_crypto == c.initial_crypto
            &&& packet_type != PacketType::Handshake ==> after.handshake_crypto
                == c.handshake_crypto
            &&& packet_type != PacketType::Initial && packet_type != PacketType::Handshake
                ==> after == c && r is Ok
            &&& after.initial_crypto.send_buf == c.initial_crypto.send_buf
                && after.initial_crypto.resend == c.initial_crypto.resend
            &&& after.handshake_crypto.send_buf == c.handshake_crypto.send_buf
                && after.handshake_crypto.resend == c.handshake_crypto.resend
            &&& moved >= 0
            &&& moved == 0 ==> r is Ok && after.reads == c.reads && after.tls == c.tls
            &&& moved > 0 ==> {
                let read = after.reads.last();
                &&& after.reads == c.reads.push(read)
                &&& read.bytes.len() == moved
                &&& read.error == answers.tls.error
                &&& after.tls == answers.tls.after
                &&& read.error is None ==> r is Ok
                &&& read.error matches Some(e) ==> r == Err::<(), ErrorView>(
                    ErrorView::Tls(error_display(e)),
                )
            }
            &&& after == (Conn {
                initial_crypto: after.initial_crypto,
                handshake_crypto: after.handshake_crypto,
                tls: after.tls,
                reads: after.reads,
                ..c
            })
        }),
{
    reveal(Conn::with_frame);
    reveal(Conn::with_crypto);
    crate::reassembly::law_delivery_contiguous(c.initial_crypto.recv, offset, data);
    crate::reassembly::law_delivery_contiguous(c.handshake_crypto.recv, offset, data);
}

/// Handshake data that continues what was heard, with nothing waiting, is what TLS is handed.
pub proof fn law_crypto_in_order(
    c: Conn,
    now: Instant,
    data: Seq<u8>,
    answers: FrameAnswers,
)
    requires
        c.wf(),
        data.len() > 0,
        c.initial_crypto.recv.pending == Map::<u64, Seq<u8>>::empty(),
        c.handshake_crypto.recv.pending == Map::<u64, Seq<u8>>::empty(),
        c.initial_crypto.recv.offset + data.len() <= u64::MAX,
        c.handshake_crypto.recv.offset + data.len() <= u64::MAX,
    ensures
        ({
            let offset = c.initial_crypto.recv.offset as u64;
            let after = c.with_frame(
                now,
                PacketType::Initial,
                FrameView::Crypto { offset, data },
                answers,
            ).0;
            &&& after.reads == c.reads.push(HsRead { bytes: data, error: answers.tls.error })
            &&& after.initial_crypto.recv.offset == offset + data.len()
        }),
        ({
            let offset = c.handshake_crypto.recv.offset as u64;
            let after = c.with_frame(
                now,
                PacketType::Handshake,
                FrameView::Crypto { offset, data },
                answers,
            ).0;
            &&& after.reads == c.reads.push(HsRead { bytes: data, error: answers.tls.error })
            &&& after.handshake_crypto.recv.offset == offset + data.len()
        }),
{
    reveal(Conn::with_frame);
    reveal(Conn::with_crypto);
    lemma_in_order(c.initial_crypto.recv, data);
    lemma_in_order(c.handshake_crypto.recv, data);
}

/// A NEW_CONNECTION_ID frame is for 1-RTT packets alone. In one of those it goes to the
/// peer's identifiers as it is; if it is taken, its number is known to have come in this
/// packet.
pub proof fn law_new_cid_frame(
    c: Conn,
    now: Instant,
    packet_type: PacketType,
    seq: u64,
    retire_prior_to: u64,
    cid: Seq<u8>,
    token: Seq<u8>,
    answers: FrameAnswers,
)
    ensures
        ({
            let frame = FrameView::NewConnectionId { seq, retire_prior_to, cid, token };
            let (after, r) = c.with_frame(now, packet_type, frame, answers);
            &&& packet_type != PacketType::Short ==> after == c && r == Err::<(), ErrorView>(
                ErrorView::TransportError(
                    TransportErrorCode::ProtocolViolation,
                    Some(FrameType::NewConnectionId),
                    "NEW_CONNECTION_ID received in non-1-RTT packet"@,
                ),
            )
            &&& packet_type == PacketType::Short ==> (after.peer_cids, r) == c.peer_cids.received(
                CidView { seq, cid, token },
                retire_prior_to,
            )
            &&& packet_type == PacketType::Short && r is Ok ==> after.cids_this_packet.contains(seq)
            &&& forall|other: u64|
                other != seq || r is Err ==> #[trigger] after.cids_this_packet.contains(other)
                    == c.cids_this_packet.contains(other)
            &&& after == (Conn {
                peer_cids: after.peer_cids,
                cids_this_packet: after.cids_this_packet,
                ..c
            })
        }),
{
    reveal(Conn::with_frame);
    reveal(Conn::with_new_cid);
}

/// A RETIRE_CONNECTION_ID frame is for 1-RTT packets alone, and not for an identifier that
/// came in the same packet. An identifier issued here that it names is out of use, which
/// routing is told of; another is issued if the peer then has room: 24 random bytes are
/// drawn, of which eight are the identifier, and routing is told of it.
pub proof fn law_retire_cid_frame(
    c: Conn,
    now: Instant,
    packet_type: PacketType,
    k: int,
    answers: FrameAnswers,
)
    requires
        0 <= k < c.local_cids.active.len(),
        forall|i: int, j: int|
            0 <= i < j < c.local_cids.active.len() ==> (#[trigger] c.local_cids.active[i]).seq != (
            #[trigger] c.local_cids.active[j]).seq,
        c.local_cids.next_seq < u64::MAX,
        answers.wf(),
    ensures
        ({
            let old = c.local_cids.active[k];
            let frame = FrameView::RetireConnectionId { seq: old.seq };
            let (after, r) = c.with_frame(now, packet_type, frame, answers);
            let barred = packet_type != PacketType::Short || c.cids_this_packet.contains(old.seq);
            let left = c.local_cids.active.remove(k);
            let room = c.local_cids.active.len() <= c.local_cids.limit;
            let told = c.cid_events.push(CidEventView::Unregister(old.cid));
            &&& barred ==> after == c && (r matches Err(ErrorView::TransportError(code, t, _))
                && code == TransportErrorCode::ProtocolViolation && t == Some(
                FrameType::RetireConnectionId,
            ))
            &&& !barred ==> r is Ok
            &&& !barred && !room ==> after.local_cids.active == left && after.cid_events == told
                && after.draws == c.draws
            &&& !barred && room ==> after.draws == c.draws.push(
                Draw { len: 24, bytes: answers.random },
            )
            &&& !barred && room && answers.random is None ==> after.local_cids.active == left
                && after.cid_events == told
            &&& !barred && room ==> (answers.random matches Some(bytes) ==> {
                let new = CidView {
                    seq: c.local_cids.next_seq,
                    cid: bytes.take(8),
                    token: bytes.skip(8),
                };
                &&& after.local_cids.active == left.push(new)
                &&& after.local_cids.pending_new == c.local_cids.pending_new.push(new)
                &&& after.local_cids.next_seq == c.local_cids.next_seq + 1
                &&& after.cid_events == told.push(CidEventView::Register(bytes.take(8)))
            })
            &&& after == (Conn {
                local_cids: after.local_cids,
                cid_events: after.cid_events,
                draws: after.draws,
                ..c
            })
        }),
{
    reveal(Conn::with_frame);
    reveal(Conn::with_retired_cid);
    crate::cid::law_retirement_exact(c.local_cids, k, c.local_cids.active[k].seq);
}

/// Retiring a number that is not in use has no effect.
pub proof fn law_unknown_cid_not_retired(
    c: Conn,
    now: Instant,
    seq: u64,
    answers: FrameAnswers,
)
    requires
        forall|i: int|
            0 <= i < c.local_cids.active.len() ==> (#[trigger] c.local_cids.active[i]).seq != seq,
        !c.cids_this_packet.contains(seq),
    ensures
        c.with_frame(now, PacketType::Short, FrameView::RetireConnectionId { seq }, answers) == (
            c,
            Ok::<(), ErrorView>(()),
        ),
{
    reveal(Conn::with_frame);
    reveal(Conn::with_retired_cid);
    crate::cid::lemma_index_found(c.local_cids.active, seq);
}

/// An identifier is issued exactly if the peer keeps more than are in use: 24 random bytes are
/// drawn for it; if they come, the first eight are the identifier, which waits to be sent
/// and which routing is told of.
pub proof fn law_cid_issued(c: Conn, random: Option<Seq<u8>>)
    requires
        c.local_cids.next_seq < u64::MAX,
        random matches Some(bytes) ==> bytes.len() == 24,
    ensures
        ({
            let after = c.with_cid_issued(random);
            let room = c.local_cids.active.len() < c.local_cids.limit;
            &&& !room ==> after == c
            &&& room ==> after.draws == c.draws.push(Draw { len: 24, bytes: random })
            &&& room && random is None ==> after.local_cids == c.local_cids && after.cid_events
                == c.cid_events
            &&& room && random is Some ==> {
                let new = after.local_cids.active.last();
                &&& new.seq == c.local_cids.next_seq
                &&& new.cid.len() == 8
                &&& new.cid + new.token == random->Some_0
                &&& after.local_cids.active == c.local_cids.active.push(new)
                &&& after.local_cids.pending_new == c.local_cids.pending_new.push(new)
                &&& after.cid_events == c.cid_events.push(CidEventView::Register(new.cid))
            }
            &&& after == (Conn {
                local_cids: after.local_cids,
                cid_events: after.cid_events,
                draws: after.draws,
                ..c
            })
        }),
{
    match random {
        Some(bytes) => {
            crate::cid::law_issued_cids(c.local_cids, Seq::empty(), 0, bytes);
        },
        None => {},
    }
}

} // verus!
