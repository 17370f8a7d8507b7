//! What a connection is and how it changes.
//!
//! [`Conn`] is the state of a connection as a mathematical value. Its functions say
//! what each event makes of it. Where an event hands handshake bytes to TLS or draws
//! random bytes, what was answered is an argument, and the call is put on record in
//! [`Conn::reads`] or [`Conn::draws`]. What else TLS and keys give is determined by the
//! session and the keys, and named in [`crate::session`].
use super::datagrams::DatagramState;
use super::keys::KeyState;
use super::loss::RecoveryState;
use super::path::PathProbeState;
use super::streams::{StreamLimits, StreamsState};
use crate::cid::{CidEventView, CidView, LocalCids, PeerCids};
use crate::crypto_stream::CryptoState;
use crate::error::{ErrorView, FrameType, OxiQuicError, TransportErrorCode};
use crate::frame::{frame_at, AckRange, FrameView};
use crate::multipath::Paths;
use crate::recovery::{spec_space_index, SpaceIndex};
use crate::sent_packet::{SentFrameView, SentPacketView};
use crate::session::{error_display, utf8_lossy, Draw, HsRead, Tls};
use crate::space::SpaceState;
use crate::time::{Duration, Instant};
use crate::types::{ConnectionState, PacketType, Role};
use vstd::prelude::*;

verus! {

/// The state of a connection.
#[verifier::ext_equal]
pub struct Conn {
    /// Which side this is.
    pub role: Role,
    /// Where the connection is in its life.
    pub state: ConnectionState,
    /// Whether TLS has finished the handshake.
    pub handshake_complete: bool,
    /// Whether the handshake is confirmed (RFC 9001 Section 4.1.2).
    pub handshake_done: bool,
    /// The identifier issued to the peer first.
    pub local_cid: Seq<u8>,
    /// The identifier that the keys of Initial packets come from.
    pub initial_dcid: Seq<u8>,
    /// The identifier packets are sent to.
    pub peer_cid: Seq<u8>,
    /// Whether a Retry packet was accepted.
    pub retry_done: bool,
    /// The token that Initial packets carry.
    pub retry_token: Seq<u8>,
    /// How many Retry packets were accepted.
    pub retry_count: u64,
    /// The peer's address and its validation.
    pub path: PathProbeState,
    /// The known paths.
    pub multipath: Paths,
    /// The keys.
    pub keys: KeyState,
    /// The Initial packet number space.
    pub initial: SpaceState,
    /// The Handshake packet number space.
    pub handshake: SpaceState,
    /// The Application packet number space.
    pub application: SpaceState,
    /// Handshake data in Initial packets.
    pub initial_crypto: CryptoState,
    /// Handshake data in Handshake packets.
    pub handshake_crypto: CryptoState,
    /// Loss recovery.
    pub recovery: RecoveryState,
    /// The streams.
    pub streams: StreamsState,
    /// The identifiers issued to the peer.
    pub local_cids: LocalCids,
    /// The identifiers the peer issued.
    pub peer_cids: PeerCids,
    /// Sequence numbers of identifiers that came in the packet at hand.
    pub cids_this_packet: Set<u64>,
    /// Changes to the routing of datagrams.
    pub cid_events: Seq<CidEventView>,
    /// Datagrams received.
    pub datagrams: DatagramState,
    /// Why the peer closed the connection.
    pub peer_closed: Option<ErrorView>,
    /// A token for a later connection, received.
    pub received_token: Option<Seq<u8>>,
    /// A token for a later connection, to be sent.
    pub pending_new_token: Option<Seq<u8>>,
    /// How many datagrams came in.
    pub packets_recv: u64,
    /// How many bytes came in.
    pub bytes_recv: u64,
    /// After how many idle milliseconds the connection closes, zero for never.
    pub idle_timeout_ms: u64,
    /// When the connection closes if it stays idle.
    pub idle_deadline: Option<Instant>,
    /// The TLS session.
    pub tls: Tls,
    /// The cipher suite of Initial packets.
    pub suite: rustls::quic::Suite,
    /// The calls that handed handshake bytes to TLS.
    pub reads: Seq<HsRead>,
    /// The draws of random bytes.
    pub draws: Seq<Draw>,
}

/// What TLS made of handshake data.
pub struct TlsAnswer {
    /// The error, if it refused the data.
    pub error: Option<rustls::Error>,
    /// The session afterwards.
    pub after: Tls,
}

/// What the calls answered that a frame makes.
pub struct FrameAnswers {
    /// The answer of TLS to handshake data.
    pub tls: TlsAnswer,
    /// The random bytes of a new connection identifier.
    pub random: Option<Seq<u8>>,
}

impl FrameAnswers {
    /// No call was made.
    pub open spec fn none() -> FrameAnswers {
        FrameAnswers { tls: arbitrary(), random: None }
    }

    /// Random bytes come in the number asked for.
    pub open spec fn wf(self) -> bool {
        self.random matches Some(bytes) ==> bytes.len() == 24
    }
}

/// Whether a result is the one wanted.
pub open spec fn agrees<T>(r: Result<T, OxiQuicError>, want: Result<T, ErrorView>) -> bool {
    match want {
        Ok(v) => r matches Ok(w) && w == v,
        Err(error) => r matches Err(e) && e@ == error,
    }
}

/// A PROTOCOL_VIOLATION by a frame.
pub open spec fn violation(frame_type: FrameType, reason: Seq<char>) -> ErrorView {
    ErrorView::TransportError(TransportErrorCode::ProtocolViolation, Some(frame_type), reason)
}

/// Whether the offsets in a frame are in range, as they are in every frame that was
/// decoded.
pub open spec fn frame_fits(frame: FrameView) -> bool {
    match frame {
        FrameView::Crypto { offset, data } => offset + data.len() <= u64::MAX,
        FrameView::Stream { id, offset, fin, data } => offset + data.len() <= u64::MAX,
        _ => true,
    }
}

impl Conn {
    /// Every part is well formed.
    pub open spec fn wf(self) -> bool {
        &&& self.multipath.wf()
        &&& self.initial_crypto.wf()
        &&& self.handshake_crypto.wf()
        &&& self.recovery.wf()
        &&& self.streams.wf()
        &&& self.initial.wf()
        &&& self.handshake.wf()
        &&& self.application.wf()
        &&& self.retry_done || self.retry_count == 0
        &&& self.peer_closed matches Some(e) ==> e is TransportError || e is ApplicationClose
    }

    /// The probe timeout before any backoff.
    pub open spec fn pto_base(self) -> Duration {
        self.recovery.rtt.spec_pto_base(self.recovery.peer_max_ack_delay)
    }

    /// With one more draw of random bytes on record.
    pub open spec fn drawn(self, len: nat, bytes: Option<Seq<u8>>) -> Conn {
        Conn { draws: self.draws.push(Draw { len, bytes }), ..self }
    }

    /// After the idle timer was started over at `now`.
    pub open spec fn idle_armed(self, now: Instant) -> Conn {
        Conn {
            idle_deadline: if self.idle_timeout_ms == 0 {
                None
            } else {
                Some(Instant { nanos: (now.nanos + self.idle_timeout_ms * 1_000_000) as u128 })
            },
            ..self
        }
    }

    // Loss recovery

    /// After a lost frame was put back where it came from, to go out again. Probes
    /// of the path MTU and PINGs do not go out again.
    pub open spec fn requeued(self, space: SpaceIndex, frame: SentFrameView) -> Conn {
        match frame {
            SentFrameView::Crypto { offset, data } => if space == SpaceIndex::Handshake {
                Conn { handshake_crypto: self.handshake_crypto.requeued((offset, data)), ..self }
            } else {
                Conn { initial_crypto: self.initial_crypto.requeued((offset, data)), ..self }
            },
            SentFrameView::Stream { id, offset, fin, data } => Conn {
                streams: self.streams.with_lost_data(id, offset, data, fin),
                ..self
            },
            SentFrameView::Ping => self,
            SentFrameView::MtuProbe(size) => self,
            SentFrameView::NewConnectionId { seq, retire_prior_to, cid, token } => Conn {
                local_cids: LocalCids {
                    pending_new: self.local_cids.pending_new.push(CidView { seq, cid, token }),
                    ..self.local_cids
                },
                ..self
            },
            SentFrameView::RetireConnectionId { seq } => Conn {
                peer_cids: PeerCids {
                    pending_retire: self.peer_cids.pending_retire.push(seq),
                    ..self.peer_cids
                },
                ..self
            },
            SentFrameView::MaxStreams { dir, max } => Conn {
                streams: self.streams.with_limits(
                    dir,
                    self.streams.limits(dir).with_lost_max(max),
                ),
                ..self
            },
            SentFrameView::StreamsBlocked { dir, limit } => Conn {
                streams: self.streams.with_limits(
                    dir,
                    StreamLimits { pending_blocked: Some(limit), ..self.streams.limits(dir) },
                ),
                ..self
            },
            SentFrameView::NewToken { token } => if self.pending_new_token is None {
                Conn { pending_new_token: Some(token), ..self }
            } else {
                self
            },
        }
    }

    /// After several lost frames were put back in turn.
    pub open spec fn requeued_all(self, space: SpaceIndex, frames: Seq<SentFrameView>) -> Conn
        decreases frames.len(),
    {
        if frames.len() == 0 {
            self
        } else {
            self.requeued_all(space, frames.drop_last()).requeued(space, frames.last())
        }
    }

    /// After the frames of several lost packets were put back in turn.
    pub open spec fn requeued_packets(
        self,
        space: SpaceIndex,
        packets: Seq<SentPacketView>,
    ) -> Conn
        decreases packets.len(),
    {
        if packets.len() == 0 {
            self
        } else {
            self.requeued_packets(space, packets.drop_last()).requeued_all(
                space,
                packets.last().frames,
            )
        }
    }

    /// After the packets of a space that are lost at `now` left flight and their
    /// frames were put back.
    pub open spec fn with_losses(self, space: SpaceIndex, now: Instant) -> Conn {
        let lost = self.recovery.lost(space, now);
        (Conn { recovery: self.recovery.after_loss(space, now), ..self }).requeued_packets(
            space,
            lost,
        )
    }

    /// With the loss detection timer set.
    pub open spec fn timed(self) -> Conn {
        Conn { recovery: self.recovery.timed(), ..self }
    }

    /// With what a packet number space has seen of acknowledgements up to `largest`.
    pub open spec fn space_acked(self, packet_type: PacketType, largest: u64) -> Conn {
        match packet_type {
            PacketType::Initial => Conn { initial: self.initial.acked(largest), ..self },
            PacketType::Handshake => Conn { handshake: self.handshake.acked(largest), ..self },
            _ => Conn { application: self.application.acked(largest), ..self },
        }
    }

    /// After an ACK frame in a packet of this type: what it covers leaves flight, and
    /// if that is anything, losses are looked for and the timer is set.
    #[verifier::opaque]
    pub open spec fn with_ack(
        self,
        now: Instant,
        packet_type: PacketType,
        largest: u64,
        delay: u64,
        first_range: u64,
        ranges: Seq<AckRange>,
    ) -> Conn {
        let space = spec_space_index(packet_type);
        let newly = self.recovery.sent(space).newly_acked(largest, first_range, ranges);
        let noted = self.space_acked(packet_type, largest);
        let acked = Conn {
            recovery: self.recovery.acked(
                now,
                space,
                self.handshake_done,
                largest,
                delay,
                first_range,
                ranges,
            ),
            ..noted
        };
        if newly.len() == 0 {
            acked
        } else {
            acked.with_losses(space, now).timed()
        }
    }

    /// After the oldest outstanding data of each space was put back, for probes to
    /// carry.
    pub open spec fn probing(self) -> Conn {
        let r = self.recovery;
        self.requeued_all(SpaceIndex::Initial, r.probe_frames(SpaceIndex::Initial)).requeued_all(
            SpaceIndex::Handshake,
            r.probe_frames(SpaceIndex::Handshake),
        ).requeued_all(SpaceIndex::Application, r.probe_frames(SpaceIndex::Application))
    }

    /// After the loss detection timer fired at `now` (RFC 9002 Section A.9): packets
    /// that are lost for their age leave flight, else probes are owed if anything is
    /// outstanding.
    pub open spec fn timed_out(self, now: Instant) -> Conn {
        match self.recovery.expired_space(now) {
            Some(space) => self.with_losses(space, now).timed(),
            None => if self.recovery.earliest_eliciting() is Some {
                (Conn { recovery: self.recovery.probing(), ..self }).probing().timed()
            } else {
                self.timed()
            },
        }
    }

    // Frames

    /// What handshake data leads to: the bytes that are now in order go to TLS. Only
    /// Initial and Handshake packets carry any.
    #[verifier::opaque]
    pub open spec fn with_crypto(
        self,
        packet_type: PacketType,
        offset: u64,
        data: Seq<u8>,
        answer: TlsAnswer,
    ) -> (Conn, Result<(), ErrorView>) {
        match packet_type {
            PacketType::Initial => {
                let (bytes, recv) = self.initial_crypto.recv.accepted(offset, data);
                (Conn {
                    initial_crypto: CryptoState { recv, ..self.initial_crypto },
                    ..self
                }).delivered(bytes, answer)
            },
            PacketType::Handshake => {
                let (bytes, recv) = self.handshake_crypto.recv.accepted(offset, data);
                (Conn {
                    handshake_crypto: CryptoState { recv, ..self.handshake_crypto },
                    ..self
                }).delivered(bytes, answer)
            },
            _ => (self, Ok(())),
        }
    }

    /// After `bytes`, if there are any, were handed to TLS.
    pub open spec fn delivered(self, bytes: Seq<u8>, answer: TlsAnswer) -> (
        Conn,
        Result<(), ErrorView>,
    ) {
        if bytes.len() == 0 {
            (self, Ok(()))
        } else {
            (
                Conn {
                    tls: answer.after,
                    reads: self.reads.push(HsRead { bytes, error: answer.error }),
                    ..self
                },
                match answer.error {
                    Some(e) => Err(ErrorView::Tls(error_display(e))),
                    None => Ok(()),
                },
            )
        }
    }

    /// What a NEW_CONNECTION_ID frame leads to; it is only allowed in 1-RTT packets.
    #[verifier::opaque]
    pub open spec fn with_new_cid(
        self,
        packet_type: PacketType,
        new: CidView,
        retire_prior_to: u64,
    ) -> (Conn, Result<(), ErrorView>) {
        if packet_type != PacketType::Short {
            (
                self,
                Err(
                    violation(
                        FrameType::NewConnectionId,
                        "NEW_CONNECTION_ID received in non-1-RTT packet"@,
                    ),
                ),
            )
        } else {
            let (peer_cids, r) = self.peer_cids.received(new, retire_prior_to);
            (
                Conn {
                    peer_cids,
                    cids_this_packet: if r is Ok {
                        self.cids_this_packet.insert(new.seq)
                    } else {
                        self.cids_this_packet
                    },
                    ..self
                },
                r,
            )
        }
    }

    /// After an identifier was issued if the peer has room for one: 24 random bytes
    /// are drawn for it, and datagrams sent to it are ours.
    pub open spec fn with_cid_issued(self, random: Option<Seq<u8>>) -> Conn {
        if !self.local_cids.has_room() {
            self
        } else {
            let asked = self.drawn(24, random);
            match random {
                Some(bytes) => Conn {
                    local_cids: self.local_cids.with_issued(bytes),
                    cid_events: self.cid_events.push(CidEventView::Register(bytes.take(8))),
                    ..asked
                },
                None => asked,
            }
        }
    }

    /// What a RETIRE_CONNECTION_ID frame leads to: a known identifier is no longer
    /// ours, and another is issued for it. It is only allowed in 1-RTT packets, and
    /// not for an identifier that came in the same packet (RFC 9000 Section 19.16).
    #[verifier::opaque]
    pub open spec fn with_retired_cid(
        self,
        packet_type: PacketType,
        seq: u64,
        random: Option<Seq<u8>>,
    ) -> (Conn, Result<(), ErrorView>) {
        if packet_type != PacketType::Short {
            (
                self,
                Err(
                    violation(
                        FrameType::RetireConnectionId,
                        "RETIRE_CONNECTION_ID received in non-1-RTT packet"@,
                    ),
                ),
            )
        } else if self.cids_this_packet.contains(seq) {
            (
                self,
                Err(
                    violation(
                        FrameType::RetireConnectionId,
                        "RETIRE_CONNECTION_ID for CID issued in same packet"@,
                    ),
                ),
            )
        } else {
            match self.local_cids.retired(seq) {
                Some(cid) => (
                    (Conn {
                        local_cids: self.local_cids.after_retirement(seq),
                        cid_events: self.cid_events.push(CidEventView::Unregister(cid)),
                        ..self
                    }).with_cid_issued(random),
                    Ok(()),
                ),
                None => (self, Ok(())),
            }
        }
    }

    /// Why the peer closed the connection.
    pub open spec fn close_reason(
        error_code: u64,
        application: bool,
        reason: Seq<u8>,
    ) -> ErrorView {
        if application {
            ErrorView::ApplicationClose(error_code, utf8_lossy(reason))
        } else {
            ErrorView::TransportError(
                TransportErrorCode::spec_from_u64(error_code),
                None,
                utf8_lossy(reason),
            )
        }
    }

    /// What a NEW_TOKEN frame leads to; only a server sends one, in a 1-RTT packet.
    pub open spec fn with_token(self, packet_type: PacketType, token: Seq<u8>) -> (
        Conn,
        Result<(), ErrorView>,
    ) {
        if self.role == Role::Server {
            (self, Err(violation(FrameType::NewToken, "server received NEW_TOKEN"@)))
        } else if packet_type != PacketType::Short {
            (self, Err(violation(FrameType::NewToken, "NEW_TOKEN in non-1-RTT packet"@)))
        } else {
            (Conn { received_token: Some(token), ..self }, Ok(()))
        }
    }

    /// What a DATAGRAM frame leads to.
    pub open spec fn with_datagram(self, data: Seq<u8>) -> (Conn, Result<(), ErrorView>) {
        match self.datagrams.fault(data.len()) {
            Some(error) => (self, Err(error)),
            None => (Conn { datagrams: self.datagrams.with_datagram(data), ..self }, Ok(())),
        }
    }

    /// What a frame in a packet of this type leads to.
    #[verifier::opaque]
    pub open spec fn with_frame(
        self,
        now: Instant,
        packet_type: PacketType,
        frame: FrameView,
        answers: FrameAnswers,
    ) -> (Conn, Result<(), ErrorView>) {
        match frame {
            FrameView::Padding(_) => (self, Ok(())),
            FrameView::Ping => (self, Ok(())),
            FrameView::Ack { largest, delay, first_range, ranges } => (
                self.with_ack(now, packet_type, largest, delay, first_range, ranges),
                Ok(()),
            ),
            FrameView::ResetStream { stream_id, error_code, final_size } => (
                Conn { streams: self.streams.with_reset(stream_id, error_code), ..self },
                Ok(()),
            ),
            FrameView::StopSending { stream_id, error_code } => (
                Conn { streams: self.streams.with_stop(stream_id, error_code), ..self },
                Ok(()),
            ),
            FrameView::Crypto { offset, data } => self.with_crypto(
                packet_type,
                offset,
                data,
                answers.tls,
            ),
            FrameView::NewToken(token) => self.with_token(packet_type, token),
            FrameView::Stream { id, offset, fin, data } => {
                let (streams, r) = self.streams.with_data(self.role, id, offset, fin, data);
                (Conn { streams, ..self }, r)
            },
            FrameView::MaxData(max) => (
                Conn {
                    streams: StreamsState {
                        conn_credit: self.streams.conn_credit.raised(max as nat),
                        ..self.streams
                    },
                    ..self
                },
                Ok(()),
            ),
            FrameView::MaxStreamData { id, max } => (
                Conn { streams: self.streams.with_max_stream_data(id, max), ..self },
                Ok(()),
            ),
            FrameView::MaxStreams { dir, max } => (
                Conn {
                    streams: self.streams.with_limits(
                        dir,
                        self.streams.limits(dir).with_peer_max(max),
                    ),
                    ..self
                },
                Ok(()),
            ),
            FrameView::DataBlocked(_) => (self, Ok(())),
            FrameView::StreamDataBlocked { id, limit } => (self, Ok(())),
            FrameView::StreamsBlocked { dir, limit } => (
                Conn {
                    streams: self.streams.with_limits(dir, self.streams.limits(dir).raised()),
                    ..self
                },
                Ok(()),
            ),
            FrameView::NewConnectionId { seq, retire_prior_to, cid, token } => self.with_new_cid(
                packet_type,
                CidView { seq, cid, token },
                retire_prior_to,
            ),
            FrameView::RetireConnectionId { seq } => self.with_retired_cid(
                packet_type,
                seq,
                answers.random,
            ),
            FrameView::PathChallenge(data) => (
                Conn { path: self.path.asked(data), ..self },
                Ok(()),
            ),
            FrameView::PathResponse(data) => (
                Conn { path: self.path.answered(data), ..self },
                Ok(()),
            ),
            FrameView::ConnectionClose { error_code, application, frame_type, reason } => (
                Conn {
                    peer_closed: Some(Conn::close_reason(error_code, application, reason)),
                    state: ConnectionState::Closed,
                    ..self
                },
                Ok(()),
            ),
            FrameView::HandshakeDone => (
                Conn { handshake_done: self.handshake_done || self.role == Role::Client, ..self },
                Ok(()),
            ),
            FrameView::Datagram(data) => self.with_datagram(data),
            FrameView::Unsupported(_) => (self, Ok(())),
        }
    }
}

/// How far the frames of a packet have been worked through.
pub struct FrameRun {
    /// The connection.
    pub conn: Conn,
    /// What is left of the payload.
    pub rest: Seq<u8>,
    /// Whether a frame was met that the peer wants acknowledged.
    pub ack_eliciting: bool,
    /// The error that ended the run.
    pub error: Option<ErrorView>,
}

impl FrameRun {
    /// The start of a packet.
    pub open spec fn start(conn: Conn, payload: Seq<u8>) -> FrameRun {
        FrameRun {
            conn: Conn { cids_this_packet: Set::empty(), ..conn },
            rest: payload,
            ack_eliciting: false,
            error: None,
        }
    }

    /// Whether there is nothing more to do.
    pub open spec fn over(self) -> bool {
        self.error is Some || self.rest.len() == 0
    }

    /// After one more frame. A payload that does not decode ends the run.
    pub open spec fn step(self, now: Instant, packet_type: PacketType, answers: FrameAnswers) -> FrameRun {
        if self.over() {
            self
        } else {
            match frame_at(self.rest) {
                Err(detail) => FrameRun {
                    error: Some(
                        ErrorView::TransportError(
                            TransportErrorCode::FrameEncodingError,
                            None,
                            detail,
                        ),
                    ),
                    ..self
                },
                Ok((frame, rest)) => {
                    let (conn, r) = self.conn.with_frame(now, packet_type, frame, answers);
                    FrameRun {
                        conn,
                        rest,
                        ack_eliciting: self.ack_eliciting || frame.ack_eliciting(),
                        error: match r {
                            Ok(_) => None,
                            Err(e) => Some(e),
                        },
                    }
                },
            }
        }
    }

    /// After as many frames as there are answers.
    pub open spec fn run(
        conn: Conn,
        now: Instant,
        packet_type: PacketType,
        payload: Seq<u8>,
        answers: Seq<FrameAnswers>,
    ) -> FrameRun
        decreases answers.len(),
    {
        if answers.len() == 0 {
            FrameRun::start(conn, payload)
        } else {
            FrameRun::run(conn, now, packet_type, payload, answers.drop_last()).step(
                now,
                packet_type,
                answers.last(),
            )
        }
    }

    /// What the run came to.
    pub open spec fn result(self) -> Result<bool, ErrorView> {
        match self.error {
            Some(e) => Err(e),
            None => Ok(self.ack_eliciting),
        }
    }
}

} // verus!
