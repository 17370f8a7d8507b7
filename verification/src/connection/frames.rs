//! Frame dispatch: what the frames of a decrypted packet do to a connection.
use super::model::{agrees, frame_fits, Conn, FrameAnswers, FrameRun, TlsAnswer};
use super::Connection;
use crate::cid::{CidEvent, CidView};
use crate::coding::Buf;
use crate::error::{
    frame_violation, transport_error, ConnectionFault, ErrorView, FrameType, OxiQuicError,
    TransportErrorCode,
};
use crate::frame::{decode_frame, frame_at, Frame};
use crate::session::{error_text, opt_bytes, text_lossy};
use crate::time::Instant;
use crate::types::{copy_bytes, ConnectionId, ConnectionState, PacketType, Role};
use vstd::prelude::*;

verus! {

impl Connection {
    /// Decode and act on the frames in a decrypted packet payload. Returns
    /// whether the packet was ack-eliciting.
    ///
    /// # Errors
    /// The error of the first frame that cannot be decoded or is not allowed; the
    /// frames before it have taken effect.
    pub fn process_frames(&mut self, now: Instant, packet_type: PacketType, payload: &[u8]) -> (r:
        Result<bool, OxiQuicError>)
        requires
            old(self)@.wf(),
            now.in_range(),
        ensures
            final(self)@.wf(),
            exists|answers: Seq<FrameAnswers>|
                #![trigger FrameRun::run(old(self)@, now, packet_type, payload@, answers)]
                {
                    let run = FrameRun::run(old(self)@, now, packet_type, payload@, answers);
                    &&& forall|i: int| 0 <= i < answers.len() ==> (#[trigger] answers[i]).wf()
                    &&& run.over()
                    &&& final(self)@ == run.conn
                    &&& agrees(r, run.result())
                },
    {
        // Clear the per-packet scratch set used for RFC 9000 Section 19.16
        // same-packet RETIRE_CONNECTION_ID validation.
        self.cids_this_packet.clear();
        let mut buf = Buf::new(payload);
        let mut ack_eliciting: bool = false;
        let ghost start = old(self)@;
        let ghost mut answers: Seq<FrameAnswers> = Seq::empty();
        while !buf.is_empty()
            invariant
                self@.wf(),
                now.in_range(),
                start == old(self)@,
                forall|i: int| 0 <= i < answers.len() ==> (#[trigger] answers[i]).wf(),
                FrameRun::run(start, now, packet_type, payload@, answers) == (FrameRun {
                    conn: self@,
                    rest: buf@,
                    ack_eliciting,
                    error: None,
                }),
            decreases buf@.len(),
        {
            let ghost before = FrameRun::run(start, now, packet_type, payload@, answers);
            proof {
                crate::frame::law_frame_progress(buf@);
                lemma_decoded_fits(buf@);
            }
            let frame = match decode_frame(&mut buf) {
                Ok(frame) => frame,
                Err(e) => {
                    proof {
                        let a = FrameAnswers::none();
                        let more = answers.push(a);
                        assert(more.drop_last() =~= answers);
                        let run = FrameRun::run(start, now, packet_type, payload@, more);
                        assert(run == before.step(now, packet_type, a));
                        assert forall|i: int| 0 <= i < more.len() implies (#[trigger] more[i]).wf() by {
                            if i < answers.len() {
                                assert(more[i] == answers[i]);
                            }
                        }
                    }
                    return Err(transport_error(e.code, e.detail));
                },
            };
            let ghost f = frame@;
            let eliciting = frame.is_ack_eliciting();
            let ghost at = self@;
            let r = self.handle_frame(now, packet_type, frame);
            proof {
                let a = choose|a: FrameAnswers|
                    #![trigger at.with_frame(now, packet_type, f, a)]
                    {
                        &&& a.wf()
                        &&& self@ == at.with_frame(now, packet_type, f, a).0
                        &&& agrees(r, at.with_frame(now, packet_type, f, a).1)
                    };
                let more = answers.push(a);
                assert(more.drop_last() =~= answers);
                assert(FrameRun::run(start, now, packet_type, payload@, more) == before.step(
                    now,
                    packet_type,
                    a,
                ));
                assert forall|i: int| 0 <= i < more.len() implies (#[trigger] more[i]).wf() by {
                    if i < answers.len() {
                        assert(more[i] == answers[i]);
                    }
                }
                answers = more;
            }
            match r {
                Ok(()) => {},
                Err(e) => return Err(e),
            }
            ack_eliciting = ack_eliciting || eliciting;
        }
        Ok(ack_eliciting)
    }

    /// Acts on one frame of a packet of type `packet_type`.
    ///
    /// # Errors
    /// The error to close the connection with if the frame is not allowed.
    pub fn handle_frame(&mut self, now: Instant, packet_type: PacketType, frame: Frame<'_>) -> (r:
        Result<(), OxiQuicError>)
        requires
            old(self)@.wf(),
            now.in_range(),
            frame_fits(frame@),
        ensures
            final(self)@.wf(),
            exists|answers: FrameAnswers|
                #![trigger old(self)@.with_frame(now, packet_type, frame@, answers)]
                {
                    &&& answers.wf()
                    &&& final(self)@ == old(self)@.with_frame(now, packet_type, frame@, answers).0
                    &&& agrees(r, old(self)@.with_frame(now, packet_type, frame@, answers).1)
                },
    {
        let ghost f = frame@;
        let ghost c = self@;
        let ghost none = FrameAnswers::none();
        proof {
            reveal(Conn::with_frame);
        }
        match frame {
            Frame::Crypto { offset, data } => {
                let r = self.recv_crypto(packet_type, offset, data);
                proof {
                    let tls = choose|tls: TlsAnswer|
                        #![trigger c.with_crypto(packet_type, offset, data@, tls)]
                        {
                            &&& self@ == c.with_crypto(packet_type, offset, data@, tls).0
                            &&& agrees(r, c.with_crypto(packet_type, offset, data@, tls).1)
                        };
                    let a = FrameAnswers { tls, random: None };
                    assert(c.with_frame(now, packet_type, f, a) == c.with_crypto(
                        packet_type,
                        offset,
                        data@,
                        tls,
                    ));
                }
                r
            },
            Frame::RetireConnectionId { seq } => {
                let r = self.recv_retire_cid(packet_type, seq);
                proof {
                    let random = choose|random: Option<Seq<u8>>|
                        #![trigger c.with_retired_cid(packet_type, seq, random)]
                        {
                            &&& random matches Some(bytes) ==> bytes.len() == 24
                            &&& self@ == c.with_retired_cid(packet_type, seq, random).0
                            &&& agrees(r, c.with_retired_cid(packet_type, seq, random).1)
                        };
                    let a = FrameAnswers { random, ..none };
                    assert(c.with_frame(now, packet_type, f, a) == c.with_retired_cid(
                        packet_type,
                        seq,
                        random,
                    ));
                }
                r
            },
            other => {
                let r = self.handle_plain_frame(now, packet_type, other);
                assert(self@ == c.with_frame(now, packet_type, f, none).0);
                r
            },
        }
    }

    /// Acts on a frame that needs neither TLS nor random bytes.
    fn handle_plain_frame(&mut self, now: Instant, packet_type: PacketType, frame: Frame<'_>) -> (r:
        Result<(), OxiQuicError>)
        requires
            old(self)@.wf(),
            now.in_range(),
            frame_fits(frame@),
            !(frame@ is Crypto),
            !(frame@ is RetireConnectionId),
        ensures
            final(self)@.wf(),
            ({
                let none = FrameAnswers::none();
                let (conn, want) = old(self)@.with_frame(now, packet_type, frame@, none);
                final(self)@ == conn && agrees(r, want)
            }),
    {
        proof {
            reveal(Conn::with_frame);
        }
        match frame {
            Frame::Padding(_) | Frame::Ping => Ok(()),
            Frame::Ack { largest, delay, first_range, ranges } => {
                self.process_ack(
                    now,
                    packet_type,
                    largest,
                    delay,
                    first_range,
                    ranges.as_slice(),
                );
                Ok(())
            },
            Frame::DataBlocked(_) | Frame::StreamDataBlocked { .. } => {
                // The peer reports it is blocked sending to us; our receive-side
                // limit advances as the application reads, so no immediate action
                // beyond acknowledgement is required.
                Ok(())
            },
            Frame::PathChallenge(_) | Frame::PathResponse(_) | Frame::HandshakeDone
            | Frame::ConnectionClose { .. } => {
                self.handle_state_frame(now, packet_type, frame);
                Ok(())
            },
            Frame::NewConnectionId { .. } | Frame::NewToken(_) | Frame::Datagram(_) =>
                self.handle_checked_frame(now, packet_type, frame),
            Frame::Unsupported(_) => Ok(()),
            Frame::Crypto { .. } | Frame::RetireConnectionId { .. } => Ok(()),
            other => self.handle_stream_frame(now, packet_type, other),
        }
    }

    /// Acts on a frame about the path or the state of the connection, none of which can
    /// be at fault.
    fn handle_state_frame(&mut self, now: Instant, packet_type: PacketType, frame: Frame<'_>)
        requires
            old(self)@.wf(),
            frame@ is PathChallenge || frame@ is PathResponse || frame@ is HandshakeDone
                || frame@ is ConnectionClose,
        ensures
            final(self)@.wf(),
            old(self)@.with_frame(now, packet_type, frame@, FrameAnswers::none()) == (
                final(self)@,
                Ok::<(), ErrorView>(()),
            ),
    {
        proof {
            reveal(Conn::with_frame);
        }
        match frame {
            Frame::PathChallenge(data) => self.recv_path_challenge(data),
            Frame::PathResponse(data) => self.recv_path_response(data),
            Frame::ConnectionClose { error_code, application, frame_type: _, reason } =>
                self.recv_close(error_code, application, reason.as_slice()),
            _ => {
                if self.role == Role::Client {
                    self.handshake_done = true;
                }
            },
        }
    }

    /// Acts on a frame that gives something to this end, and may be at fault.
    fn handle_checked_frame(&mut self, now: Instant, packet_type: PacketType, frame: Frame<'_>) ->
        (r: Result<(), OxiQuicError>)
        requires
            old(self)@.wf(),
            frame@ is NewConnectionId || frame@ is NewToken || frame@ is Datagram,
        ensures
            final(self)@.wf(),
            ({
                let none = FrameAnswers::none();
                let (conn, want) = old(self)@.with_frame(now, packet_type, frame@, none);
                final(self)@ == conn && agrees(r, want)
            }),
    {
        proof {
            reveal(Conn::with_frame);
        }
        match frame {
            Frame::NewConnectionId { seq, retire_prior_to, cid, stateless_reset_token } =>
                self.recv_new_cid(packet_type, seq, retire_prior_to, cid, stateless_reset_token),
            Frame::NewToken(token) => self.recv_new_token(packet_type, token),
            Frame::Datagram(data) => self.recv_datagram_frame(data),
            _ => Ok(()),
        }
    }

    /// Acts on a frame about streams or their limits.
    fn handle_stream_frame(&mut self, now: Instant, packet_type: PacketType, frame: Frame<'_>) -> (r:
        Result<(), OxiQuicError>)
        requires
            old(self)@.wf(),
            frame_fits(frame@),
            frame@ is ResetStream || frame@ is StopSending || frame@ is Stream || frame@ is MaxData
                || frame@ is MaxStreamData || frame@ is MaxStreams || frame@ is StreamsBlocked,
        ensures
            final(self)@.wf(),
            ({
                let none = FrameAnswers::none();
                let (conn, want) = old(self)@.with_frame(now, packet_type, frame@, none);
                final(self)@ == conn && agrees(r, want)
            }),
    {
        proof {
            reveal(Conn::with_frame);
        }
        let ghost c = self@;
        let ghost f = frame@;
        let r = match frame {
            Frame::ResetStream { stream_id, error_code, final_size: _ } => {
                self.streams.recv_reset_stream(stream_id, error_code);
                Ok(())
            },
            Frame::StopSending { stream_id, error_code } => {
                self.streams.recv_stop_sending(stream_id, error_code);
                Ok(())
            },
            Frame::Stream { id, offset, fin, data } => self.streams.recv_stream(
                self.role,
                id,
                offset,
                fin,
                data,
            ),
            Frame::MaxData(max) => {
                // RFC 9000 Section 4.1: raise our connection-level send limit.
                self.streams.on_max_data(max);
                Ok(())
            },
            Frame::MaxStreamData { id, max } => {
                self.streams.on_max_stream_data(id, max);
                Ok(())
            },
            Frame::MaxStreams { dir, max } => {
                // RFC 9000 Section 19.11: raise our stream-opening limit.
                self.streams.on_max_streams(dir, max);
                Ok(())
            },
            Frame::StreamsBlocked { dir, limit: _ } => {
                // Peer wants more streams: proactively raise our advertised limit
                // if we have headroom (RFC 9000 Section 19.14).
                self.streams.maybe_raise_max_streams(dir);
                Ok(())
            },
            _ => Ok(()),
        };
        assert(self@ == (Conn { streams: self@.streams, ..c }));
        r
    }

    /// A PATH_CHALLENGE came in.
    fn recv_path_challenge(&mut self, data: [u8; 8])
        requires
            old(self)@.wf(),
        ensures
            final(self)@.wf(),
            final(self)@ == (Conn { path: old(self)@.path.asked(data@), ..old(self)@ }),
    {
        self.path.on_path_challenge(data);
    }

    /// A PATH_RESPONSE came in.
    fn recv_path_response(&mut self, data: [u8; 8])
        requires
            old(self)@.wf(),
        ensures
            final(self)@.wf(),
            final(self)@ == (Conn { path: old(self)@.path.answered(data@), ..old(self)@ }),
    {
        self.path.on_path_response(data);
    }

    /// The peer issued an identifier.
    fn recv_new_cid(
        &mut self,
        packet_type: PacketType,
        seq: u64,
        retire_prior_to: u64,
        cid: ConnectionId,
        stateless_reset_token: [u8; 16],
    ) -> (r: Result<(), OxiQuicError>)
        requires
            old(self)@.wf(),
        ensures
            final(self)@.wf(),
            ({
                let new = CidView { seq, cid: cid@, token: stateless_reset_token@ };
                let (conn, want) = old(self)@.with_new_cid(packet_type, new, retire_prior_to);
                final(self)@ == conn && agrees(r, want)
            }),
    {
        proof {
            reveal(Conn::with_new_cid);
        }
        // NEW_CONNECTION_ID is only valid in 1-RTT (Application) space
        // (RFC 9000 Section 19.15 forbids it in Initial/Handshake).
        if packet_type != PacketType::Short {
            return Err(
                frame_violation(
                    FrameType::NewConnectionId,
                    "NEW_CONNECTION_ID received in non-1-RTT packet",
                ),
            );
        }
        match self.peer_cids.receive_new_cid(seq, retire_prior_to, cid, stateless_reset_token) {
            Ok(()) => {},
            Err(e) => return Err(e),
        }
        // Track this seq for same-packet RETIRE_CONNECTION_ID validation.
        self.cids_this_packet.insert(seq);
        Ok(())
    }

    /// The peer closed the connection.
    fn recv_close(&mut self, error_code: u64, application: bool, reason: &[u8])
        requires
            old(self)@.wf(),
        ensures
            final(self)@.wf(),
            final(self)@ == (Conn {
                peer_closed: Some(Conn::close_reason(error_code, application, reason@)),
                state: ConnectionState::Closed,
                ..old(self)@
            }),
    {
        let reason = text_lossy(reason);
        self.peer_closed =
        Some(
            if application {
                OxiQuicError::ApplicationClose { code: error_code, reason }
            } else {
                OxiQuicError::TransportError {
                    code: TransportErrorCode::from_u64(error_code),
                    frame_type: None,
                    reason,
                }
            },
        );
        self.state = ConnectionState::Closed;
    }

    /// The server sent a token for a later connection.
    fn recv_new_token(&mut self, packet_type: PacketType, token: &[u8]) -> (r: Result<
        (),
        OxiQuicError,
    >)
        requires
            old(self)@.wf(),
        ensures
            final(self)@.wf(),
            ({
                let (conn, want) = old(self)@.with_token(packet_type, token@);
                final(self)@ == conn && agrees(r, want)
            }),
    {
        // RFC 9000 Section 19.7: server receiving NEW_TOKEN is a PROTOCOL_VIOLATION.
        if self.role == Role::Server {
            return Err(frame_violation(FrameType::NewToken, "server received NEW_TOKEN"));
        }
        // Only valid in 1-RTT (Short header) space.

        if packet_type != PacketType::Short {
            return Err(frame_violation(FrameType::NewToken, "NEW_TOKEN in non-1-RTT packet"));
        }
        self.received_token = Some(copy_bytes(token));
        Ok(())
    }

    /// A DATAGRAM frame came in.
    fn recv_datagram_frame(&mut self, data: &[u8]) -> (r: Result<(), OxiQuicError>)
        requires
            old(self)@.wf(),
        ensures
            final(self)@.wf(),
            ({
                let (conn, want) = old(self)@.with_datagram(data@);
                final(self)@ == conn && agrees(r, want)
            }),
    {
        self.datagrams.recv(data)
    }

    /// Takes in handshake data of an Initial or Handshake packet, and hands what is
    /// now in order to TLS.
    ///
    /// # Errors
    /// [`OxiQuicError::Tls`] if TLS refuses the data.
    pub fn recv_crypto(&mut self, packet_type: PacketType, offset: u64, data: &[u8]) -> (r: Result<
        (),
        OxiQuicError,
    >)
        requires
            old(self)@.wf(),
            offset + data@.len() <= u64::MAX,
        ensures
            final(self)@.wf(),
            exists|tls: TlsAnswer|
                #![trigger old(self)@.with_crypto(packet_type, offset, data@, tls)]
                {
                    &&& final(self)@ == old(self)@.with_crypto(packet_type, offset, data@, tls).0
                    &&& agrees(r, old(self)@.with_crypto(packet_type, offset, data@, tls).1)
                },
    {
        proof {
            reveal(Conn::with_crypto);
        }
        let delivered = match packet_type {
            PacketType::Initial => self.initial_crypto.recv(offset, data),
            PacketType::Handshake => self.handshake_crypto.recv(offset, data),
            _ => None,
        };
        match delivered {
            Some(bytes) => {
                let error = self.session.read_hs(bytes.as_slice());
                let ghost tls = TlsAnswer { error, after: self.session.tls() };
                assert(self@ == old(self)@.with_crypto(packet_type, offset, data@, tls).0);
                match error {
                    None => Ok(()),
                    Some(e) => Err(OxiQuicError::Tls(error_text(&e))),
                }
            },
            None => {
                let ghost tls: TlsAnswer = arbitrary();
                assert(self@ == old(self)@.with_crypto(packet_type, offset, data@, tls).0);
                Ok(())
            },
        }
    }

    /// The peer no longer uses one of our identifiers.
    fn recv_retire_cid(&mut self, packet_type: PacketType, seq: u64) -> (r: Result<
        (),
        OxiQuicError,
    >)
        requires
            old(self)@.wf(),
        ensures
            final(self)@.wf(),
            exists|random: Option<Seq<u8>>|
                #![trigger old(self)@.with_retired_cid(packet_type, seq, random)]
                {
                    &&& random matches Some(bytes) ==> bytes.len() == 24
                    &&& final(self)@ == old(self)@.with_retired_cid(packet_type, seq, random).0
                    &&& agrees(r, old(self)@.with_retired_cid(packet_type, seq, random).1)
                },
    {
        proof {
            reveal(Conn::with_retired_cid);
        }
        let ghost none: Option<Seq<u8>> = None;
        // RETIRE_CONNECTION_ID is only valid in 1-RTT space.
        if packet_type != PacketType::Short {
            assert(self@ == old(self)@.with_retired_cid(packet_type, seq, none).0);
            return Err(
                frame_violation(
                    FrameType::RetireConnectionId,
                    "RETIRE_CONNECTION_ID received in non-1-RTT packet",
                ),
            );
        }
        // RFC 9000 Section 19.16: the peer MUST NOT retire a CID that was
        // issued in the same packet as this RETIRE_CONNECTION_ID.

        if self.cids_this_packet.contains(&seq) {
            assert(self@ == old(self)@.with_retired_cid(packet_type, seq, none).0);
            return Err(
                frame_violation(
                    FrameType::RetireConnectionId,
                    "RETIRE_CONNECTION_ID for CID issued in same packet",
                ),
            );
        }
        match self.local_cids.handle_peer_retirement(seq) {
            Some(retired_cid) => {
                let ghost events = self.cid_events@;
                self.cid_events.push_back(CidEvent::Unregister(retired_cid));
                assert(super::cid_event_views(self.cid_events@) =~= super::cid_event_views(
                    events,
                ).push(crate::cid::CidEventView::Unregister(retired_cid@)));
                let ghost mid = self@;
                // Issue a replacement CID to keep the peer's pool replenished
                // (RFC 9000 Section 5.1.1).
                let _ = self.maybe_issue_new_cid();
                proof {
                    let random = choose|random: Option<Seq<u8>>|
                        #![trigger mid.with_cid_issued(random)]
                        {
                            &&& random matches Some(bytes) ==> bytes.len() == 24
                            &&& self@ == mid.with_cid_issued(random)
                        };
                    assert(self@ == old(self)@.with_retired_cid(packet_type, seq, random).0);
                }
            },
            None => {
                assert(self@ == old(self)@.with_retired_cid(packet_type, seq, none).0);
            },
        }
        Ok(())
    }

    /// Issues an identifier to the peer if it has room for one. Says whether it did.
    ///
    /// # Errors
    /// [`OxiQuicError::Connection`] if the random number generator fails.
    pub fn maybe_issue_new_cid(&mut self) -> (r: Result<bool, OxiQuicError>)
        requires
            old(self)@.wf(),
        ensures
            final(self)@.wf(),
            exists|random: Option<Seq<u8>>|
                #![trigger old(self)@.with_cid_issued(random)]
                {
                    &&& random matches Some(bytes) ==> bytes.len() == 24
                    &&& final(self)@ == old(self)@.with_cid_issued(random)
                    &&& agrees(
                        r,
                        if !old(self)@.local_cids.has_room() {
                            Ok(false)
                        } else if random is Some {
                            Ok(true)
                        } else {
                            Err(ErrorView::Connection(ConnectionFault::RandomFailed))
                        },
                    )
                },
    {
        if !self.local_cids.has_room() {
            let ghost none: Option<Seq<u8>> = None;
            assert(self@ == old(self)@.with_cid_issued(none));
            return Ok(false);
        }
        let random = self.session.random(24);
        let ghost drawn = opt_bytes(random);
        match random {
            Some(bytes) => {
                let cid = self.local_cids.issue(bytes.as_slice());
                let ghost events = self.cid_events@;
                self.cid_events.push_back(CidEvent::Register(cid));
                assert(super::cid_event_views(self.cid_events@) =~= super::cid_event_views(
                    events,
                ).push(crate::cid::CidEventView::Register(cid@)));
                assert(self@ == old(self)@.with_cid_issued(drawn));
                Ok(true)
            },
            None => {
                assert(self@ == old(self)@.with_cid_issued(drawn));
                Err(OxiQuicError::Connection(ConnectionFault::RandomFailed))
            },
        }
    }
}

/// Every frame that decodes has offsets in range.
proof fn lemma_decoded_fits(s: Seq<u8>)
    ensures
        frame_at(s) matches Ok((f, rest)) ==> frame_fits(f),
{
    reveal(crate::frame::body_at);
}

} // verus!
