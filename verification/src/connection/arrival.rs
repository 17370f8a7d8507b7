//! What arriving packets and datagrams make of a connection.
//!
//! What keys do to a packet is determined by the keys and the packet. As in
//! [`super::model`], what TLS made of handshake bytes and which random bytes came is an argument.
//! The functions give `None` for answers that no run of the calls could have given:
//! such as those for some of a packet's frames only.
use super::keys::KeyState;
use super::loss::RecoveryState;
use super::model::{Conn, FrameAnswers, FrameRun};
use crate::cid::LOCAL_CID_LEN;
use crate::error::{ErrorView, OxiQuicError};
use crate::packet::{
    clear_at, peeked, protected_long_at, retry_at, retry_tag_valid, sample_of, samplable,
    version_negotiation_at, Clear, Protected,
};
use crate::recovery::SpaceIndex;
use crate::sent_packet::InFlight;
use crate::session::{
    early_keys, hs_written, initial_keys_of, opened, shaking_hands, unmasked, KeyStep, ReadKeys,
};
use crate::space::SpaceState;
use crate::time::Instant;
use crate::types::{ConnectionState, PacketType, Role};
use vstd::prelude::*;

verus! {

/// The fewest bytes of a stateless reset (RFC 9000 Section 10.3).
pub const MIN_STATELESS_RESET: usize = 21;

/// A connection after a packet, and how many bytes the packet took: `None` if the
/// rest of the datagram is not to be looked at.
pub type Arrival = Option<(Conn, Result<Option<int>, ErrorView>)>;

/// Whether the answers to the calls of frames could have been given.
pub open spec fn frames_wf(frames: Seq<FrameAnswers>) -> bool {
    forall|i: int| 0 <= i < frames.len() ==> (#[trigger] frames[i]).wf()
}

/// Whether a result is the one wanted.
pub open spec fn agrees_len(
    r: Result<Option<usize>, OxiQuicError>,
    want: Result<Option<int>, ErrorView>,
) -> bool {
    match want {
        Ok(Some(n)) => r matches Ok(Some(len)) && len == n,
        Ok(None) => r matches Ok(None),
        Err(error) => r matches Err(e) && e@ == error,
    }
}

/// Whether a packet made this of a connection, and gave this result.
pub open spec fn arrived(want: Arrival, conn: Conn, r: Result<Option<usize>, OxiQuicError>) -> bool {
    want matches Some((c, len)) && conn == c && agrees_len(r, len)
}

/// The first byte of the packet at the front of `s` without header protection, and
/// what its header gives then; `None` if the protection does not come off.
#[verifier::opaque]
pub open spec fn unprotected(
    keys: ReadKeys,
    s: Seq<u8>,
    pn_offset: int,
    end: int,
    largest: Option<u64>,
) -> Option<(u8, Clear)> {
    match unmasked(
        keys,
        sample_of(s, pn_offset),
        s[0],
        s.subrange(pn_offset, pn_offset + 4),
    ) {
        None => None,
        Some((first, pn)) => match clear_at(s, pn_offset, end, first, pn, largest) {
            None => None,
            Some(clear) => Some((first, clear)),
        },
    }
}

impl Clear {
    /// The payload in the clear, if these keys open it.
    pub open spec fn opened_by(self, keys: ReadKeys) -> Option<Seq<u8>> {
        opened(keys, self.pn, self.header, self.payload)
    }
}

impl Conn {
    /// With a packet counted in its packet number space.
    pub open spec fn space_received(self, packet_type: PacketType, pn: u64, eliciting: bool) -> Conn {
        match packet_type {
            PacketType::Initial => Conn { initial: self.initial.received(pn, eliciting), ..self },
            PacketType::Handshake => Conn {
                handshake: self.handshake.received(pn, eliciting),
                ..self
            },
            _ => Conn { application: self.application.received(pn, eliciting), ..self },
        }
    }

    /// After the payload of packet `pn` was worked through; the packet is counted in
    /// if no frame was at fault.
    #[verifier::opaque]
    pub open spec fn payload_processed(
        self,
        now: Instant,
        packet_type: PacketType,
        pn: u64,
        payload: Seq<u8>,
        frames: Seq<FrameAnswers>,
        consumed: int,
    ) -> Arrival {
        let run = FrameRun::run(self, now, packet_type, payload, frames);
        if !frames_wf(frames) || !run.over() {
            None
        } else {
            match run.error {
                Some(e) => Some((run.conn, Err(e))),
                None => Some(
                    (
                        run.conn.space_received(packet_type, pn, run.ack_eliciting),
                        Ok(Some(consumed)),
                    ),
                ),
            }
        }
    }

    /// Whether a packet to `dcid` is for this connection: to no identifier, to the
    /// one issued, or to the one that the keys of Initial packets come from.
    pub open spec fn addressed(self, dcid: Seq<u8>) -> bool {
        dcid.len() == 0 || dcid == self.local_cid || dcid == self.initial_dcid
    }

    /// After an Initial or Handshake packet was opened. A packet for another
    /// connection is passed over; the server's identifier is adopted by the client.
    #[verifier::opaque]
    pub open spec fn level_opened(
        self,
        now: Instant,
        header: Protected,
        pn: u64,
        payload: Seq<u8>,
        frames: Seq<FrameAnswers>,
    ) -> Arrival {
        if !self.addressed(header.dcid) {
            Some((self, Ok(Some(header.end))))
        } else {
            let adopts = self.role == Role::Client && header.packet_type == PacketType::Initial
                && header.scid.len() > 0;
            let c = if adopts {
                Conn { peer_cid: header.scid, ..self }
            } else {
                self
            };
            c.payload_processed(now, header.packet_type, pn, payload, frames, header.end)
        }
    }

    /// After an Initial or Handshake packet: it is passed over with all that follows
    /// if there are no keys for it or it does not open.
    #[verifier::opaque]
    pub open spec fn level_received(
        self,
        now: Instant,
        packet_type: PacketType,
        s: Seq<u8>,
        frames: Seq<FrameAnswers>,
    ) -> Arrival {
        let (keys, space) = if packet_type == PacketType::Initial {
            (self.keys.initial, self.initial)
        } else {
            (self.keys.handshake, self.handshake)
        };
        match (keys, protected_long_at(s)) {
            (Some(keys), Some(header)) => {
                let keys = ReadKeys::Level(keys);
                match unprotected(keys, s, header.pn_offset, header.end, space.largest_received) {
                    None => Some((self, Ok(None))),
                    Some((first, clear)) => match clear.opened_by(keys) {
                        None => Some((self, Ok(None))),
                        Some(payload) => self.level_opened(now, header, clear.pn, payload, frames),
                    },
                }
            },
            _ => Some((self, Ok(None))),
        }
    }

    /// After a 0-RTT packet (RFC 9001 Section 4.6): only a server with the early
    /// keys reads it; it is numbered in the Application space.
    #[verifier::opaque]
    pub open spec fn zero_rtt_received(
        self,
        now: Instant,
        s: Seq<u8>,
        frames: Seq<FrameAnswers>,
    ) -> Arrival {
        match (self.keys.zero_rtt, protected_long_at(s)) {
            (Some(keys), Some(header)) => if self.role != Role::Server {
                Some((self, Ok(None)))
            } else {
                let keys = ReadKeys::Directional(keys);
                match unprotected(
                    keys,
                    s,
                    header.pn_offset,
                    header.end,
                    self.application.largest_received,
                ) {
                    None => Some((self, Ok(None))),
                    Some((first, clear)) => match clear.opened_by(keys) {
                        None => Some((self, Ok(None))),
                        Some(payload) => self.payload_processed(
                            now,
                            PacketType::ZeroRtt,
                            clear.pn,
                            payload,
                            frames,
                            header.end,
                        ),
                    },
                }
            },
            _ => Some((self, Ok(None))),
        }
    }

    /// Whether a Retry packet would be taken: by a client, during the handshake,
    /// once, and before any other packet came (RFC 9000 Section 17.2.5.2).
    pub open spec fn expects_retry(self) -> bool {
        &&& self.role == Role::Client
        &&& self.state == ConnectionState::Handshaking
        &&& !self.retry_done
        &&& self.initial.largest_received is None
    }

    /// After the Initial space started over for a Retry packet: new keys, packet
    /// numbers from zero, and what was sent goes out again with the token.
    pub open spec fn rekeyed(self, scid: Seq<u8>, token: Seq<u8>) -> Conn {
        let sent = self.recovery.initial.packets;
        let keys = initial_keys_of(self.suite, scid, self.role);
        (Conn {
            initial_dcid: scid,
            retry_token: token,
            retry_count: (self.retry_count + 1) as u64,
            keys: KeyState { initial: Some(keys), ..self.keys },
            initial: SpaceState::fresh(),
            recovery: RecoveryState { initial: InFlight::fresh(), ..self.recovery },
            ..self
        }).requeued_packets(SpaceIndex::Initial, sent)
    }

    /// After a Retry packet. One with the wrong integrity tag is ignored.
    #[verifier::opaque]
    pub open spec fn retry_received(self, s: Seq<u8>) -> Conn {
        if !self.expects_retry() || !retry_tag_valid(self.initial_dcid, s) {
            self
        } else {
            match retry_at(s) {
                None => self,
                Some((scid, dcid, token)) => (Conn {
                    peer_cid: scid,
                    retry_done: true,
                    ..self
                }).rekeyed(scid, token),
            }
        }
    }

    /// After a Version Negotiation packet: a client that has heard nothing else from
    /// the server gives up, otherwise the packet is ignored (RFC 9000 Section 6.2).
    pub open spec fn version_negotiation_received(self, s: Seq<u8>) -> Result<
        Option<int>,
        ErrorView,
    > {
        if self.role == Role::Client && self.state == ConnectionState::Handshaking
            && self.initial.largest_received is None {
            Err(
                ErrorView::VersionNegotiation(
                    match version_negotiation_at(s) {
                        Some(versions) => versions,
                        None => Seq::empty(),
                    },
                ),
            )
        } else {
            Ok(None)
        }
    }

    /// After a packet with a long header at the front of `s`.
    #[verifier::opaque]
    pub open spec fn long_received(
        self,
        now: Instant,
        s: Seq<u8>,
        frames: Seq<FrameAnswers>,
    ) -> Arrival {
        match peeked(s, LOCAL_CID_LEN) {
            None => Some((self, Ok(None))),
            Some((packet_type, dcid)) => match packet_type {
                PacketType::VersionNegotiation => Some(
                    (self, self.version_negotiation_received(s)),
                ),
                PacketType::Retry => Some((self.retry_received(s), Ok(None))),
                PacketType::ZeroRtt => self.zero_rtt_received(now, s, frames),
                PacketType::Initial => self.level_received(now, PacketType::Initial, s, frames),
                PacketType::Handshake => self.level_received(now, PacketType::Handshake, s, frames),
                PacketType::Short => Some((self, Ok(None))),
            },
        }
    }

    /// What a packet that does not open comes to: a stateless reset if it is long
    /// enough and ends with the token of one of the peer's identifiers
    /// (RFC 9000 Section 10.3), else nothing.
    pub open spec fn unreadable(self, s: Seq<u8>) -> Result<Option<int>, ErrorView> {
        if s.len() >= MIN_STATELESS_RESET && self.peer_cids.matches_reset(
            s.skip(s.len() - 16),
        ) {
            Err(ErrorView::StatelessReset)
        } else {
            Ok(None)
        }
    }

    /// After a packet of the current key phase, with its header in the clear. Where
    /// the current keys do not open it, those of the key phase before are tried
    /// (RFC 9001 Section 6.6).
    #[verifier::opaque]
    pub open spec fn same_phase_received(
        self,
        now: Instant,
        s: Seq<u8>,
        clear: Clear,
        frames: Seq<FrameAnswers>,
    ) -> Arrival {
        let payload = match self.keys.current() {
            None => None,
            Some(keys) => match (clear.opened_by(keys), self.keys.previous(now)) {
                (Some(payload), _) => Some(payload),
                (None, Some(prev)) => clear.opened_by(prev),
                (None, None) => None,
            },
        };
        match payload {
            None => Some((self, self.unreadable(s))),
            Some(payload) => self.payload_processed(
                now,
                PacketType::Short,
                clear.pn,
                payload,
                frames,
                s.len() as int,
            ),
        }
    }

    /// After a packet of the other key phase, with its header in the clear. If the
    /// next keys open it, the peer has begun a key update, which is followed before
    /// the frames are worked through.
    #[verifier::opaque]
    pub open spec fn next_phase_received(
        self,
        now: Instant,
        s: Seq<u8>,
        clear: Clear,
        frames: Seq<FrameAnswers>,
    ) -> Arrival {
        let payload = match self.keys.next {
            None => None,
            Some(next) => clear.opened_by(ReadKeys::Phase(next)),
        };
        match payload {
            None => Some((self, self.unreadable(s))),
            Some(payload) => (Conn {
                keys: self.keys.updated_by_peer(now, self.pto_base()),
                ..self
            }).payload_processed(
                now,
                PacketType::Short,
                clear.pn,
                payload,
                frames,
                s.len() as int,
            ),
        }
    }

    /// After a packet with a short header, which takes the rest of the datagram.
    #[verifier::opaque]
    pub open spec fn short_received(
        self,
        now: Instant,
        s: Seq<u8>,
        frames: Seq<FrameAnswers>,
    ) -> Arrival {
        let pn_offset = 1 + LOCAL_CID_LEN as int;
        let header = match self.keys.one_rtt {
            None => None,
            Some(keys) => if !samplable(pn_offset, s.len() as int) {
                None
            } else {
                unprotected(
                    ReadKeys::Level(keys),
                    s,
                    pn_offset,
                    s.len() as int,
                    self.application.largest_received,
                )
            },
        };
        match header {
            None => Some((self, self.unreadable(s))),
            Some((first, clear)) => if ((first / 4) % 2 == 1) == self.keys.key_phase {
                self.same_phase_received(now, s, clear, frames)
            } else {
                self.next_phase_received(now, s, clear, frames)
            },
        }
    }

    /// After the packet at the front of `s`.
    #[verifier::opaque]
    pub open spec fn packet_received(
        self,
        now: Instant,
        s: Seq<u8>,
        frames: Seq<FrameAnswers>,
    ) -> Arrival {
        if s[0] >= 0x80 {
            self.long_received(now, s, frames)
        } else {
            self.short_received(now, s, frames)
        }
    }

    // The handshake

    /// With handshake bytes to send: in Initial packets until there are keys for
    /// Handshake packets. Bytes beyond the largest offset are not sent.
    pub open spec fn with_handshake_bytes(self, bytes: Seq<u8>) -> Conn {
        if self.keys.handshake is None {
            if self.initial_crypto.room() >= bytes.len() {
                Conn { initial_crypto: self.initial_crypto.enqueued(bytes), ..self }
            } else {
                self
            }
        } else if self.handshake_crypto.room() >= bytes.len() {
            Conn { handshake_crypto: self.handshake_crypto.enqueued(bytes), ..self }
        } else {
            self
        }
    }

    /// After TLS gave handshake bytes: they wait to be sent, and the keys that come with
    /// them are installed, with those of the next key phase where they are 1-RTT keys.
    #[verifier::opaque]
    pub open spec fn flight_taken(self, bytes: Seq<u8>, step: KeyStep) -> Conn {
        let c = self.with_handshake_bytes(bytes);
        match step {
            KeyStep::Same => c,
            KeyStep::Handshake(keys) => Conn {
                keys: KeyState { handshake: Some(keys), ..c.keys },
                ..c
            },
            KeyStep::OneRtt(keys, secrets) => Conn { keys: c.keys.with_one_rtt(keys, secrets), ..c },
        }
    }

    /// After TLS was asked for handshake bytes.
    pub open spec fn with_flight(self) -> Conn {
        let (bytes, step, tls) = hs_written(self.tls);
        (Conn { tls, ..self }).flight_taken(bytes, step)
    }

    /// After TLS was asked for handshake bytes until it gave no more keys, `rounds` times
    /// at most.
    pub open spec fn with_flights(self, rounds: nat) -> Conn
        decreases rounds,
    {
        if rounds == 0 {
            self
        } else if hs_written(self.tls).1 is Same {
            self.with_flight()
        } else {
            self.with_flight().with_flights((rounds - 1) as nat)
        }
    }

    /// After TLS said whether it is still shaking hands: the first time that it is not,
    /// the connection is established. For a server, that confirms the handshake
    /// (RFC 9001 Section 4.1.2).
    pub open spec fn handshake_checked(self, handshaking: bool) -> Conn {
        if handshaking || self.state != ConnectionState::Handshaking {
            self
        } else {
            Conn {
                state: ConnectionState::Established,
                handshake_complete: true,
                handshake_done: self.handshake_done || self.role == Role::Server,
                ..self
            }
        }
    }

    /// After TLS was driven on: it gives keys of two levels at most.
    pub open spec fn pumped(self) -> Conn {
        let c = self.with_flights(3);
        c.handshake_checked(shaking_hands(c.tls))
    }

    /// After a server looked for the keys of 0-RTT packets: they are wanted until the
    /// handshake is complete.
    pub open spec fn zero_rtt_tried(self) -> Conn {
        if self.handshake_complete || self.keys.zero_rtt is Some || self.role != Role::Server {
            self
        } else {
            Conn { keys: KeyState { zero_rtt: early_keys(self.tls), ..self.keys }, ..self }
        }
    }
}

/// How far the packets of a datagram have been worked through.
pub struct DatagramRun {
    /// The connection.
    pub conn: Conn,
    /// What is left of the datagram.
    pub rest: Seq<u8>,
    /// Whether the rest is not to be looked at.
    pub stopped: bool,
    /// The error that ended the run.
    pub error: Option<ErrorView>,
}

impl DatagramRun {
    /// A datagram comes in: the idle timer starts over, and it is counted.
    pub open spec fn start(conn: Conn, now: Instant, datagram: Seq<u8>) -> DatagramRun {
        let c = conn.idle_armed(now);
        DatagramRun {
            conn: Conn {
                packets_recv: (c.packets_recv + 1) as u64,
                bytes_recv: (c.bytes_recv + datagram.len()) as u64,
                ..c
            },
            rest: datagram,
            stopped: false,
            error: None,
        }
    }

    /// Whether there is nothing more to do. A zero byte where a packet would start
    /// is padding after the last packet.
    pub open spec fn over(self) -> bool {
        self.stopped || self.error is Some || self.rest.len() == 0 || self.rest[0] == 0
    }

    /// After one more packet: TLS is driven on at once, so that keys it gives can
    /// open the next packet of the datagram.
    pub open spec fn step(self, now: Instant, frames: Seq<FrameAnswers>) -> Option<DatagramRun> {
        if self.over() {
            None
        } else {
            match self.conn.packet_received(now, self.rest, frames) {
                None => None,
                Some((conn, Err(e))) => Some(DatagramRun { conn, error: Some(e), ..self }),
                Some((conn, Ok(None))) => Some(DatagramRun { conn, stopped: true, ..self }),
                Some((conn, Ok(Some(n)))) => Some(
                    DatagramRun {
                        conn: conn.pumped().zero_rtt_tried(),
                        rest: self.rest.skip(n),
                        ..self
                    },
                ),
            }
        }
    }

    /// After as many packets as there are answers, each of them those of a packet's
    /// frames.
    pub open spec fn run(
        conn: Conn,
        now: Instant,
        datagram: Seq<u8>,
        answers: Seq<Seq<FrameAnswers>>,
    ) -> Option<DatagramRun>
        decreases answers.len(),
    {
        if answers.len() == 0 {
            Some(DatagramRun::start(conn, now, datagram))
        } else {
            match DatagramRun::run(conn, now, datagram, answers.drop_last()) {
                None => None,
                Some(run) => run.step(now, answers.last()),
            }
        }
    }

    /// What the run came to.
    pub open spec fn result(self) -> Result<(), ErrorView> {
        match self.error {
            Some(e) => Err(e),
            None => Ok(()),
        }
    }
}

} // verus!
