//! Receive path: datagram ingestion and packet decryption.
use super::arrival::{
    agrees_len, arrived, frames_wf, unprotected, DatagramRun, MIN_STATELESS_RESET,
};
use super::keys::KeyState;
use super::laws::{law_packet_progress, lemma_flights_count};
use super::model::{agrees, Conn, FrameAnswers, FrameRun};
use super::Connection;
use crate::cid::LOCAL_CID_LEN;
use crate::coding::VARINT_LIMIT;
use crate::error::OxiQuicError;
use crate::frame::array16;
use crate::packet::{
    clear_packet, decode_version_negotiation, parse_protected_long, parse_retry_packet, peek_dcid,
    samplable, sample_and_field, verify_retry_integrity_tag, Clear, ClearPacket, ProtectedLong,
    SAMPLE_LEN,
};
use crate::recovery::SpaceIndex;
use crate::sent_packet::{frames_fit, packet_views};
use crate::session::{
    hs_written, open, open_directional, unmask, unmask_directional, KeyStep, ReadKeys,
};
use crate::space::PacketSpace;
use crate::time::{Duration, Instant};
use crate::types::{copy_bytes, same_bytes, ConnectionId, ConnectionState, PacketType, Role};
use vstd::prelude::*;

verus! {

impl Connection {
    /// Works through the payload of a decrypted packet of `consumed` bytes, and
    /// counts the packet in.
    ///
    /// # Errors
    /// That of the first frame at fault; the packet is then not counted in.
    pub fn finish_packet(
        &mut self,
        now: Instant,
        packet_type: PacketType,
        pn: u64,
        payload: &[u8],
        consumed: usize,
    ) -> (r: Result<Option<usize>, OxiQuicError>)
        requires
            old(self)@.wf(),
            now.in_range(),
            pn < VARINT_LIMIT,
        ensures
            final(self)@.wf(),
            exists|frames: Seq<FrameAnswers>|
                #![trigger old(self)@.payload_processed(
                    now,
                    packet_type,
                    pn,
                    payload@,
                    frames,
                    consumed as int,
                )]
                arrived(
                    old(self)@.payload_processed(
                        now,
                        packet_type,
                        pn,
                        payload@,
                        frames,
                        consumed as int,
                    ),
                    final(self)@,
                    r,
                ),
    {
        proof {
            reveal(Conn::payload_processed);
        }
        let ghost c = self@;
        let processed = self.process_frames(now, packet_type, payload);
        let ghost frames = choose|frames: Seq<FrameAnswers>|
            #![trigger FrameRun::run(c, now, packet_type, payload@, frames)]
            {
                let run = FrameRun::run(c, now, packet_type, payload@, frames);
                &&& frames_wf(frames)
                &&& run.over()
                &&& self@ == run.conn
                &&& agrees(processed, run.result())
            };
        let ghost want = c.payload_processed(
            now,
            packet_type,
            pn,
            payload@,
            frames,
            consumed as int,
        );
        let ack_eliciting = match processed {
            Ok(eliciting) => eliciting,
            Err(e) => {
                let r: Result<Option<usize>, OxiQuicError> = Err(e);
                assert(arrived(want, self@, r));
                return r;
            },
        };
        match packet_type {
            PacketType::Initial => self.initial.on_packet_received(pn, ack_eliciting),
            PacketType::Handshake => self.handshake.on_packet_received(pn, ack_eliciting),
            _ => self.application.on_packet_received(pn, ack_eliciting),
        }
        let r: Result<Option<usize>, OxiQuicError> = Ok(Some(consumed));
        assert(arrived(want, self@, r));
        r
    }

    /// Acts on a decrypted Initial or Handshake packet.
    ///
    /// # Errors
    /// That of the first frame at fault.
    pub fn finish_level_packet(
        &mut self,
        now: Instant,
        header: &ProtectedLong,
        pn: u64,
        payload: &[u8],
    ) -> (r: Result<Option<usize>, OxiQuicError>)
        requires
            old(self)@.wf(),
            now.in_range(),
            pn < VARINT_LIMIT,
        ensures
            final(self)@.wf(),
            exists|frames: Seq<FrameAnswers>|
                #![trigger old(self)@.level_opened(now, header@, pn, payload@, frames)]
                arrived(
                    old(self)@.level_opened(now, header@, pn, payload@, frames),
                    final(self)@,
                    r,
                ),
    {
        proof {
            reveal(Conn::level_opened);
        }
        let ghost c = self@;
        // The destination connection ID must address us. A peer addresses its
        // early packets to the connection ID that seeds the Initial keys and
        // switches to our issued one once it learns it; accept either. Anything
        // else is not ours, so skip it.
        let dcid = header.dcid.as_slice();
        if dcid.len() != 0 && !same_bytes(dcid, self.local_cid.as_bytes()) && !same_bytes(
            dcid,
            self.initial_dcid.as_bytes(),
        ) {
            let r: Result<Option<usize>, OxiQuicError> = Ok(Some(header.end));
            let ghost frames: Seq<FrameAnswers> = Seq::empty();
            assert(arrived(c.level_opened(now, header@, pn, payload@, frames), self@, r));
            return r;
        }
        assert(dcid@.len() == 0 ==> dcid.len() == 0);
        // On the client, the server's SCID becomes our peer CID.
        if self.role == Role::Client && header.packet_type == PacketType::Initial
            && header.scid.len() != 0 {
            self.peer_cid = ConnectionId::new(copy_bytes(header.scid.as_slice()));
        }
        let ghost c1 = self@;
        let r = self.finish_packet(now, header.packet_type, pn, payload, header.end);
        proof {
            let frames = choose|frames: Seq<FrameAnswers>|
                #![trigger c1.payload_processed(
                    now,
                    header.packet_type,
                    pn,
                    payload@,
                    frames,
                    header.end as int,
                )]
                arrived(
                    c1.payload_processed(
                        now,
                        header.packet_type,
                        pn,
                        payload@,
                        frames,
                        header.end as int,
                    ),
                    self@,
                    r,
                );
            assert(c.level_opened(now, header@, pn, payload@, frames) == c1.payload_processed(
                now,
                header.packet_type,
                pn,
                payload@,
                frames,
                header.end as int,
            ));
        }
        r
    }

    /// Decrypts and acts on one Initial or Handshake packet.
    fn recv_level_packet(&mut self, now: Instant, packet_type: PacketType, packet: &[u8]) -> (r:
        Result<Option<usize>, OxiQuicError>)
        requires
            old(self)@.wf(),
            now.in_range(),
            packet@.len() > 0,
            packet_type == PacketType::Initial || packet_type == PacketType::Handshake,
        ensures
            final(self)@.wf(),
            exists|frames: Seq<FrameAnswers>|
                #![trigger old(self)@.level_received(now, packet_type, packet@, frames)]
                arrived(
                    old(self)@.level_received(now, packet_type, packet@, frames),
                    final(self)@,
                    r,
                ),
    {
        proof {
            reveal(Conn::level_received);
        }
        let ghost c = self@;
        let ghost none: Seq<FrameAnswers> = Seq::empty();
        let stop: Result<Option<usize>, OxiQuicError> = Ok(None);
        let (keys, largest) = match packet_type {
            PacketType::Initial => (self.keys.initial(), self.initial.largest_received()),
            _ => (self.keys.handshake(), self.handshake.largest_received()),
        };
        let keys = match keys {
            Some(keys) => keys,
            None => {
                // No keys yet for this space: cannot decrypt; skip remaining.
                assert(arrived(c.level_received(now, packet_type, packet@, none), self@, stop));
                return stop;
            },
        };
        let header = match parse_protected_long(packet) {
            Some(header) => header,
            None => {
                assert(arrived(c.level_received(now, packet_type, packet@, none), self@, stop));
                return stop;
            },
        };
        let clear = match unprotect(keys, packet, header.pn_offset, header.end, largest) {
            Some((_, clear)) => clear,
            None => {
                assert(arrived(c.level_received(now, packet_type, packet@, none), self@, stop));
                return stop;
            },
        };
        let payload = match open(
            keys,
            clear.pn,
            clear.header.as_slice(),
            clear.payload.as_slice(),
        ) {
            Some(payload) => payload,
            None => {
                // A packet we cannot decrypt (e.g. keys not yet installed, or a
                // spurious/duplicate) is skipped per RFC 9000 Section 5.2.
                assert(arrived(c.level_received(now, packet_type, packet@, none), self@, stop));
                return stop;
            },
        };
        let r = self.finish_level_packet(now, &header, clear.pn, payload.as_slice());
        proof {
            let frames = choose|frames: Seq<FrameAnswers>|
                #![trigger c.level_opened(now, header@, clear.pn, payload@, frames)]
                arrived(
                    c.level_opened(now, header@, clear.pn, payload@, frames),
                    self@,
                    r,
                );
            assert(c.level_received(now, packet_type, packet@, frames) == c.level_opened(
                now,
                header@,
                clear.pn,
                payload@,
                frames,
            ));
        }
        r
    }

    /// Decrypt and process a 0-RTT long-header packet (RFC 9001 Section 4.6).
    ///
    /// Server-only: uses the early keys. Shares the Application packet-number
    /// space. Returns `Ok(None)` if keys are not yet available (safe to drop:
    /// the client will retransmit in 1-RTT per RFC 9000 Section 5.2).
    fn recv_zero_rtt_packet(&mut self, now: Instant, packet: &[u8]) -> (r: Result<
        Option<usize>,
        OxiQuicError,
    >)
        requires
            old(self)@.wf(),
            now.in_range(),
            packet@.len() > 0,
        ensures
            final(self)@.wf(),
            exists|frames: Seq<FrameAnswers>|
                #![trigger old(self)@.zero_rtt_received(now, packet@, frames)]
                arrived(old(self)@.zero_rtt_received(now, packet@, frames), final(self)@, r),
    {
        proof {
            reveal(Conn::zero_rtt_received);
        }
        let ghost c = self@;
        let ghost none: Seq<FrameAnswers> = Seq::empty();
        let stop: Result<Option<usize>, OxiQuicError> = Ok(None);
        // 0-RTT is only processed on the server side.
        if self.role != Role::Server {
            assert(arrived(c.zero_rtt_received(now, packet@, none), self@, stop));
            return stop;
        }
        let keys = match self.keys.zero_rtt() {
            Some(keys) => keys,
            None => {
                // Keys not yet derived: drop safely (RFC 9000 Section 5.2).
                assert(arrived(c.zero_rtt_received(now, packet@, none), self@, stop));
                return stop;
            },
        };
        let largest = self.application.largest_received();
        let header = match parse_protected_long(packet) {
            Some(header) => header,
            None => {
                assert(arrived(c.zero_rtt_received(now, packet@, none), self@, stop));
                return stop;
            },
        };
        let clear = match unprotect_zero_rtt(
            keys,
            packet,
            header.pn_offset,
            header.end,
            largest,
        ) {
            Some((_, clear)) => clear,
            None => {
                assert(arrived(c.zero_rtt_received(now, packet@, none), self@, stop));
                return stop;
            },
        };
        let payload = match open_directional(
            keys,
            clear.pn,
            clear.header.as_slice(),
            clear.payload.as_slice(),
        ) {
            Some(payload) => payload,
            None => {
                assert(arrived(c.zero_rtt_received(now, packet@, none), self@, stop));
                return stop;
            },
        };
        let r = self.finish_packet(
            now,
            PacketType::ZeroRtt,
            clear.pn,
            payload.as_slice(),
            header.end,
        );
        proof {
            let end = header.end as int;
            let frames = choose|frames: Seq<FrameAnswers>|
                #![trigger c.payload_processed(
                    now,
                    PacketType::ZeroRtt,
                    clear.pn,
                    payload@,
                    frames,
                    end,
                )]
                arrived(
                    c.payload_processed(now, PacketType::ZeroRtt, clear.pn, payload@, frames, end),
                    self@,
                    r,
                );
            assert(c.zero_rtt_received(now, packet@, frames) == c.payload_processed(
                now,
                PacketType::ZeroRtt,
                clear.pn,
                payload@,
                frames,
                end,
            ));
        }
        r
    }

    /// Starts the Initial space over for a Retry packet: new keys from its source
    /// identifier, packet numbers from zero, the token to send, and the ClientHello
    /// queued again.
    fn rekey_initial_for_retry(&mut self, scid: Vec<u8>, token: Vec<u8>)
        requires
            old(self)@.wf(),
            old(self)@.retry_done,
            old(self)@.retry_count < u64::MAX,
        ensures
            final(self)@.wf(),
            final(self)@ == old(self)@.rekeyed(scid@, token@),
    {
        let ghost c = self@;
        let keys = self.session.initial_keys(scid.as_slice(), self.role);
        self.keys.set_initial(keys);
        self.initial = PacketSpace::new();
        self.initial_dcid = ConnectionId::new(scid);
        self.retry_token = token;
        self.retry_count = self.retry_count + 1;
        let sent = self.recovery.reset_initial().into_packets();
        proof {
            assert(c.recovery.initial.wf());
            assert forall|i: int| 0 <= i < sent@.len() implies frames_fit(
                (#[trigger] sent@[i])@.frames,
            ) by {
                assert(packet_views(sent@)[i] == sent@[i]@);
            }
        }
        self.requeue_packets(SpaceIndex::Initial, sent);
        assert(self@ == c.rekeyed(scid@, token@));
    }

    /// Process a Retry packet (RFC 9000 Section 17.2.5, RFC 9001 Section 5.8).
    ///
    /// A valid Retry causes the client to verify the integrity tag, store the
    /// token, re-derive Initial keys from the Retry's SCID, reset the Initial
    /// packet number space and re-queue the ClientHello. Nothing can follow a Retry
    /// in a datagram, since it has no length.
    fn recv_retry_packet(&mut self, packet: &[u8])
        requires
            old(self)@.wf(),
        ensures
            final(self)@.wf(),
            final(self)@ == old(self)@.retry_received(packet@),
    {
        proof {
            reveal(Conn::retry_received);
        }
        // Only the client processes Retry; only during the handshake; only once;
        // and not after a packet from the server (RFC 9000 Section 17.2.5.2).
        if self.role != Role::Client || self.state != ConnectionState::Handshaking
            || self.retry_done || self.initial.largest_received().is_some() {
            return ;
        }
        // The ODCID used to verify the tag is the current one, before re-keying.
        if !verify_retry_integrity_tag(self.initial_dcid.as_bytes(), packet) {
            // Invalid integrity tag: silently ignore (RFC 9000 Section 17.2.5.2).
            return ;
        }
        let (scid, _dcid, token) = match parse_retry_packet(packet) {
            Some(parts) => parts,
            None => {
                return ;
            },
        };
        // The Retry's SCID becomes the DCID of our retransmitted Initial and of all
        // subsequent packets.
        self.peer_cid = ConnectionId::new(copy_bytes(scid.as_slice()));
        self.retry_done = true;
        self.rekey_initial_for_retry(scid, token);
    }

    /// Process one long-header packet. Returns how many bytes it took, or `None` to
    /// stop.
    fn recv_long_packet(&mut self, now: Instant, packet: &[u8]) -> (r: Result<
        Option<usize>,
        OxiQuicError,
    >)
        requires
            old(self)@.wf(),
            now.in_range(),
            packet@.len() > 0,
        ensures
            final(self)@.wf(),
            exists|frames: Seq<FrameAnswers>|
                #![trigger old(self)@.long_received(now, packet@, frames)]
                arrived(old(self)@.long_received(now, packet@, frames), final(self)@, r),
    {
        proof {
            reveal(Conn::long_received);
        }
        let ghost c = self@;
        let ghost none: Seq<FrameAnswers> = Seq::empty();
        let stop: Result<Option<usize>, OxiQuicError> = Ok(None);
        let packet_type = match peek_dcid(packet, LOCAL_CID_LEN) {
            Ok((packet_type, _)) => packet_type,
            Err(_) => {
                assert(arrived(c.long_received(now, packet@, none), self@, stop));
                return stop;
            },
        };
        match packet_type {
            PacketType::VersionNegotiation => {
                // RFC 9000 Section 6.2: arriving during the handshake, before any
                // packet has been processed, it means that the server does not
                // support our version. Afterwards it MUST be ignored, so that a
                // spoofed one cannot kill a live connection.
                let r: Result<Option<usize>, OxiQuicError> = if self.role == Role::Client
                    && self.state == ConnectionState::Handshaking
                    && self.initial.largest_received().is_none() {
                    let supported = match decode_version_negotiation(packet) {
                        Some(versions) => versions,
                        None => Vec::new(),
                    };
                    Err(OxiQuicError::VersionNegotiation { supported })
                } else {
                    stop
                };
                assert(arrived(c.long_received(now, packet@, none), self@, r));
                r
            },
            PacketType::Retry => {
                self.recv_retry_packet(packet);
                assert(arrived(c.long_received(now, packet@, none), self@, stop));
                stop
            },
            PacketType::ZeroRtt => {
                // Handle 0-RTT packets on the server side using the early keys.
                let r = self.recv_zero_rtt_packet(now, packet);
                proof {
                    let frames = choose|frames: Seq<FrameAnswers>|
                        #![trigger c.zero_rtt_received(now, packet@, frames)]
                        arrived(c.zero_rtt_received(now, packet@, frames), self@, r);
                    assert(arrived(c.long_received(now, packet@, frames), self@, r));
                }
                r
            },
            PacketType::Initial | PacketType::Handshake => {
                let r = self.recv_level_packet(now, packet_type, packet);
                proof {
                    let frames = choose|frames: Seq<FrameAnswers>|
                        #![trigger c.level_received(now, packet_type, packet@, frames)]
                        arrived(c.level_received(now, packet_type, packet@, frames), self@, r);
                    assert(arrived(c.long_received(now, packet@, frames), self@, r));
                }
                r
            },
            PacketType::Short => {
                assert(arrived(c.long_received(now, packet@, none), self@, stop));
                stop
            },
        }
    }

    /// RFC 9000 Section 10.3: check whether a packet that could not be decrypted is
    /// a stateless reset.
    ///
    /// A stateless reset is at least 21 bytes long, and its last 16 bytes match a
    /// stateless reset token that the peer sent us in a NEW_CONNECTION_ID frame.
    ///
    /// # Errors
    /// [`OxiQuicError::StatelessReset`] if it is one.
    pub fn check_stateless_reset(&self, packet: &[u8]) -> (r: Result<Option<usize>, OxiQuicError>)
        ensures
            agrees_len(r, self@.unreadable(packet@)),
    {
        if packet.len() < MIN_STATELESS_RESET {
            return Ok(None);
        }
        let (_, tail) = packet.split_at(packet.len() - 16);
        let token = array16(tail);
        assert(token@ =~= packet@.skip(packet@.len() - 16));
        if self.peer_cids.matches_stateless_reset(&token) {
            return Err(OxiQuicError::StatelessReset);
        }
        Ok(None)
    }

    /// Acts on a packet of the current key phase with its header in the clear:
    /// decrypts with the current packet key and, failing that, with the one of the
    /// key phase before (a packet reordered over a key update).
    fn recv_same_phase(&mut self, now: Instant, packet: &[u8], clear: &ClearPacket) -> (r: Result<
        Option<usize>,
        OxiQuicError,
    >)
        requires
            old(self)@.wf(),
            now.in_range(),
            clear.pn < VARINT_LIMIT,
        ensures
            final(self)@.wf(),
            exists|frames: Seq<FrameAnswers>|
                #![trigger old(self)@.same_phase_received(now, packet@, clear@, frames)]
                arrived(
                    old(self)@.same_phase_received(now, packet@, clear@, frames),
                    final(self)@,
                    r,
                ),
    {
        proof {
            reveal(Conn::same_phase_received);
        }
        let ghost c = self@;
        let ghost none: Seq<FrameAnswers> = Seq::empty();
        let header = clear.header.as_slice();
        let protected = clear.payload.as_slice();
        let opened = match self.keys.current() {
            Some(keys) => match keys.open(clear.pn, header, protected) {
                Some(payload) => Some(payload),
                None => match self.keys.previous(now) {
                    Some(keys) => keys.open(clear.pn, header, protected),
                    None => None,
                },
            },
            None => None,
        };
        let payload = match opened {
            Some(payload) => payload,
            None => {
                let r = self.check_stateless_reset(packet);
                assert(arrived(c.same_phase_received(now, packet@, clear@, none), self@, r));
                return r;
            },
        };
        let len: usize = packet.len();
        let r = self.finish_packet(now, PacketType::Short, clear.pn, payload.as_slice(), len);
        proof {
            let n = packet@.len() as int;
            let frames = choose|frames: Seq<FrameAnswers>|
                #![trigger c.payload_processed(now, PacketType::Short, clear.pn, payload@, frames, n)]
                arrived(
                    c.payload_processed(now, PacketType::Short, clear.pn, payload@, frames, n),
                    self@,
                    r,
                );
            assert(c.same_phase_received(now, packet@, clear@, frames) == c.payload_processed(
                now,
                PacketType::Short,
                clear.pn,
                payload@,
                frames,
                n,
            ));
        }
        r
    }

    /// Acts on a packet of the other key phase with its header in the clear: if the
    /// next keys decrypt it, the peer has initiated a key update.
    fn recv_next_phase(&mut self, now: Instant, packet: &[u8], clear: &ClearPacket) -> (r: Result<
        Option<usize>,
        OxiQuicError,
    >)
        requires
            old(self)@.wf(),
            now.in_range(),
            clear.pn < VARINT_LIMIT,
            old(self)@.keys.update_count < u64::MAX,
        ensures
            final(self)@.wf(),
            exists|frames: Seq<FrameAnswers>|
                #![trigger old(self)@.next_phase_received(now, packet@, clear@, frames)]
                arrived(
                    old(self)@.next_phase_received(now, packet@, clear@, frames),
                    final(self)@,
                    r,
                ),
    {
        proof {
            reveal(Conn::next_phase_received);
        }
        let ghost c = self@;
        let ghost none: Seq<FrameAnswers> = Seq::empty();
        let opened = match self.keys.next() {
            Some(keys) => keys.open(clear.pn, clear.header.as_slice(), clear.payload.as_slice()),
            None => None,
        };
        let payload = match opened {
            Some(payload) => payload,
            None => {
                let r = self.check_stateless_reset(packet);
                assert(arrived(c.next_phase_received(now, packet@, clear@, none), self@, r));
                return r;
            },
        };
        // Decryption succeeded: rotate the keys, next to current.
        self.perform_key_update(now);
        let ghost c1 = self@;
        let len: usize = packet.len();
        let r = self.finish_packet(now, PacketType::Short, clear.pn, payload.as_slice(), len);
        proof {
            let n = packet@.len() as int;
            let frames = choose|frames: Seq<FrameAnswers>|
                #![trigger c1.payload_processed(now, PacketType::Short, clear.pn, payload@, frames, n)]
                arrived(
                    c1.payload_processed(now, PacketType::Short, clear.pn, payload@, frames, n),
                    self@,
                    r,
                );
            assert(c.next_phase_received(now, packet@, clear@, frames) == c1.payload_processed(
                now,
                PacketType::Short,
                clear.pn,
                payload@,
                frames,
                n,
            ));
        }
        r
    }

    /// Decrypt and process one short-header (1-RTT) packet, which takes all of
    /// `packet`.
    ///
    /// Implements the key-update receive path (RFC 9001 Section 6): header
    /// protection is stripped with the (unchanged) header key, and the Key Phase
    /// bit says which packet keys to try. If all decryption attempts are
    /// exhausted, the packet is examined for a stateless reset.
    ///
    /// # Errors
    /// [`OxiQuicError::StatelessReset`], or that of the first frame at fault.
    pub fn recv_short_packet(&mut self, now: Instant, packet: &[u8]) -> (r: Result<
        Option<usize>,
        OxiQuicError,
    >)
        requires
            old(self)@.wf(),
            now.in_range(),
            old(self)@.keys.update_count < u64::MAX,
        ensures
            final(self)@.wf(),
            exists|frames: Seq<FrameAnswers>|
                #![trigger old(self)@.short_received(now, packet@, frames)]
                arrived(old(self)@.short_received(now, packet@, frames), final(self)@, r),
    {
        proof {
            reveal(Conn::short_received);
        }
        let ghost c = self@;
        let ghost none: Seq<FrameAnswers> = Seq::empty();
        let pn_offset: usize = 1 + LOCAL_CID_LEN;
        let largest = self.application.largest_received();
        let header = match self.keys.one_rtt() {
            Some(keys) => {
                if packet.len() < pn_offset + 4 + SAMPLE_LEN {
                    None
                } else {
                    unprotect(keys, packet, pn_offset, packet.len(), largest)
                }
            },
            None => None,
        };
        let (first, clear) = match header {
            Some(header) => header,
            None => {
                let r = self.check_stateless_reset(packet);
                assert(arrived(c.short_received(now, packet@, none), self@, r));
                return r;
            },
        };
        let incoming_key_phase = (first / 4) % 2 == 1;
        if incoming_key_phase == self.keys.key_phase() {
            let r = self.recv_same_phase(now, packet, &clear);
            proof {
                let frames = choose|frames: Seq<FrameAnswers>|
                    #![trigger c.same_phase_received(now, packet@, clear@, frames)]
                    arrived(c.same_phase_received(now, packet@, clear@, frames), self@, r);
                assert(arrived(c.short_received(now, packet@, frames), self@, r));
            }
            r
        } else {
            let r = self.recv_next_phase(now, packet, &clear);
            proof {
                let frames = choose|frames: Seq<FrameAnswers>|
                    #![trigger c.next_phase_received(now, packet@, clear@, frames)]
                    arrived(c.next_phase_received(now, packet@, clear@, frames), self@, r);
                assert(arrived(c.short_received(now, packet@, frames), self@, r));
            }
            r
        }
    }

    /// Queues handshake bytes to send, at the level of the latest keys.
    fn enqueue_handshake(&mut self, bytes: &[u8])
        requires
            old(self)@.wf(),
        ensures
            final(self)@.wf(),
            final(self)@ == old(self)@.with_handshake_bytes(bytes@),
    {
        if self.keys.handshake().is_none() {
            if bytes.len() as u64 <= self.initial_crypto.room() {
                self.initial_crypto.enqueue_send(bytes);
            }
        } else if bytes.len() as u64 <= self.handshake_crypto.room() {
            self.handshake_crypto.enqueue_send(bytes);
        }
    }

    /// Queues handshake bytes that TLS gave, and installs the keys that came with them.
    /// Says whether there were keys.
    pub fn take_flight(&mut self, bytes: &[u8], step: KeyStep) -> (more: bool)
        requires
            old(self)@.wf(),
        ensures
            final(self)@.wf(),
            final(self)@ == old(self)@.flight_taken(bytes@, step),
            more == !(step is Same),
    {
        proof {
            reveal(Conn::flight_taken);
        }
        self.enqueue_handshake(bytes);
        match step {
            KeyStep::Same => false,
            KeyStep::Handshake(keys) => {
                self.install_handshake(keys);
                true
            },
            KeyStep::OneRtt(keys, secrets) => {
                self.install_one_rtt(keys, secrets);
                true
            },
        }
    }

    /// Takes one flight from TLS. Says whether there were keys.
    fn pump_flight(&mut self) -> (more: bool)
        requires
            old(self)@.wf(),
        ensures
            final(self)@.wf(),
            final(self)@ == old(self)@.with_flight(),
            more == !(hs_written(old(self)@.tls).1 is Same),
    {
        let (bytes, step) = self.session.write_hs();
        self.take_flight(bytes.as_slice(), step)
    }

    /// Notes whether TLS is still shaking hands: when it has finished, the connection
    /// is established.
    pub fn note_handshake(&mut self, handshaking: bool)
        requires
            old(self)@.wf(),
        ensures
            final(self)@.wf(),
            final(self)@ == old(self)@.handshake_checked(handshaking),
    {
        if !handshaking && self.state == ConnectionState::Handshaking {
            self.state = ConnectionState::Established;
            self.handshake_complete = true;
            if self.role == Role::Server {
                // For a server, completion confirms the handshake.
                self.handshake_done = true;
            }
        }
    }

    /// Installs the keys of Handshake packets.
    fn install_handshake(&mut self, keys: rustls::quic::Keys)
        requires
            old(self)@.wf(),
        ensures
            final(self)@.wf(),
            final(self)@ == (Conn {
                keys: KeyState { handshake: Some(keys), ..old(self)@.keys },
                ..old(self)@
            }),
    {
        self.keys.set_handshake(keys);
    }

    /// Installs the keys of 1-RTT packets and those of the next key phase.
    fn install_one_rtt(&mut self, keys: rustls::quic::Keys, secrets: rustls::quic::Secrets)
        requires
            old(self)@.wf(),
        ensures
            final(self)@.wf(),
            final(self)@ == (Conn {
                keys: old(self)@.keys.with_one_rtt(keys, secrets),
                ..old(self)@
            }),
    {
        self.keys.set_one_rtt(keys, secrets);
    }

    /// Drives TLS on: queues what it wants sent and installs the keys it gives, until
    /// it gives no more keys. When it has finished, the connection is established.
    pub fn pump_write_hs(&mut self)
        requires
            old(self)@.wf(),
        ensures
            final(self)@.wf(),
            final(self)@ == old(self)@.pumped(),
    {
        let ghost c = self@;
        let mut rounds: u8 = 0;
        let mut done: bool = false;
        while !done && rounds < 3
            invariant
                self@.wf(),
                rounds <= 3,
                if done {
                    self@ == c.with_flights(3)
                } else {
                    self@.with_flights((3 - rounds) as nat) == c.with_flights(3)
                },
            decreases 3 - rounds,
        {
            let more = self.pump_flight();
            done = !more;
            rounds = rounds + 1;
        }
        let handshaking = self.session.is_handshaking();
        self.note_handshake(handshaking);
    }

    /// Looks for the keys of 0-RTT packets on the server side, until the handshake is
    /// complete.
    pub fn try_install_zero_rtt_keys(&mut self)
        requires
            old(self)@.wf(),
        ensures
            final(self)@.wf(),
            final(self)@ == old(self)@.zero_rtt_tried(),
    {
        if self.handshake_complete || self.keys.zero_rtt().is_some() || self.role != Role::Server {
            return ;
        }
        let keys = self.session.zero_rtt_keys();
        self.keys.set_zero_rtt(keys);
    }

    /// Starts the idle timer over at `now`.
    fn arm_idle_timer(&mut self, now: Instant)
        requires
            old(self)@.wf(),
            now.in_range(),
        ensures
            final(self)@.wf(),
            final(self)@ == old(self)@.idle_armed(now),
    {
        self.idle_deadline =
        if self.idle_timeout_ms == 0 {
            None
        } else {
            Some(now.plus(Duration { nanos: self.idle_timeout_ms as u128 * 1_000_000 }))
        };
    }

    /// Processes the packet at the front of `packet`.
    fn recv_packet(&mut self, now: Instant, packet: &[u8]) -> (r: Result<
        Option<usize>,
        OxiQuicError,
    >)
        requires
            old(self)@.wf(),
            now.in_range(),
            packet@.len() > 0,
            old(self)@.keys.update_count < u64::MAX,
        ensures
            final(self)@.wf(),
            exists|frames: Seq<FrameAnswers>|
                #![trigger old(self)@.packet_received(now, packet@, frames)]
                arrived(old(self)@.packet_received(now, packet@, frames), final(self)@, r),
    {
        proof {
            reveal(Conn::packet_received);
        }
        let ghost c = self@;
        if packet[0] >= 0x80 {
            let r = self.recv_long_packet(now, packet);
            proof {
                let frames = choose|frames: Seq<FrameAnswers>|
                    #![trigger c.long_received(now, packet@, frames)]
                    arrived(c.long_received(now, packet@, frames), self@, r);
                assert(arrived(c.packet_received(now, packet@, frames), self@, r));
            }
            r
        } else {
            let r = self.recv_short_packet(now, packet);
            proof {
                let frames = choose|frames: Seq<FrameAnswers>|
                    #![trigger c.short_received(now, packet@, frames)]
                    arrived(c.short_received(now, packet@, frames), self@, r);
                assert(arrived(c.packet_received(now, packet@, frames), self@, r));
            }
            r
        }
    }

    /// Feed a received UDP datagram into the connection.
    ///
    /// # Errors
    /// Returns an [`OxiQuicError`] only for fatal protocol violations; packets
    /// that cannot yet be decrypted (missing keys) are silently skipped per
    /// RFC 9000 Section 5.2.
    pub fn handle_datagram(&mut self, now: Instant, datagram: &[u8]) -> (r: Result<
        (),
        OxiQuicError,
    >)
        requires
            old(self)@.wf(),
            now.in_range(),
            old(self)@.packets_recv < u64::MAX,
            old(self)@.bytes_recv + datagram@.len() <= u64::MAX,
            old(self)@.keys.update_count < u64::MAX,
        ensures
            final(self)@.wf(),
            exists|answers: Seq<Seq<FrameAnswers>>|
                #![trigger DatagramRun::run(old(self)@, now, datagram@, answers)]
                {
                    &&& DatagramRun::run(old(self)@, now, datagram@, answers) matches Some(run)
                    &&& run.over()
                    &&& final(self)@ == run.conn
                    &&& agrees(r, run.result())
                },
    {
        let ghost c = self@;
        self.arm_idle_timer(now);
        self.packets_recv = self.packets_recv + 1;
        self.bytes_recv = self.bytes_recv + datagram.len() as u64;
        let ghost mut answers: Seq<Seq<FrameAnswers>> = Seq::empty();
        let mut offset: usize = 0;
        assert(datagram@.skip(0) =~= datagram@);
        // A zero byte is trailing padding between or after packets.
        while offset < datagram.len() && datagram[offset] != 0
            invariant
                self@.wf(),
                now.in_range(),
                offset <= datagram@.len(),
                offset < datagram@.len() ==> self@.keys.update_count < u64::MAX,
                DatagramRun::run(c, now, datagram@, answers) == Some(
                    DatagramRun {
                        conn: self@,
                        rest: datagram@.skip(offset as int),
                        stopped: false,
                        error: None,
                    },
                ),
                c == old(self)@,
            decreases datagram@.len() - offset,
        {
            let ghost before = DatagramRun::run(c, now, datagram@, answers)->Some_0;
            let (_, packet) = datagram.split_at(offset);
            assert(packet@ =~= datagram@.skip(offset as int));
            let ghost c1 = self@;
            let r = self.recv_packet(now, packet);
            let ghost c2 = self@;
            let ghost frames = choose|frames: Seq<FrameAnswers>|
                #![trigger c1.packet_received(now, packet@, frames)]
                arrived(c1.packet_received(now, packet@, frames), c2, r);
            proof {
                law_packet_progress(c1, now, packet@, frames);
            }
            let consumed = match r {
                Ok(Some(n)) => n,
                Ok(None) => {
                    proof {
                        lemma_one_more(c, now, datagram@, answers, frames);
                    }
                    return Ok(());
                },
                Err(e) => {
                    proof {
                        lemma_one_more(c, now, datagram@, answers, frames);
                    }
                    return Err(e);
                },
            };
            // Drive the handshake forward immediately so that keys installed by
            // a just-processed packet (e.g. Handshake keys after the Initial
            // carrying ServerHello) are available to decrypt the next coalesced
            // packet in this same datagram.
            self.pump_write_hs();
            // Attempt to install 0-RTT keys after each handshake pump so the
            // server can decrypt a coalesced 0-RTT packet in the same datagram.
            self.try_install_zero_rtt_keys();
            proof {
                lemma_one_more(c, now, datagram@, answers, frames);
                lemma_flights_count(c2, 3);
                answers = answers.push(frames);
                assert(datagram@.skip(offset as int).skip(consumed as int) =~= datagram@.skip(
                    offset + consumed,
                ));
            }
            offset = offset + consumed;
        }
        Ok(())
    }
}

/// The run over one more answer is one more step.
proof fn lemma_one_more(
    c: Conn,
    now: Instant,
    datagram: Seq<u8>,
    answers: Seq<Seq<FrameAnswers>>,
    frames: Seq<FrameAnswers>,
)
    requires
        DatagramRun::run(c, now, datagram, answers) is Some,
    ensures
        DatagramRun::run(c, now, datagram, answers.push(frames)) == DatagramRun::run(
            c,
            now,
            datagram,
            answers,
        )->Some_0.step(now, frames),
{
    assert(answers.push(frames).drop_last() =~= answers);
}

/// Takes header protection off the packet at the front of `packet`: its first byte,
/// and the packet with its header in the clear.
fn unprotect(
    keys: &rustls::quic::Keys,
    packet: &[u8],
    pn_offset: usize,
    end: usize,
    largest: Option<u64>,
) -> (r: Option<(u8, ClearPacket)>)
    requires
        1 <= pn_offset,
        samplable(pn_offset as int, end as int),
        end <= packet@.len(),
        largest matches Some(l) ==> l < VARINT_LIMIT,
    ensures
        is_header(
            r,
            unprotected(
                ReadKeys::Level(*keys),
                packet@,
                pn_offset as int,
                end as int,
                largest,
            ),
        ),
{
    proof {
        reveal(unprotected);
    }
    let (sample, field) = sample_and_field(packet, pn_offset);
    match unmask(keys, sample.as_slice(), packet[0], field) {
        Some((first, pn)) => match clear_packet(packet, pn_offset, end, first, &pn, largest) {
            Some(clear) => Some((first, clear)),
            None => None,
        },
        None => None,
    }
}

/// Takes header protection off a 0-RTT packet; see [`unprotect`].
fn unprotect_zero_rtt(
    keys: &rustls::quic::DirectionalKeys,
    packet: &[u8],
    pn_offset: usize,
    end: usize,
    largest: Option<u64>,
) -> (r: Option<(u8, ClearPacket)>)
    requires
        1 <= pn_offset,
        samplable(pn_offset as int, end as int),
        end <= packet@.len(),
        largest matches Some(l) ==> l < VARINT_LIMIT,
    ensures
        is_header(
            r,
            unprotected(
                ReadKeys::Directional(*keys),
                packet@,
                pn_offset as int,
                end as int,
                largest,
            ),
        ),
{
    proof {
        reveal(unprotected);
    }
    let (sample, field) = sample_and_field(packet, pn_offset);
    match unmask_directional(keys, sample.as_slice(), packet[0], field) {
        Some((first, pn)) => match clear_packet(packet, pn_offset, end, first, &pn, largest) {
            Some(clear) => Some((first, clear)),
            None => None,
        },
        None => None,
    }
}

/// Whether these are the first byte and the packet wanted.
spec fn is_header(r: Option<(u8, ClearPacket)>, want: Option<(u8, Clear)>) -> bool {
    match want {
        Some((first, clear)) => r matches Some((f, p)) && f == first && p@ == clear && p.pn
            < VARINT_LIMIT,
        None => r is None,
    }
}

} // verus!
