//! The connection: a synchronous protocol core without I/O.
//!
//! A [`Connection`] is driven from outside. Datagrams and the time go in through
//! [`Connection::handle_datagram`] and [`Connection::on_loss_timeout`]; what is to be
//! sent, and what the application is to learn, waits in the parts of the connection.
//! [`model::Conn`] says what the connection is and how it changes.
pub mod ack_laws;
pub mod arrival;
pub mod datagrams;
pub mod frame_laws;
pub mod frames;
pub mod keys;
pub mod laws;
pub mod loss;
pub mod loss_laws;
pub mod model;
pub mod outbox;
pub mod packet_laws;
pub mod path;
pub mod recovery;
pub mod recv;
pub mod setup;
pub mod streams;

use crate::cid::{CidEvent, CidEventView, LocalCidPool, PeerCidPool};
use crate::crypto_stream::CryptoStream;
use crate::error::{ConnectionFault, ErrorView, OxiQuicError};
use crate::multipath::{MultipathState, PathValidation, Paths};
use crate::session::Session;
use crate::space::PacketSpace;
use crate::time::{Duration, Instant};
use crate::types::{ConnectionId, ConnectionState, Role, SocketAddr};
use datagrams::DatagramQueue;
use keys::{KeyState, KeyStore};
use loss::Recovery;
use model::{agrees, Conn};
use path::{PathProbe, PathProbeState};
use std::collections::{HashSet, VecDeque};
use streams::Streams;
use vstd::prelude::*;

verus! {

/// A QUIC connection.
pub struct Connection {
    role: Role,
    state: ConnectionState,
    handshake_complete: bool,
    handshake_done: bool,
    local_cid: ConnectionId,
    initial_dcid: ConnectionId,
    peer_cid: ConnectionId,
    retry_done: bool,
    retry_token: Vec<u8>,
    retry_count: u64,
    path: PathProbe,
    multipath: MultipathState,
    keys: KeyStore,
    initial: PacketSpace,
    handshake: PacketSpace,
    application: PacketSpace,
    initial_crypto: CryptoStream,
    handshake_crypto: CryptoStream,
    recovery: Recovery,
    streams: Streams,
    local_cids: LocalCidPool,
    peer_cids: PeerCidPool,
    cids_this_packet: HashSet<u64>,
    cid_events: VecDeque<CidEvent>,
    datagrams: DatagramQueue,
    peer_closed: Option<OxiQuicError>,
    received_token: Option<Vec<u8>>,
    pending_new_token: Option<Vec<u8>>,
    packets_recv: u64,
    bytes_recv: u64,
    idle_timeout_ms: u64,
    idle_deadline: Option<Instant>,
    session: Session,
}

/// The bytes of an optional token.
pub open spec fn opt_token(token: Option<Vec<u8>>) -> Option<Seq<u8>> {
    match token {
        Some(t) => Some(t@),
        None => None,
    }
}

/// What an optional error says.
pub open spec fn opt_error(error: Option<OxiQuicError>) -> Option<ErrorView> {
    match error {
        Some(e) => Some(e@),
        None => None,
    }
}

/// What the events say.
pub open spec fn cid_event_views(events: Seq<CidEvent>) -> Seq<CidEventView> {
    events.map_values(|e: CidEvent| e@)
}

impl View for Connection {
    type V = Conn;

    closed spec fn view(&self) -> Conn {
        Conn {
            role: self.role,
            state: self.state,
            handshake_complete: self.handshake_complete,
            handshake_done: self.handshake_done,
            local_cid: self.local_cid@,
            initial_dcid: self.initial_dcid@,
            peer_cid: self.peer_cid@,
            retry_done: self.retry_done,
            retry_token: self.retry_token@,
            retry_count: self.retry_count,
            path: self.path@,
            multipath: self.multipath@,
            keys: self.keys@,
            initial: self.initial@,
            handshake: self.handshake@,
            application: self.application@,
            initial_crypto: self.initial_crypto@,
            handshake_crypto: self.handshake_crypto@,
            recovery: self.recovery@,
            streams: self.streams@,
            local_cids: self.local_cids@,
            peer_cids: self.peer_cids@,
            cids_this_packet: self.cids_this_packet@,
            cid_events: cid_event_views(self.cid_events@),
            datagrams: self.datagrams@,
            peer_closed: opt_error(self.peer_closed),
            received_token: opt_token(self.received_token),
            pending_new_token: opt_token(self.pending_new_token),
            packets_recv: self.packets_recv,
            bytes_recv: self.bytes_recv,
            idle_timeout_ms: self.idle_timeout_ms,
            idle_deadline: self.idle_deadline,
            tls: self.session.tls(),
            suite: self.session.suite(),
            reads: self.session.reads(),
            draws: self.session.draws(),
        }
    }
}

impl Connection {
    // ─── Key update (RFC 9001 Section 6) ────────────────────────────────────

    /// Rotate to the next key epoch after a successful key-update decryption.
    ///
    /// * Makes the next packet keys the current ones (packet keys only; header
    ///   protection keys are unchanged per RFC 9001 Section 6).
    /// * Keeps the old packet keys for 3 PTO (Section 6.6).
    /// * Derives new next keys from the advanced secrets.
    /// * Flips the key phase and notes that the peer has updated.
    pub fn perform_key_update(&mut self, now: Instant)
        requires
            old(self)@.wf(),
            now.in_range(),
            old(self)@.keys.update_count < u64::MAX,
        ensures
            final(self)@.wf(),
            final(self)@ == (Conn {
                keys: old(self)@.keys.updated_by_peer(now, old(self)@.pto_base()),
                ..old(self)@
            }),
    {
        let pto_base = self.recovery.rtt().pto_base(self.recovery.peer_max_ack_delay());
        self.keys.update(now, pto_base);
        self.keys.note_peer_update();
    }

    /// Initiate a key update on the next outgoing 1-RTT packet.
    ///
    /// Per RFC 9001 Section 6.5, a key update MUST NOT be initiated within 3 PTO of
    /// the previous update. If the cooldown has not elapsed this is a no-op.
    /// Returns `true` if the update was scheduled, `false` if it was refused
    /// due to the cooldown.
    ///
    /// `now` is the caller's notion of the current time, used to evaluate the
    /// 3-PTO cooldown.  Pass a consistent clock value (the same one you pass to
    /// [`Connection::handle_datagram`]) so that logical-clock tests work
    /// correctly without relying on wall-clock advancement.
    pub fn initiate_key_update(&mut self, now: Instant) -> (scheduled: bool)
        ensures
            scheduled == old(self)@.keys.may_update(now),
            final(self)@ == if scheduled {
                Conn { keys: KeyState { update_pending: true, ..old(self)@.keys }, ..old(self)@ }
            } else {
                old(self)@
            },
    {
        self.keys.initiate_update(now)
    }

    /// Actually perform the locally-initiated key update at `now`.
    ///
    /// To be called just before the first outgoing packet of the new epoch.
    pub fn initiate_key_update_now(&mut self, now: Instant)
        requires
            old(self)@.wf(),
            now.in_range(),
            old(self)@.keys.update_count < u64::MAX,
        ensures
            final(self)@.wf(),
            final(self)@ == (Conn {
                keys: old(self)@.keys.updated_here(now, old(self)@.pto_base()),
                ..old(self)@
            }),
    {
        let pto_base = self.recovery.rtt().pto_base(self.recovery.peer_max_ack_delay());
        self.keys.update(now, pto_base);
        self.keys.clear_pending();
    }

    /// The number of completed key updates (including both locally- and
    /// peer-initiated).  For test observability.
    #[must_use]
    pub fn key_update_count(&self) -> (n: u64)
        ensures
            n == self@.keys.update_count,
    {
        self.keys.update_count()
    }

    // ─── Path migration (RFC 9000 Section 9) ────────────────────────────────

    /// Begin a path challenge toward the current (or candidate) peer address.
    ///
    /// Generates 8 cryptographically random bytes and queues a `PATH_CHALLENGE`
    /// frame for the next outgoing 1-RTT packet (RFC 9000 Section 9.1, 19.17).
    ///
    /// # Errors
    /// Returns [`OxiQuicError::Connection`] when:
    /// * The secure RNG fails (extremely unlikely, indicates OS-level failure).
    /// * The connection has not yet completed the handshake.
    pub fn initiate_path_challenge(&mut self) -> (r: Result<(), OxiQuicError>)
        requires
            old(self)@.wf(),
        ensures
            final(self)@.wf(),
            exists|random: Option<Seq<u8>>|
                #![trigger challenge_begun(old(self)@, random)]
                {
                    &&& random matches Some(b) ==> b.len() == 8
                    &&& final(self)@ == challenge_begun(old(self)@, random).0
                    &&& agrees(r, challenge_begun(old(self)@, random).1)
                },
    {
        if !self.keys.one_rtt_ready() {
            assert(self@ == challenge_begun(old(self)@, None).0);
            return Err(OxiQuicError::Connection(ConnectionFault::OneRttKeysNotReady));
        }
        let random = self.session.random(8);
        let ghost drawn = crate::session::opt_bytes(random);
        match random {
            Some(bytes) => {
                self.path.challenge(crate::frame::array8(bytes.as_slice()));
                assert(self@ == challenge_begun(old(self)@, drawn).0);
                Ok(())
            },
            None => {
                assert(self@ == challenge_begun(old(self)@, drawn).0);
                Err(OxiQuicError::Connection(ConnectionFault::RandomFailed))
            },
        }
    }

    /// Set a candidate peer address for path migration (RFC 9000 Section 9.3).
    ///
    /// The connection will send a `PATH_CHALLENGE` toward the current peer;
    /// when the response is validated the connection migrates to `addr`.
    /// Call [`Self::initiate_path_challenge`] after this to start the probe.
    pub fn set_candidate_peer_addr(&mut self, addr: SocketAddr)
        ensures
            final(self)@ == (Conn { path: old(self)@.path.with_candidate(addr), ..old(self)@ }),
    {
        self.path.set_candidate(addr);
    }

    /// Whether the most recent locally-initiated path challenge was answered
    /// with a matching `PATH_RESPONSE` (RFC 9000 Section 9.3).
    ///
    /// Remains `true` until the next call to [`Self::initiate_path_challenge`] or
    /// [`Self::set_candidate_peer_addr`].
    #[must_use]
    pub fn path_validated(&self) -> (v: bool)
        ensures
            v == self@.path.validated,
    {
        self.path.validated()
    }

    /// The address packets are sent to.
    #[must_use]
    pub fn peer_addr(&self) -> (addr: SocketAddr)
        ensures
            addr == self@.path.peer_addr,
    {
        self.path.peer_addr()
    }

    // ─── Multipath ──────────────────────────────────────────────────────────

    /// Return a reference to the multipath state for this connection.
    ///
    /// The multipath state contains all known paths (primary + candidates),
    /// each with their own validation status, RTT estimate, and CID.
    ///
    /// This is a preview API: full multipath packet scheduling is deferred
    /// pending the IETF draft RFC stabilising. The primary path (index 0) is
    /// always the current active path unless changed via
    /// [`Connection::set_preferred_path`].
    #[must_use]
    pub fn multipath_state(&self) -> (mp: &MultipathState)
        ensures
            mp@ == self@.multipath,
    {
        &self.multipath
    }

    /// The number of known paths (primary + candidates).
    #[must_use]
    pub fn path_count(&self) -> (n: usize)
        ensures
            n == self@.multipath.paths.len(),
    {
        self.multipath.path_count()
    }

    /// The smoothed RTT of the active (primary) path.
    ///
    /// Falls back to the connection-level RTT estimator if the per-path estimate
    /// is not yet available.
    #[must_use]
    pub fn active_path_rtt(&self) -> (rtt: Duration)
        requires
            self@.wf(),
        ensures
            rtt == match self@.multipath.active_path().smoothed_rtt {
                Some(d) => d,
                None => self@.recovery.rtt.smoothed,
            },
    {
        match self.multipath.active_path().smoothed_rtt {
            Some(d) => d,
            None => self.recovery.rtt().smoothed_rtt(),
        }
    }

    /// Register a new candidate path.
    ///
    /// Returns the path index on success. The new path starts with
    /// [`PathValidation::Unknown`]; call [`Connection::initiate_path_challenge`]
    /// to begin the validation handshake before promoting it to preferred.
    ///
    /// # Errors
    /// Returns [`OxiQuicError::Connection`] if:
    /// * The path to `remote_addr` is already registered.
    /// * The multipath capacity limit (8 paths) is reached.
    pub fn add_path(&mut self, remote_addr: SocketAddr, cid: Option<ConnectionId>) -> (r: Result<
        usize,
        OxiQuicError,
    >)
        requires
            old(self)@.wf(),
        ensures
            final(self)@.wf(),
            match old(self)@.multipath.add_fault(remote_addr) {
                Some(fault) => {
                    &&& r matches Err(e) && e@ == ErrorView::Connection(fault)
                    &&& final(self)@ == old(self)@
                },
                None => {
                    let added = final(self)@.multipath.paths.last();
                    &&& r matches Ok(index) && index == old(self)@.multipath.paths.len()
                    &&& added.is_new(remote_addr, cid, PathValidation::Unknown)
                    &&& final(self)@ == (Conn {
                        multipath: Paths {
                            paths: old(self)@.multipath.paths.push(added),
                            ..old(self)@.multipath
                        },
                        ..old(self)@
                    })
                },
            },
    {
        self.multipath.add_path(remote_addr, cid)
    }

    /// Promote path `index` to the active path.
    ///
    /// Only validated or initially-trusted paths may become active. Call
    /// [`Connection::initiate_path_challenge`] to validate a candidate path
    /// first.
    ///
    /// # Errors
    /// Returns [`OxiQuicError::Connection`] if the index is out of range or
    /// the path is not usable.
    pub fn set_preferred_path(&mut self, index: usize) -> (r: Result<(), OxiQuicError>)
        requires
            old(self)@.wf(),
        ensures
            final(self)@.wf(),
            match old(self)@.multipath.prefer_fault(index) {
                Some(fault) => {
                    &&& r matches Err(e) && e@ == ErrorView::Connection(fault)
                    &&& final(self)@ == old(self)@
                },
                None => {
                    &&& r is Ok
                    &&& final(self)@ == (Conn {
                        multipath: Paths { active: index as int, ..old(self)@.multipath },
                        path: PathProbeState {
                            peer_addr: old(self)@.multipath.paths[index as int].remote_addr,
                            ..old(self)@.path
                        },
                        ..old(self)@
                    })
                },
            },
    {
        match self.multipath.set_preferred_path(index) {
            Ok(()) => {},
            Err(e) => return Err(e),
        }
        // Sync the active peer address with the new preferred path's remote address.
        let addr = self.multipath.active_path().remote_addr;
        self.path.set_peer_addr(addr);
        Ok(())
    }
}

/// After a path challenge was asked for, with the random bytes that were drawn for
/// it: it needs 1-RTT keys and random bytes.
pub open spec fn challenge_begun(c: Conn, random: Option<Seq<u8>>) -> (Conn, Result<(), ErrorView>) {
    if !c.keys.one_rtt_ready {
        (c, Err(ErrorView::Connection(ConnectionFault::OneRttKeysNotReady)))
    } else {
        let asked = c.drawn(8, random);
        match random {
            Some(bytes) => (Conn { path: c.path.challenged(bytes), ..asked }, Ok(())),
            None => (asked, Err(ErrorView::Connection(ConnectionFault::RandomFailed))),
        }
    }
}

/// A path challenge needs 1-RTT keys. Then eight random bytes are drawn; they are the data
/// that the response must carry, and the challenge is to be sent. Without them nothing but
/// the draw is noted.
pub proof fn law_challenge_begun(c: Conn, random: Option<Seq<u8>>)
    ensures
        ({
            let (after, r) = challenge_begun(c, random);
            &&& !c.keys.one_rtt_ready ==> after == c && r == Err::<(), ErrorView>(
                ErrorView::Connection(ConnectionFault::OneRttKeysNotReady),
            )
            &&& c.keys.one_rtt_ready ==> {
                &&& after.draws.len() == c.draws.len() + 1
                &&& after.draws.last().len == 8 && after.draws.last().bytes == random
                &&& random is None ==> after.path == c.path && r == Err::<(), ErrorView>(
                    ErrorView::Connection(ConnectionFault::RandomFailed),
                )
                &&& random matches Some(bytes) ==> r is Ok && after.path.challenge == Some(bytes)
                    && after.path.challenge_send && !after.path.validated && after.path.candidate
                    == c.path.candidate && after.path.peer_addr == c.path.peer_addr
                &&& after == (Conn { path: after.path, draws: after.draws, ..c })
            }
        }),
{
}

} // verus!
