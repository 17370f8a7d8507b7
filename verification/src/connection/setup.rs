//! Opening a connection, and what is read of it from outside.
use super::datagrams::{DatagramQueue, DatagramState};
use super::keys::{KeyState, KeyStore};
use super::loss::{Recovery, RecoveryState};
use super::model::Conn;
use super::path::{opt_data, PathProbe, PathProbeState};
use super::streams::{Streams, StreamsState};
use super::{opt_token, Connection};
use crate::cid::{CidEvent, LocalCidPool, LocalCids, PeerCidPool, PeerCids};
use crate::crypto_stream::{CryptoState, CryptoStream};
use crate::error::OxiQuicError;
use crate::multipath::{MultipathState, PathValidation, Paths};
use crate::params_codec::TransportParams;
use crate::session::{initial_keys_of, Session, Tls};
use crate::space::{PacketSpace, SpaceState};
use crate::stream::RecvState;
use crate::time::{Duration, Instant};
use crate::types::{ConnectionId, ConnectionState, PacketType, Role, SocketAddr, StreamId};
use std::collections::{HashSet, VecDeque};
use std::sync::Arc;
use vstd::prelude::*;

verus! {

/// What a connection is opened with.
pub struct Setup {
    /// Which side this is.
    pub role: Role,
    /// The TLS session.
    pub tls: Tls,
    /// The cipher suite of Initial packets.
    pub suite: rustls::quic::Suite,
    /// Where random bytes come from.
    pub provider: Arc<rustls::crypto::CryptoProvider>,
    /// The identifier the peer is to send to.
    pub local_cid: ConnectionId,
    /// The destination identifier of the client's first packet.
    pub initial_dcid: ConnectionId,
    /// The identifier packets are sent to.
    pub peer_cid: ConnectionId,
    /// The peer's address.
    pub peer_addr: SocketAddr,
    /// The local transport parameters.
    pub params: TransportParams,
    /// How many bytes of received datagrams are kept.
    pub datagram_buffer: usize,
}

impl Conn {
    /// A connection that was just opened, with the keys of Initial packets for the
    /// client's first destination identifier. Only the path it starts on is taken from
    /// `multipath`.
    pub open spec fn opened(setup: Setup, multipath: Paths) -> Conn {
        Conn {
            role: setup.role,
            state: ConnectionState::Handshaking,
            handshake_complete: false,
            handshake_done: false,
            local_cid: setup.local_cid@,
            initial_dcid: setup.initial_dcid@,
            peer_cid: setup.peer_cid@,
            retry_done: false,
            retry_token: Seq::empty(),
            retry_count: 0,
            path: PathProbeState::fresh(setup.peer_addr),
            multipath,
            keys: KeyState::fresh(
                initial_keys_of(setup.suite, setup.initial_dcid@, setup.role),
            ),
            initial: SpaceState::fresh(),
            handshake: SpaceState::fresh(),
            application: SpaceState::fresh(),
            initial_crypto: CryptoState::fresh(),
            handshake_crypto: CryptoState::fresh(),
            recovery: RecoveryState::fresh(),
            streams: StreamsState::fresh(
                setup.params.initial_max_stream_data_bidi_remote,
                setup.params.initial_max_streams_bidi,
                setup.params.initial_max_streams_uni,
            ),
            local_cids: LocalCids::fresh(setup.local_cid@, 2),
            peer_cids: PeerCids::fresh(setup.params.active_connection_id_limit),
            cids_this_packet: Set::empty(),
            cid_events: Seq::empty(),
            datagrams: DatagramState {
                local_max: setup.params.max_datagram_frame_size,
                limit: setup.datagram_buffer,
                queue: Seq::empty(),
            },
            peer_closed: None,
            received_token: None,
            pending_new_token: None,
            packets_recv: 0,
            bytes_recv: 0,
            idle_timeout_ms: setup.params.max_idle_timeout_ms,
            idle_deadline: None,
            tls: setup.tls,
            suite: setup.suite,
            reads: Seq::empty(),
            draws: Seq::empty(),
        }
    }

    /// After the peer's transport parameters became known.
    pub open spec fn with_peer_params(self, params: TransportParams) -> Conn {
        Conn {
            streams: StreamsState {
                conn_credit: self.streams.conn_credit.raised(params.initial_max_data as nat),
                peer_window: params.initial_max_stream_data_bidi_remote,
                bidi: self.streams.bidi.with_peer_max(params.initial_max_streams_bidi),
                uni: self.streams.uni.with_peer_max(params.initial_max_streams_uni),
                ..self.streams
            },
            recovery: RecoveryState {
                peer_max_ack_delay: Duration {
                    nanos: (params.max_ack_delay_ms * 1_000_000) as u128,
                },
                ack_delay_exponent: Some(params.ack_delay_exponent),
                ..self.recovery
            },
            local_cids: LocalCids { limit: params.active_connection_id_limit, ..self.local_cids },
            ..self
        }
    }
}

impl Connection {
    /// Opens a connection: derives the keys of Initial packets from the client's
    /// first destination identifier.
    pub fn new(setup: Setup) -> (conn: Connection)
        ensures
            conn@.wf(),
            ({
                let multipath = conn@.multipath;
                &&& multipath.active == 0
                &&& multipath.paths.len() == 1
                &&& multipath.paths[0].is_new(setup.peer_addr, None, PathValidation::Validated)
                &&& conn@ == Conn::opened(setup, multipath)
            }),
    {
        let ghost given = setup;
        let session = Session::new(setup.tls, setup.suite, setup.provider);
        let keys = session.initial_keys(setup.initial_dcid.as_bytes(), setup.role);
        let local_cid = setup.local_cid.clone();
        let conn = Connection {
            role: setup.role,
            state: ConnectionState::Handshaking,
            handshake_complete: false,
            handshake_done: false,
            local_cid: setup.local_cid,
            initial_dcid: setup.initial_dcid,
            peer_cid: setup.peer_cid,
            retry_done: false,
            retry_token: Vec::new(),
            retry_count: 0,
            path: PathProbe::new(setup.peer_addr),
            multipath: MultipathState::new(setup.peer_addr),
            keys: KeyStore::new(keys),
            initial: PacketSpace::new(),
            handshake: PacketSpace::new(),
            application: PacketSpace::new(),
            initial_crypto: CryptoStream::new(),
            handshake_crypto: CryptoStream::new(),
            recovery: Recovery::new(),
            streams: Streams::new(
                setup.params.initial_max_stream_data_bidi_remote,
                setup.params.initial_max_streams_bidi,
                setup.params.initial_max_streams_uni,
            ),
            local_cids: LocalCidPool::new(local_cid, 2),
            peer_cids: PeerCidPool::new(setup.params.active_connection_id_limit),
            cids_this_packet: HashSet::new(),
            cid_events: VecDeque::new(),
            datagrams: DatagramQueue::new(
                setup.params.max_datagram_frame_size,
                setup.datagram_buffer,
            ),
            peer_closed: None,
            received_token: None,
            pending_new_token: None,
            packets_recv: 0,
            bytes_recv: 0,
            idle_timeout_ms: setup.params.max_idle_timeout_ms,
            idle_deadline: None,
            session,
        };
        proof {
            let want = Conn::opened(given, conn@.multipath);
            assert(conn@.cid_events =~= Seq::empty());
            assert(conn@.reads =~= want.reads);
            assert(conn@.draws =~= want.draws);
            assert(conn@.retry_token =~= Seq::empty());
            assert(conn@.cids_this_packet =~= Set::empty());
        }
        conn
    }

    /// The peer's transport parameters are known.
    pub fn set_peer_params(&mut self, params: &TransportParams)
        requires
            old(self)@.wf(),
        ensures
            final(self)@.wf(),
            final(self)@ == old(self)@.with_peer_params(*params),
    {
        self.streams.set_peer_limits(
            params.initial_max_data,
            params.initial_max_stream_data_bidi_remote,
            params.initial_max_streams_bidi,
            params.initial_max_streams_uni,
        );
        self.recovery.set_peer_delays(params.max_ack_delay_ms, params.ack_delay_exponent);
        self.local_cids.set_limit(params.active_connection_id_limit);
    }

    /// Which side this is.
    pub fn role(&self) -> (role: Role)
        ensures
            role == self@.role,
    {
        self.role
    }

    /// Where the connection is in its life.
    pub fn state(&self) -> (state: ConnectionState)
        ensures
            state == self@.state,
    {
        self.state
    }

    /// Whether the handshake has yet to complete.
    pub fn is_handshaking(&self) -> (h: bool)
        ensures
            h == !self@.handshake_complete,
    {
        !self.handshake_complete
    }

    /// Whether the handshake is complete and the connection open.
    pub fn is_established(&self) -> (e: bool)
        ensures
            e == (self@.state == ConnectionState::Established),
    {
        self.state == ConnectionState::Established
    }

    /// Whether the connection has been closed.
    pub fn is_closed(&self) -> (c: bool)
        ensures
            c == (self@.state == ConnectionState::Closed),
    {
        self.state == ConnectionState::Closed
    }

    /// Whether the handshake is confirmed.
    pub fn handshake_done(&self) -> (d: bool)
        ensures
            d == self@.handshake_done,
    {
        self.handshake_done
    }

    /// Why the peer closed the connection, if it did.
    pub fn peer_close_reason(&self) -> (reason: Option<&OxiQuicError>)
        ensures
            match reason {
                Some(e) => self@.peer_closed == Some(e@),
                None => self@.peer_closed is None,
            },
    {
        self.peer_closed.as_ref()
    }

    /// The identifier issued to the peer first.
    pub fn local_cid(&self) -> (cid: &ConnectionId)
        ensures
            cid@ == self@.local_cid,
    {
        &self.local_cid
    }

    /// The identifier packets are sent to.
    pub fn peer_cid(&self) -> (cid: &ConnectionId)
        ensures
            cid@ == self@.peer_cid,
    {
        &self.peer_cid
    }

    /// How many Retry packets were accepted.
    pub fn retry_count(&self) -> (n: u64)
        ensures
            n == self@.retry_count,
    {
        self.retry_count
    }

    /// The token that Initial packets carry.
    pub fn retry_token(&self) -> (token: &[u8])
        ensures
            token@ == self@.retry_token,
    {
        self.retry_token.as_slice()
    }

    /// When the connection closes if it stays idle.
    pub fn idle_deadline(&self) -> (t: Option<Instant>)
        ensures
            t == self@.idle_deadline,
    {
        self.idle_deadline
    }

    /// When the loss detection timer fires.
    pub fn loss_deadline(&self) -> (t: Option<Instant>)
        ensures
            t == self@.recovery.loss_timer,
    {
        self.recovery.loss_timer()
    }

    /// How many datagrams and bytes came in.
    pub fn received(&self) -> (n: (u64, u64))
        ensures
            n == (self@.packets_recv, self@.bytes_recv),
    {
        (self.packets_recv, self.bytes_recv)
    }

    /// Whether an acknowledgement is owed for packets of this type.
    pub fn ack_owed(&self, packet_type: PacketType) -> (owed: bool)
        ensures
            owed == match packet_type {
                PacketType::Initial => self@.initial.ack_owed,
                PacketType::Handshake => self@.handshake.ack_owed,
                _ => self@.application.ack_owed,
            },
    {
        match packet_type {
            PacketType::Initial => self.initial.ack_owed(),
            PacketType::Handshake => self.handshake.ack_owed(),
            _ => self.application.ack_owed(),
        }
    }

    /// The next handshake data to send in packets of this type, at most `max` bytes:
    /// its offset and the bytes. Only Initial and Handshake packets carry any.
    pub fn take_crypto(&mut self, packet_type: PacketType, max: usize) -> (r: Option<
        (u64, Vec<u8>),
    >)
        requires
            old(self)@.wf(),
        ensures
            final(self)@.wf(),
            match packet_type {
                PacketType::Initial => {
                    &&& opt_segment(r) == old(self)@.initial_crypto.next_segment(max as nat)
                    &&& final(self)@ == (Conn {
                        initial_crypto: old(self)@.initial_crypto.after_next_segment(max as nat),
                        ..old(self)@
                    })
                },
                PacketType::Handshake => {
                    &&& opt_segment(r) == old(self)@.handshake_crypto.next_segment(max as nat)
                    &&& final(self)@ == (Conn {
                        handshake_crypto: old(self)@.handshake_crypto.after_next_segment(
                            max as nat,
                        ),
                        ..old(self)@
                    })
                },
                _ => r is None && final(self)@ == old(self)@,
            },
    {
        match packet_type {
            PacketType::Initial => self.initial_crypto.take_send(max),
            PacketType::Handshake => self.handshake_crypto.take_send(max),
            _ => None,
        }
    }

    /// The payload of the next PATH_CHALLENGE frame to send.
    pub fn take_path_challenge(&mut self) -> (data: Option<[u8; 8]>)
        ensures
            if old(self)@.path.challenge_send {
                &&& opt_data(data) == old(self)@.path.challenge
                &&& final(self)@ == (Conn {
                    path: PathProbeState { challenge_send: false, ..old(self)@.path },
                    ..old(self)@
                })
            } else {
                data is None && final(self)@ == old(self)@
            },
    {
        self.path.take_challenge()
    }

    /// The payload of the next PATH_RESPONSE frame to send.
    pub fn take_path_response(&mut self) -> (data: Option<[u8; 8]>)
        ensures
            opt_data(data) == old(self)@.path.response,
            final(self)@ == (Conn {
                path: PathProbeState { response: None, ..old(self)@.path },
                ..old(self)@
            }),
    {
        self.path.take_response()
    }

    /// The next change to the routing of datagrams.
    pub fn pop_cid_event(&mut self) -> (event: Option<CidEvent>)
        ensures
            match event {
                Some(e) => {
                    &&& old(self)@.cid_events.len() > 0
                    &&& e@ == old(self)@.cid_events[0]
                    &&& final(self)@ == (Conn {
                        cid_events: old(self)@.cid_events.drop_first(),
                        ..old(self)@
                    })
                },
                None => old(self)@.cid_events.len() == 0 && final(self)@ == old(self)@,
            },
    {
        let event = self.cid_events.pop_front();
        assert(old(self)@.cid_events.len() > 0 ==> self@.cid_events
            =~= old(self)@.cid_events.drop_first());
        event
    }

    /// The next datagram received.
    pub fn recv_datagram(&mut self) -> (data: Option<Vec<u8>>)
        ensures
            match data {
                Some(d) => {
                    &&& old(self)@.datagrams.queue.len() > 0
                    &&& d@ == old(self)@.datagrams.queue[0]
                    &&& final(self)@ == (Conn {
                        datagrams: DatagramState {
                            queue: old(self)@.datagrams.queue.drop_first(),
                            ..old(self)@.datagrams
                        },
                        ..old(self)@
                    })
                },
                None => old(self)@.datagrams.queue.len() == 0 && final(self)@ == old(self)@,
            },
    {
        self.datagrams.pop()
    }

    /// The token for a later connection that the server sent, once.
    pub fn take_received_token(&mut self) -> (token: Option<Vec<u8>>)
        ensures
            opt_token(token) == old(self)@.received_token,
            final(self)@ == (Conn { received_token: None, ..old(self)@ }),
    {
        let mut token: Option<Vec<u8>> = None;
        std::mem::swap(&mut token, &mut self.received_token);
        token
    }

    /// A stream that has something to read, or was reset.
    pub fn poll_readable(&mut self) -> (id: Option<StreamId>)
        ensures
            match id {
                Some(i) => {
                    &&& old(self)@.streams.readable.len() > 0
                    &&& i == old(self)@.streams.readable[0]
                    &&& final(self)@ == (Conn {
                        streams: StreamsState {
                            readable: old(self)@.streams.readable.drop_first(),
                            ..old(self)@.streams
                        },
                        ..old(self)@
                    })
                },
                None => old(self)@.streams.readable.len() == 0 && final(self)@ == old(self)@,
            },
    {
        self.streams.poll_readable()
    }

    /// A stream that the peer opened.
    pub fn poll_new_peer_stream(&mut self) -> (id: Option<StreamId>)
        ensures
            match id {
                Some(i) => {
                    &&& old(self)@.streams.new_peer.len() > 0
                    &&& i == old(self)@.streams.new_peer[0]
                    &&& final(self)@ == (Conn {
                        streams: StreamsState {
                            new_peer: old(self)@.streams.new_peer.drop_first(),
                            ..old(self)@.streams
                        },
                        ..old(self)@
                    })
                },
                None => old(self)@.streams.new_peer.len() == 0 && final(self)@ == old(self)@,
            },
    {
        self.streams.poll_new_peer_stream()
    }

    /// The bytes of a stream that are in order and unread, and whether the stream
    /// ends with them; the code if the peer has reset the stream. `None` for a
    /// stream that is not known.
    pub fn read_stream(&mut self, stream: StreamId) -> (r: Option<Result<(Vec<u8>, bool), u64>>)
        requires
            old(self)@.wf(),
        ensures
            final(self)@.wf(),
            if !old(self)@.streams.recv.contains_key(stream.0) {
                r is None && final(self)@ == old(self)@
            } else {
                let s = old(self)@.streams.recv[stream.0];
                match s.reset {
                    Some(code) => r == Some(Err::<(Vec<u8>, bool), u64>(code)) && final(self)@
                        == old(self)@,
                    None => {
                        &&& r matches Some(Ok((bytes, fin))) && bytes@ == s.unread && fin
                            == s.complete()
                        &&& final(self)@ == (Conn {
                            streams: StreamsState {
                                recv: old(self)@.streams.recv.insert(
                                    stream.0,
                                    RecvState { unread: Seq::empty(), ..s },
                                ),
                                ..old(self)@.streams
                            },
                            ..old(self)@
                        })
                    },
                }
            },
    {
        self.streams.read_stream(stream.0)
    }
}

/// A segment, if there is one, as a value.
pub open spec fn opt_segment(segment: Option<(u64, Vec<u8>)>) -> Option<(u64, Seq<u8>)> {
    match segment {
        Some((offset, bytes)) => Some((offset, bytes@)),
        None => None,
    }
}

/// What the peer's transport parameters set: the credit of the connection, the window and
/// number of streams of each direction, the peer's acknowledgement delay in milliseconds and
/// its exponent, and how many identifiers it keeps. Limits that are higher already stay.
pub proof fn law_peer_params_applied(c: Conn, p: TransportParams)
    ensures
        ({
            let after = c.with_peer_params(p);
            let (s, t) = (c.streams, after.streams);
            &&& t.conn_credit.limit == if p.initial_max_data > s.conn_credit.limit {
                p.initial_max_data as nat
            } else {
                s.conn_credit.limit
            }
            &&& t.conn_credit.sent == s.conn_credit.sent
            &&& t.peer_window == p.initial_max_stream_data_bidi_remote
            &&& t.bidi.peer_max == if p.initial_max_streams_bidi > s.bidi.peer_max {
                p.initial_max_streams_bidi
            } else {
                s.bidi.peer_max
            }
            &&& t.uni.peer_max == if p.initial_max_streams_uni > s.uni.peer_max {
                p.initial_max_streams_uni
            } else {
                s.uni.peer_max
            }
            &&& t.local_window == s.local_window && t.recv == s.recv && t.send == s.send
                && t.bidi.local_max == s.bidi.local_max && t.uni.local_max == s.uni.local_max
            &&& after.recovery.peer_max_ack_delay.nanos == p.max_ack_delay_ms * 1_000_000
            &&& after.recovery.ack_delay_exponent == Some(p.ack_delay_exponent)
            &&& after.local_cids.limit == p.active_connection_id_limit
            &&& after.local_cids.active == c.local_cids.active
            &&& after == (Conn {
                streams: t,
                recovery: after.recovery,
                local_cids: after.local_cids,
                ..c
            })
        }),
{
}

/// A connection that was just opened is shaking hands and has nothing sent, received or
/// waiting. Its identifiers are those given, its Initial keys come from the client's first
/// destination, and what the peer may do is what the local parameters say.
pub proof fn law_opened_connection(setup: Setup, multipath: Paths)
    ensures
        ({
            let c = Conn::opened(setup, multipath);
            let p = setup.params;
            &&& c.role == setup.role
            &&& c.state == ConnectionState::Handshaking && !c.handshake_complete
                && !c.handshake_done
            &&& c.local_cid == setup.local_cid@ && c.initial_dcid == setup.initial_dcid@
                && c.peer_cid == setup.peer_cid@
            &&& c.path.peer_addr == setup.peer_addr && c.path.candidate is None
                && c.path.challenge is None && !c.path.validated
            &&& !c.retry_done && c.retry_count == 0 && c.retry_token.len() == 0
            &&& c.keys.initial == Some(
                initial_keys_of(setup.suite, setup.initial_dcid@, setup.role),
            ) && c.keys.handshake is None && c.keys.zero_rtt is None && c.keys.one_rtt is None
                && !c.keys.one_rtt_ready && !c.keys.key_phase && c.keys.cooldown is None
            &&& c.streams.local_window == p.initial_max_stream_data_bidi_remote
            &&& c.streams.bidi.local_max == p.initial_max_streams_bidi && c.streams.bidi.sent_max
                == p.initial_max_streams_bidi && c.streams.bidi.peer_max == 0
            &&& c.streams.uni.local_max == p.initial_max_streams_uni && c.streams.uni.sent_max
                == p.initial_max_streams_uni && c.streams.uni.peer_max == 0
            &&& c.streams.conn_credit.limit == 0 && c.streams.peer_window == 0
            &&& c.local_cids.active.len() == 1 && c.local_cids.active[0].seq == 0
                && c.local_cids.active[0].cid == setup.local_cid@ && c.local_cids.limit == 2
            &&& c.peer_cids.active.len() == 0 && c.peer_cids.limit == p.active_connection_id_limit
            &&& c.datagrams.local_max == p.max_datagram_frame_size && c.datagrams.limit
                == setup.datagram_buffer && c.datagrams.queue.len() == 0
            &&& c.idle_timeout_ms == p.max_idle_timeout_ms && c.idle_deadline is None
            &&& c.recovery.initial.packets.len() == 0 && c.recovery.handshake.packets.len() == 0
                && c.recovery.application.packets.len() == 0 && c.recovery.loss_timer is None
                && c.recovery.probes_owed == 0 && !c.recovery.rtt.sampled
            &&& c.peer_closed is None && c.received_token is None && c.pending_new_token is None
            &&& c.packets_recv == 0 && c.bytes_recv == 0 && c.cid_events.len() == 0
            &&& c.reads.len() == 0 && c.draws.len() == 0
        }),
{
}

} // verus!
