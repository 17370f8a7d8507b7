//! The streams of a connection and their limits.
use crate::error::{transport_error, ErrorView, OxiQuicError, TransportErrorCode};
use crate::flow_control::{
    RecvCredit, SendCredit, SendFlowControl, StreamRecvFlow, StreamSendFlow,
};
use crate::stream::{
    RecvState, RecvStream, SendState, SendStream, StreamError, StreamResend,
};
use crate::types::{Direction, Initiator, Role, StreamId};
use std::collections::{HashMap, VecDeque};
use vstd::prelude::*;

verus! {

/// How many streams of one kind may be opened.
#[derive(Clone, Copy, Debug, PartialEq, Eq, Structural)]
pub struct StreamLimits {
    /// How many the peer lets us open.
    pub peer_max: u64,
    /// How many we let the peer open at first.
    pub local_max: u64,
    /// How many that the peer opened are closed.
    pub closed_peer: u64,
    /// The limit that was last sent to the peer.
    pub sent_max: u64,
    /// The limit to be sent to the peer.
    pub pending_max: Option<u64>,
    /// The limit of the peer's that we ran into, to be reported.
    pub pending_blocked: Option<u64>,
}

impl StreamLimits {
    /// The peer may open `local` streams, and lets us open none yet.
    pub open spec fn fresh(local: u64) -> StreamLimits {
        StreamLimits {
            peer_max: 0,
            local_max: local,
            closed_peer: 0,
            sent_max: local,
            pending_max: None,
            pending_blocked: None,
        }
    }

    /// The peer may open `local` streams, and lets us open none yet.
    pub fn new(local: u64) -> (limits: StreamLimits)
        ensures
            limits == StreamLimits::fresh(local),
    {
        StreamLimits {
            peer_max: 0,
            local_max: local,
            closed_peer: 0,
            sent_max: local,
            pending_max: None,
            pending_blocked: None,
        }
    }

    /// The sum of the first limit and the closed streams is in range.
    pub open spec fn wf(self) -> bool {
        self.local_max + self.closed_peer <= u64::MAX
    }

    /// After the pending limit was sent: it is not sent again unless it is raised.
    pub open spec fn announced(self) -> StreamLimits {
        match self.pending_max {
            Some(max) => StreamLimits {
                pending_max: None,
                sent_max: if max > self.sent_max {
                    max
                } else {
                    self.sent_max
                },
                ..self
            },
            None => self,
        }
    }

    /// Takes the limit to send, if there is one; it counts as sent.
    pub fn take_max(&mut self) -> (max: Option<u64>)
        ensures
            max == old(self).pending_max,
            *final(self) == old(self).announced(),
    {
        let max = self.pending_max;
        match max {
            Some(m) => {
                self.pending_max = None;
                if m > self.sent_max {
                    self.sent_max = m;
                }
            },
            None => {},
        }
        max
    }

    /// After the peer raised its limit; a lower one is ignored.
    pub open spec fn with_peer_max(self, max: u64) -> StreamLimits {
        if max > self.peer_max {
            StreamLimits { peer_max: max, ..self }
        } else {
            self
        }
    }

    /// After the peer said that it is blocked: one more stream for each that is
    /// closed, if that is more than was sent.
    pub open spec fn raised(self) -> StreamLimits {
        let max = self.local_max + self.closed_peer;
        if max > self.sent_max {
            StreamLimits { pending_max: Some(max as u64), ..self }
        } else {
            self
        }
    }

    /// After a limit that was sent got lost: only the highest is sent again.
    pub open spec fn with_lost_max(self, max: u64) -> StreamLimits {
        match self.pending_max {
            Some(existing) if max <= existing => self,
            _ => StreamLimits { pending_max: Some(max), ..self },
        }
    }
}

/// The streams of a connection.
#[verifier::ext_equal]
pub struct StreamsState {
    /// The sending sides.
    pub send: Map<u64, SendState>,
    /// The receiving sides.
    pub recv: Map<u64, RecvState>,
    /// The peer's credit per stream.
    pub send_credit: Map<u64, SendCredit>,
    /// The credit given to the peer per stream.
    pub recv_credit: Map<u64, RecvCredit>,
    /// RESET_STREAM frames to be sent: error code and final size.
    pub pending_resets: Map<u64, (u64, u64)>,
    /// Streams that the peer opened and nobody has been told of.
    pub new_peer: Seq<StreamId>,
    /// Streams with something to read.
    pub readable: Seq<StreamId>,
    /// The peer's credit for the whole connection.
    pub conn_credit: SendCredit,
    /// The peer's first credit per stream.
    pub peer_window: u64,
    /// The first credit given to the peer per stream.
    pub local_window: u64,
    /// The limits on bidirectional streams.
    pub bidi: StreamLimits,
    /// The limits on unidirectional streams.
    pub uni: StreamLimits,
}

/// The value under a key, or another if there is none.
pub open spec fn get_or<V>(m: Map<u64, V>, k: u64, default: V) -> V {
    if m.contains_key(k) {
        m[k]
    } else {
        default
    }
}

/// Whether a stream was opened by the peer of an endpoint with this role.
pub open spec fn opened_by_peer(role: Role, id: StreamId) -> bool {
    match role {
        Role::Client => id.spec_initiator() == Initiator::Server,
        Role::Server => id.spec_initiator() == Initiator::Client,
    }
}

impl StreamsState {
    /// No stream is open. The peer may open `max_bidi` and `max_uni` streams and send
    /// `local_window` bytes on each.
    pub open spec fn fresh(local_window: u64, max_bidi: u64, max_uni: u64) -> StreamsState {
        StreamsState {
            send: Map::empty(),
            recv: Map::empty(),
            send_credit: Map::empty(),
            recv_credit: Map::empty(),
            pending_resets: Map::empty(),
            new_peer: Seq::empty(),
            readable: Seq::empty(),
            conn_credit: SendCredit::fresh(0),
            peer_window: 0,
            local_window,
            bidi: StreamLimits::fresh(max_bidi),
            uni: StreamLimits::fresh(max_uni),
        }
    }

    /// What arrives is kept in order, and limits are in range.
    pub open spec fn wf(self) -> bool {
        &&& forall|id: u64| #[trigger] self.recv.contains_key(id) ==> self.recv[id].wf()
        &&& self.bidi.wf()
        &&& self.uni.wf()
    }

    /// After a STREAM frame for `id` made sure that the stream exists: a stream
    /// that the peer opened is announced, and a bidirectional one can be sent on.
    pub open spec fn with_stream(self, role: Role, id: u64) -> StreamsState {
        let sid = StreamId(id);
        let bidi = sid.spec_direction() == Direction::Bidirectional;
        StreamsState {
            send: if bidi {
                self.send.insert(id, get_or(self.send, id, SendState::fresh()))
            } else {
                self.send
            },
            send_credit: if bidi {
                self.send_credit.insert(
                    id,
                    get_or(self.send_credit, id, SendCredit::fresh(self.peer_window as nat)),
                )
            } else {
                self.send_credit
            },
            recv: self.recv.insert(id, get_or(self.recv, id, RecvState::fresh())),
            recv_credit: self.recv_credit.insert(
                id,
                get_or(self.recv_credit, id, RecvCredit::fresh(self.local_window as nat)),
            ),
            new_peer: if !self.recv.contains_key(id) && opened_by_peer(role, sid) {
                self.new_peer.push(sid)
            } else {
                self.new_peer
            },
            ..self
        }
    }

    /// What a STREAM frame leads to. Data for a stream that the peer has reset is
    /// ignored; data that contradicts the final size is an error.
    pub open spec fn with_data(
        self,
        role: Role,
        id: u64,
        offset: u64,
        fin: bool,
        data: Seq<u8>,
    ) -> (StreamsState, Result<(), ErrorView>) {
        let s = self.with_stream(role, id);
        let stream = s.recv[id];
        if stream.reset is Some {
            (s, Ok(()))
        } else if stream.contradicts((offset + data.len()) as u64, fin) {
            (
                s,
                Err(
                    ErrorView::TransportError(
                        TransportErrorCode::FinalSizeError,
                        None,
                        "stream final size violation"@,
                    ),
                ),
            )
        } else {
            (
                StreamsState {
                    recv: s.recv.insert(id, stream.with_data(offset, data, fin)),
                    readable: if stream.news(offset, data, fin) {
                        s.readable.push(StreamId(id))
                    } else {
                        s.readable
                    },
                    ..s
                },
                Ok(()),
            )
        }
    }

    /// After a RESET_STREAM frame: the application will see the code.
    pub open spec fn with_reset(self, id: u64, code: u64) -> StreamsState {
        StreamsState {
            recv: self.recv.insert(
                id,
                RecvState { reset: Some(code), ..get_or(self.recv, id, RecvState::fresh()) },
            ),
            readable: self.readable.push(StreamId(id)),
            ..self
        }
    }

    /// The code with which a STOP_SENDING frame makes a stream reset: that of an
    /// earlier reset, else the one asked for.
    pub open spec fn stop_code(self, id: u64, code: u64) -> u64 {
        match self.send[id].reset {
            Some(earlier) => earlier,
            None => code,
        }
    }

    /// After a STOP_SENDING frame: a known stream is reset, and the peer is told.
    pub open spec fn with_stop(self, id: u64, code: u64) -> StreamsState {
        if self.send.contains_key(id) {
            let s = self.send[id];
            let code = self.stop_code(id, code);
            StreamsState {
                send: self.send.insert(
                    id,
                    if s.reset is Some {
                        s
                    } else {
                        SendState { reset: Some(code), resend: Seq::empty(), ..s }
                    },
                ),
                pending_resets: self.pending_resets.insert(id, (code, s.written)),
                ..self
            }
        } else {
            self
        }
    }

    /// After a MAX_STREAM_DATA frame.
    pub open spec fn with_max_stream_data(self, id: u64, max: u64) -> StreamsState {
        StreamsState {
            send_credit: self.send_credit.insert(
                id,
                get_or(self.send_credit, id, SendCredit::fresh(self.peer_window as nat)).raised(
                    max as nat,
                ),
            ),
            ..self
        }
    }

    /// The limits on streams of one kind.
    pub open spec fn limits(self, dir: Direction) -> StreamLimits {
        match dir {
            Direction::Bidirectional => self.bidi,
            Direction::Unidirectional => self.uni,
        }
    }

    /// With other limits on streams of one kind.
    pub open spec fn with_limits(self, dir: Direction, limits: StreamLimits) -> StreamsState {
        match dir {
            Direction::Bidirectional => StreamsState { bidi: limits, ..self },
            Direction::Unidirectional => StreamsState { uni: limits, ..self },
        }
    }

    /// After stream data got lost: it goes out again if the stream is known.
    pub open spec fn with_lost_data(
        self,
        id: u64,
        offset: u64,
        data: Seq<u8>,
        fin: bool,
    ) -> StreamsState {
        if self.send.contains_key(id) {
            let s = self.send[id];
            StreamsState {
                send: self.send.insert(
                    id,
                    SendState { resend: s.resend.push((offset, data, fin)), ..s },
                ),
                ..self
            }
        } else {
            self
        }
    }
}

/// The streams of a connection.
pub struct Streams {
    send: HashMap<u64, SendStream>,
    recv: HashMap<u64, RecvStream>,
    send_flow: HashMap<u64, StreamSendFlow>,
    recv_flow: HashMap<u64, StreamRecvFlow>,
    pending_resets: HashMap<u64, (u64, u64)>,
    new_peer: VecDeque<StreamId>,
    readable: VecDeque<StreamId>,
    conn_flow: SendFlowControl,
    peer_window: u64,
    local_window: u64,
    bidi: StreamLimits,
    uni: StreamLimits,
}

spec fn send_views(m: Map<u64, SendStream>) -> Map<u64, SendState> {
    m.map_values(|s: SendStream| s@)
}

spec fn recv_views(m: Map<u64, RecvStream>) -> Map<u64, RecvState> {
    m.map_values(|s: RecvStream| s@)
}

spec fn send_flow_views(m: Map<u64, StreamSendFlow>) -> Map<u64, SendCredit> {
    m.map_values(|s: StreamSendFlow| s@)
}

spec fn recv_flow_views(m: Map<u64, StreamRecvFlow>) -> Map<u64, RecvCredit> {
    m.map_values(|s: StreamRecvFlow| s@)
}

impl View for Streams {
    type V = StreamsState;

    closed spec fn view(&self) -> StreamsState {
        StreamsState {
            send: send_views(self.send@),
            recv: recv_views(self.recv@),
            send_credit: send_flow_views(self.send_flow@),
            recv_credit: recv_flow_views(self.recv_flow@),
            pending_resets: self.pending_resets@,
            new_peer: self.new_peer@,
            readable: self.readable@,
            conn_credit: self.conn_flow@,
            peer_window: self.peer_window,
            local_window: self.local_window,
            bidi: self.bidi,
            uni: self.uni,
        }
    }
}

impl Streams {
    /// No stream is open. The peer may open `max_bidi` and `max_uni` streams and send
    /// `local_window` bytes on each.
    pub fn new(local_window: u64, max_bidi: u64, max_uni: u64) -> (s: Streams)
        ensures
            s@ == StreamsState::fresh(local_window, max_bidi, max_uni),
            s@.wf(),
    {
        let s = Streams {
            send: HashMap::new(),
            recv: HashMap::new(),
            send_flow: HashMap::new(),
            recv_flow: HashMap::new(),
            pending_resets: HashMap::new(),
            new_peer: VecDeque::new(),
            readable: VecDeque::new(),
            conn_flow: SendFlowControl::new(0),
            peer_window: 0,
            local_window,
            bidi: StreamLimits::new(max_bidi),
            uni: StreamLimits::new(max_uni),
        };
        assert(s@.send =~= Map::empty());
        assert(s@.recv =~= Map::empty());
        assert(s@.send_credit =~= Map::empty());
        assert(s@.recv_credit =~= Map::empty());
        s
    }

    /// The peer's parameters are known: its credit per connection and per stream,
    /// and how many streams it lets us open.
    pub fn set_peer_limits(&mut self, max_data: u64, window: u64, max_bidi: u64, max_uni: u64)
        ensures
            final(self)@ == (StreamsState {
                conn_credit: old(self)@.conn_credit.raised(max_data as nat),
                peer_window: window,
                bidi: old(self)@.bidi.with_peer_max(max_bidi),
                uni: old(self)@.uni.with_peer_max(max_uni),
                ..old(self)@
            }),
    {
        self.conn_flow.on_max_data(max_data);
        self.peer_window = window;
        if max_bidi > self.bidi.peer_max {
            self.bidi.peer_max = max_bidi;
        }
        if max_uni > self.uni.peer_max {
            self.uni.peer_max = max_uni;
        }
    }

    /// Raises the connection-level send limit (RFC 9000 Section 4.1).
    pub fn on_max_data(&mut self, max: u64)
        ensures
            final(self)@ == (StreamsState {
                conn_credit: old(self)@.conn_credit.raised(max as nat),
                ..old(self)@
            }),
    {
        self.conn_flow.on_max_data(max);
    }

    /// Raises the send limit of a stream.
    pub fn on_max_stream_data(&mut self, id: u64, max: u64)
        ensures
            final(self)@ == old(self)@.with_max_stream_data(id, max),
    {
        let mut flow = match self.send_flow.remove(&id) {
            Some(flow) => flow,
            None => StreamSendFlow::new(self.peer_window),
        };
        flow.on_max_stream_data(max);
        self.send_flow.insert(id, flow);
        assert(self@.send_credit =~= old(self)@.with_max_stream_data(id, max).send_credit);
    }

    /// Raises the limit on streams that we may open (RFC 9000 Section 19.11).
    pub fn on_max_streams(&mut self, dir: Direction, max: u64)
        ensures
            final(self)@ == old(self)@.with_limits(
                dir,
                old(self)@.limits(dir).with_peer_max(max),
            ),
    {
        match dir {
            Direction::Bidirectional => {
                if max > self.bidi.peer_max {
                    self.bidi.peer_max = max;
                }
            },
            Direction::Unidirectional => {
                if max > self.uni.peer_max {
                    self.uni.peer_max = max;
                }
            },
        }
    }

    /// Proactively raise the MAX_STREAMS limit for `dir` when a STREAMS_BLOCKED
    /// is received from the peer (RFC 9000 Section 4.6). Uses a simple policy: bump
    /// by the number of peer-initiated streams that have been closed.
    pub fn maybe_raise_max_streams(&mut self, dir: Direction)
        requires
            old(self)@.wf(),
        ensures
            final(self)@ == old(self)@.with_limits(dir, old(self)@.limits(dir).raised()),
    {
        match dir {
            Direction::Bidirectional => {
                let new_max: u64 = self.bidi.local_max + self.bidi.closed_peer;
                if new_max > self.bidi.sent_max {
                    self.bidi.pending_max = Some(new_max);
                }
            },
            Direction::Unidirectional => {
                let new_max: u64 = self.uni.local_max + self.uni.closed_peer;
                if new_max > self.uni.sent_max {
                    self.uni.pending_max = Some(new_max);
                }
            },
        }
    }

    /// Takes in stream data, opening the stream if it is new.
    ///
    /// # Errors
    /// FINAL_SIZE_ERROR if the data contradicts the final size of the stream.
    pub fn recv_stream(&mut self, role: Role, id: u64, offset: u64, fin: bool, data: &[u8]) -> (r:
        Result<(), OxiQuicError>)
        requires
            old(self)@.wf(),
            offset + data@.len() <= u64::MAX,
        ensures
            final(self)@.wf(),
            final(self)@ == old(self)@.with_data(role, id, offset, fin, data@).0,
            match old(self)@.with_data(role, id, offset, fin, data@).1 {
                Ok(_) => r is Ok,
                Err(error) => r matches Err(e) && e@ == error,
            },
    {
        // Auto-create the recv (and, for a peer-opened bidi stream, send) state.
        let stream_id = StreamId(id);
        // Whether the stream was opened by the remote endpoint: its initiator bit
        // does not match our role.
        let peer_initiated: bool = match role {
            Role::Client => stream_id.initiator() == Initiator::Server,
            Role::Server => stream_id.initiator() == Initiator::Client,
        };
        // Track peer-initiated streams the first time we see them.
        let is_new: bool = !self.recv.contains_key(&id);
        if is_new && peer_initiated {
            self.new_peer.push_back(stream_id);
        }
        if stream_id.direction() == Direction::Bidirectional {
            if !self.send.contains_key(&id) {
                self.send.insert(id, SendStream::new());
            }
            if !self.send_flow.contains_key(&id) {
                self.send_flow.insert(id, StreamSendFlow::new(self.peer_window));
            }
        }
        if !self.recv_flow.contains_key(&id) {
            self.recv_flow.insert(id, StreamRecvFlow::new(self.local_window));
        }
        let mut s = match self.recv.remove(&id) {
            Some(s) => s,
            None => RecvStream::new(),
        };
        let ghost mid = old(self)@.with_stream(role, id);
        assert(self@.send =~= mid.send);
        assert(self@.send_credit =~= mid.send_credit);
        assert(self@.recv_credit =~= mid.recv_credit);
        assert(s@ == mid.recv[id]);
        assert(self@.recv =~= old(self)@.recv.remove(id));
        // If the stream has already been reset by the peer, ignore further
        // STREAM frames (RFC 9000 Section 3.2).
        if s.is_reset() {
            self.recv.insert(id, s);
            assert(self@.recv =~= mid.recv);
            return Ok(());
        }
        let r = s.recv(offset, data, fin);
        let ghost after = s@;
        self.recv.insert(id, s);
        assert(self@.recv =~= mid.recv.insert(id, after));
        match r {
            Ok(news) => {
                if news {
                    self.readable.push_back(stream_id);
                }
                Ok(())
            },
            Err(StreamError::FinalSize) => {
                assert(self@.recv =~= mid.recv);
                Err(
                    transport_error(
                        TransportErrorCode::FinalSizeError,
                        "stream final size violation",
                    ),
                )
            },
        }
    }

    /// Handle a received `RESET_STREAM` frame (RFC 9000 Section 19.4): mark the
    /// receive stream as reset so the application can observe the error code. A
    /// stream that is not known yet is created for that.
    pub fn recv_reset_stream(&mut self, id: u64, error_code: u64)
        requires
            old(self)@.wf(),
        ensures
            final(self)@.wf(),
            final(self)@ == old(self)@.with_reset(id, error_code),
    {
        let mut s = match self.recv.remove(&id) {
            Some(s) => s,
            None => RecvStream::new(),
        };
        s.apply_reset(error_code);
        self.recv.insert(id, s);
        assert(self@.recv =~= old(self)@.with_reset(id, error_code).recv);
        // Surface to the application so it can observe the reset.
        self.readable.push_back(StreamId(id));
    }

    /// Handle a received `STOP_SENDING` frame (RFC 9000 Section 19.5): respond with
    /// a `RESET_STREAM` on the send side using the provided error code, or that of
    /// an earlier reset so that the peer sees one code (RFC 9000 Section 3.5).
    /// Unknown streams are ignored.
    pub fn recv_stop_sending(&mut self, id: u64, error_code: u64)
        ensures
            final(self)@ == old(self)@.with_stop(id, error_code),
    {
        match self.send.remove(&id) {
            Some(mut s) => {
                let effective_code: u64 = match s.reset_code() {
                    Some(code) => code,
                    None => error_code,
                };
                // Capture the final size before (potentially) resetting.
                let final_size: u64 = s.final_size();
                if !s.is_reset() {
                    s.reset(effective_code);
                }
                self.send.insert(id, s);
                // Queue a RESET_STREAM to inform the peer.
                self.pending_resets.insert(id, (effective_code, final_size));
                assert(self@.send =~= old(self)@.with_stop(id, error_code).send);
            },
            None => {
                assert(self@.send =~= old(self)@.send);
            },
        }
    }

    /// Queues lost stream data to go out again, if the stream is known.
    pub fn requeue(&mut self, id: u64, offset: u64, data: Vec<u8>, fin: bool)
        ensures
            final(self)@ == old(self)@.with_lost_data(id, offset, data@, fin),
    {
        match self.send.remove(&id) {
            Some(mut s) => {
                s.requeue(offset, data, fin);
                self.send.insert(id, s);
                assert(self@.send =~= old(self)@.with_lost_data(id, offset, data@, fin).send);
            },
            None => {
                assert(self@.send =~= old(self)@.send);
            },
        }
    }

    /// A limit that was sent got lost: it is sent again unless a higher one waits.
    pub fn requeue_max_streams(&mut self, dir: Direction, max: u64)
        ensures
            final(self)@ == old(self)@.with_limits(
                dir,
                old(self)@.limits(dir).with_lost_max(max),
            ),
    {
        match dir {
            Direction::Bidirectional => {
                let higher: bool = match self.bidi.pending_max {
                    Some(existing) => max > existing,
                    None => true,
                };
                if higher {
                    self.bidi.pending_max = Some(max);
                }
            },
            Direction::Unidirectional => {
                let higher: bool = match self.uni.pending_max {
                    Some(existing) => max > existing,
                    None => true,
                };
                if higher {
                    self.uni.pending_max = Some(max);
                }
            },
        }
    }

    /// A report that we ran into a limit got lost: it is sent again.
    pub fn requeue_streams_blocked(&mut self, dir: Direction, limit: u64)
        ensures
            final(self)@ == old(self)@.with_limits(
                dir,
                StreamLimits { pending_blocked: Some(limit), ..old(self)@.limits(dir) },
            ),
    {
        match dir {
            Direction::Bidirectional => {
                self.bidi.pending_blocked = Some(limit);
            },
            Direction::Unidirectional => {
                self.uni.pending_blocked = Some(limit);
            },
        }
    }

    /// The limit on the peer's streams that is to be announced, once.
    pub fn take_max_streams(&mut self, dir: Direction) -> (max: Option<u64>)
        ensures
            max == old(self)@.limits(dir).pending_max,
            final(self)@ == old(self)@.with_limits(dir, old(self)@.limits(dir).announced()),
    {
        match dir {
            Direction::Bidirectional => self.bidi.take_max(),
            Direction::Unidirectional => self.uni.take_max(),
        }
    }

    /// The limit to report as run into, once.
    pub fn take_blocked(&mut self, dir: Direction) -> (limit: Option<u64>)
        ensures
            limit == old(self)@.limits(dir).pending_blocked,
            final(self)@ == old(self)@.with_limits(
                dir,
                StreamLimits { pending_blocked: None, ..old(self)@.limits(dir) },
            ),
    {
        match dir {
            Direction::Bidirectional => {
                let limit = self.bidi.pending_blocked;
                self.bidi.pending_blocked = None;
                limit
            },
            Direction::Unidirectional => {
                let limit = self.uni.pending_blocked;
                self.uni.pending_blocked = None;
                limit
            },
        }
    }

    /// The code and final size to reset a stream with, once.
    pub fn take_reset(&mut self, id: u64) -> (reset: Option<(u64, u64)>)
        ensures
            reset == if old(self)@.pending_resets.contains_key(id) {
                Some(old(self)@.pending_resets[id])
            } else {
                None
            },
            final(self)@ == (StreamsState {
                pending_resets: old(self)@.pending_resets.remove(id),
                ..old(self)@
            }),
    {
        let reset = self.pending_resets.remove(&id);
        assert(self@.pending_resets =~= old(self)@.pending_resets.remove(id));
        reset
    }

    /// The lost data of a stream that goes out again next.
    pub fn take_lost_data(&mut self, id: u64) -> (lost: Option<StreamResend>)
        ensures
            if old(self)@.send.contains_key(id) && old(self)@.send[id].resend.len() > 0 {
                let s = old(self)@.send[id];
                &&& lost matches Some(l) && (l.offset, l.data@, l.fin) == s.resend[0]
                &&& final(self)@ == (StreamsState {
                    send: old(self)@.send.insert(
                        id,
                        SendState { resend: s.resend.drop_first(), ..s },
                    ),
                    ..old(self)@
                })
            } else {
                lost is None && final(self)@ == old(self)@
            },
    {
        match self.send.remove(&id) {
            Some(mut s) => {
                let lost = s.take_resend();
                self.send.insert(id, s);
                assert(self@.send =~= old(self)@.send.insert(id, s@));
                assert(old(self)@.send.insert(id, old(self)@.send[id]) =~= old(self)@.send);
                lost
            },
            None => {
                assert(self@.send =~= old(self)@.send);
                None
            },
        }
    }

    /// The next stream with something to read.
    pub fn poll_readable(&mut self) -> (id: Option<StreamId>)
        ensures
            match id {
                Some(i) => old(self)@.readable.len() > 0 && i == old(self)@.readable[0]
                    && final(self)@ == (StreamsState {
                    readable: old(self)@.readable.drop_first(),
                    ..old(self)@
                }),
                None => old(self)@.readable.len() == 0 && final(self)@ == old(self)@,
            },
    {
        let id = self.readable.pop_front();
        assert(old(self)@.readable.len() > 0 ==> self@.readable
            =~= old(self)@.readable.drop_first());
        id
    }

    /// The next stream that the peer opened.
    pub fn poll_new_peer_stream(&mut self) -> (id: Option<StreamId>)
        ensures
            match id {
                Some(i) => old(self)@.new_peer.len() > 0 && i == old(self)@.new_peer[0]
                    && final(self)@ == (StreamsState {
                    new_peer: old(self)@.new_peer.drop_first(),
                    ..old(self)@
                }),
                None => old(self)@.new_peer.len() == 0 && final(self)@ == old(self)@,
            },
    {
        let id = self.new_peer.pop_front();
        assert(old(self)@.new_peer.len() > 0 ==> self@.new_peer
            =~= old(self)@.new_peer.drop_first());
        id
    }

    /// The bytes of a stream that are in order and unread, and whether the stream
    /// ends with them; the code if the peer has reset the stream. `None` for a
    /// stream that is not known.
    pub fn read_stream(&mut self, id: u64) -> (r: Option<Result<(Vec<u8>, bool), u64>>)
        requires
            old(self)@.wf(),
        ensures
            final(self)@.wf(),
            if !old(self)@.recv.contains_key(id) {
                r is None && final(self)@ == old(self)@
            } else {
                let s = old(self)@.recv[id];
                match s.reset {
                    Some(code) => r == Some(Err::<(Vec<u8>, bool), u64>(code)) && final(self)@
                        == old(self)@,
                    None => {
                        &&& r matches Some(Ok((bytes, fin))) && bytes@ == s.unread && fin
                            == s.complete()
                        &&& final(self)@ == (StreamsState {
                            recv: old(self)@.recv.insert(
                                id,
                                RecvState { unread: Seq::empty(), ..s },
                            ),
                            ..old(self)@
                        })
                    },
                }
            },
    {
        match self.recv.remove(&id) {
            Some(mut s) => {
                let r = match s.reset_code() {
                    Some(code) => Err(code),
                    None => Ok(s.read()),
                };
                self.recv.insert(id, s);
                assert(self@.recv =~= old(self)@.recv.insert(id, s@));
                assert(old(self)@.recv.insert(id, old(self)@.recv[id]) =~= old(self)@.recv);
                Some(r)
            },
            None => {
                assert(self@.recv =~= old(self)@.recv);
                None
            },
        }
    }
}

/// Stream data after a reset is ignored: the application keeps seeing the reset.
pub proof fn law_data_after_reset_ignored(
    s: StreamsState,
    role: Role,
    id: u64,
    code: u64,
    offset: u64,
    fin: bool,
    data: Seq<u8>,
)
    ensures
        ({
            let reset = s.with_reset(id, code);
            let (after, r) = reset.with_data(role, id, offset, fin, data);
            r is Ok && after.recv[id] == reset.recv[id] && after.readable == reset.readable
        }),
{
}

/// The peer sees one code: a stream that was asked to stop answers every further
/// request with the code of the first.
pub proof fn law_one_reset_code(s: StreamsState, id: u64, first: u64, second: u64)
    requires
        s.send.contains_key(id),
    ensures
        s.with_stop(id, first).with_stop(id, second).pending_resets[id] == s.with_stop(
            id,
            first,
        ).pending_resets[id],
{
}

/// A stream that the peer opened is announced once, when it is first seen.
pub proof fn law_announced_once(
    s: StreamsState,
    role: Role,
    id: u64,
    offset: u64,
    fin: bool,
    data: Seq<u8>,
)
    ensures
        ({
            let first = s.with_stream(role, id);
            let again = first.with_data(role, id, offset, fin, data).0;
            &&& again.new_peer == first.new_peer
            &&& !s.recv.contains_key(id) && opened_by_peer(role, StreamId(id))
                ==> first.new_peer == s.new_peer.push(StreamId(id))
        }),
{
}

/// Stream limits are monotonic: no MAX_STREAMS frame lowers one.
pub proof fn law_stream_limit_monotonic(l: StreamLimits, a: u64, b: u64)
    ensures
        l.with_peer_max(a).peer_max >= l.peer_max,
        l.with_peer_max(a).peer_max >= a,
        l.with_peer_max(a).with_peer_max(b) == l.with_peer_max(b).with_peer_max(a),
{
}

/// A limit that is to be announced is announced once: then none waits, and the limit counts
/// as announced unless a higher one did. What the peer allows does not matter to it.
pub proof fn law_limit_announced(l: StreamLimits, max: u64)
    ensures
        l.announced().pending_max is None,
        l.pending_max is None ==> l.announced() == l,
        l.pending_max matches Some(m) ==> l.announced().sent_max == if m > l.sent_max {
            m
        } else {
            l.sent_max
        },
        l.announced().peer_max == l.peer_max,
        l.announced().local_max == l.local_max,
        l.announced().closed_peer == l.closed_peer,
        l.announced().pending_blocked == l.pending_blocked,
        l.with_lost_max(max).pending_max matches Some(m) && m >= max && (m == max || l.pending_max
            == Some(m)),
{
}

/// Who opened a stream and which way it goes, by the two low bits of its identifier (RFC 9000
/// Section 2.1).
pub proof fn law_stream_identifiers(n: u64)
    requires
        n <= 0x0fff_ffff_ffff_ffff,
    ensures
        StreamId((4 * n) as u64).spec_initiator() == Initiator::Client,
        StreamId((4 * n) as u64).spec_direction() == Direction::Bidirectional,
        StreamId((4 * n + 1) as u64).spec_initiator() == Initiator::Server,
        StreamId((4 * n + 1) as u64).spec_direction() == Direction::Bidirectional,
        StreamId((4 * n + 2) as u64).spec_initiator() == Initiator::Client,
        StreamId((4 * n + 2) as u64).spec_direction() == Direction::Unidirectional,
        StreamId((4 * n + 3) as u64).spec_initiator() == Initiator::Server,
        StreamId((4 * n + 3) as u64).spec_direction() == Direction::Unidirectional,
        opened_by_peer(Role::Server, StreamId((4 * n) as u64)),
        opened_by_peer(Role::Server, StreamId((4 * n + 2) as u64)),
        opened_by_peer(Role::Client, StreamId((4 * n + 1) as u64)),
        opened_by_peer(Role::Client, StreamId((4 * n + 3) as u64)),
        !opened_by_peer(Role::Client, StreamId((4 * n) as u64)),
        !opened_by_peer(Role::Client, StreamId((4 * n + 2) as u64)),
        !opened_by_peer(Role::Server, StreamId((4 * n + 1) as u64)),
        !opened_by_peer(Role::Server, StreamId((4 * n + 3) as u64)),
{
}

} // verus!
