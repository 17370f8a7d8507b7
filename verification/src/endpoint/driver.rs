//! Driving one connection: datagrams in, and what a caller waits for.
use crate::cid::CidEvent;
use crate::connection::arrival::DatagramRun;
use crate::connection::model::FrameAnswers;
use crate::connection::model::Conn;
use crate::connection::{challenge_begun, cid_event_views, Connection};
use crate::error::{ConnectionFault, ErrorView, FrameType, OxiQuicError, TransportErrorCode};
use crate::time::Instant;
use crate::types::{ConnectionState, SocketAddr};
use vstd::prelude::*;
use vstd::string::StringExecFns;

verus! {

/// A connection and the address its datagrams come from.
#[verifier::ext_equal]
pub struct DriverState {
    /// The connection.
    pub conn: Conn,
    /// The address, once it is known.
    pub peer: Option<SocketAddr>,
}

impl DriverState {
    /// Before a datagram from `from` is worked through: the first address is taken
    /// as the peer's; another one, on an established connection, is a candidate to
    /// move to and gets a path challenge (RFC 9000 Section 9.3).
    pub open spec fn noticed(self, from: SocketAddr, random: Option<Seq<u8>>) -> DriverState {
        match self.peer {
            None => DriverState { peer: Some(from), ..self },
            Some(peer) => if peer != from && self.conn.state == ConnectionState::Established {
                DriverState {
                    conn: challenge_begun(
                        Conn { path: self.conn.path.with_candidate(from), ..self.conn },
                        random,
                    ).0,
                    ..self
                }
            } else {
                self
            },
        }
    }

    /// After a datagram was worked through: the address of a validated path is the
    /// peer's.
    pub open spec fn adopted(self) -> DriverState {
        if self.conn.path.validated {
            DriverState { peer: Some(self.conn.path.peer_addr), ..self }
        } else {
            self
        }
    }

    /// What a datagram leads to, given the state before it is worked through and how
    /// its packets went.
    pub open spec fn handled(self, run: DatagramRun) -> (DriverState, Result<(), ErrorView>) {
        let after = DriverState { conn: run.conn, ..self };
        match run.error {
            Some(e) => (after, Err(e)),
            None => (after.adopted(), Ok(())),
        }
    }
}

/// A connection and the address its datagrams come from.
pub struct Driver {
    conn: Connection,
    peer: Option<SocketAddr>,
}

impl View for Driver {
    type V = DriverState;

    closed spec fn view(&self) -> DriverState {
        DriverState { conn: self.conn@, peer: self.peer }
    }
}

/// What an error that ends a connection is reported as: the peer's own where it
/// carries a code.
pub open spec fn close_error_of(closed: Option<ErrorView>) -> ErrorView {
    match closed {
        Some(ErrorView::TransportError(code, frame_type, reason)) => ErrorView::TransportError(
            code,
            frame_type,
            reason,
        ),
        Some(ErrorView::ApplicationClose(code, reason)) => ErrorView::ApplicationClose(
            code,
            reason,
        ),
        _ => ErrorView::Connection(ConnectionFault::Closed),
    }
}

/// What a caller that waits for the handshake does next.
#[derive(Debug)]
pub enum HandshakeStep {
    /// The handshake is complete.
    Done,
    /// The connection was closed before that.
    Failed(OxiQuicError),
    /// Wait for the next datagram or timer.
    Wait,
}

/// What a caller that waits for something on the connection does next.
#[derive(Debug)]
pub enum WaitStep {
    /// It is there.
    Deliver,
    /// It will not come: the connection was closed.
    Failed(OxiQuicError),
    /// Wait for the next datagram or timer.
    Wait,
}

impl Driver {
    /// Drives `conn`, whose peer may be known already.
    pub fn new(conn: Connection, peer: Option<SocketAddr>) -> (d: Driver)
        ensures
            d@ == (DriverState { conn: conn@, peer }),
    {
        Driver { conn, peer }
    }

    /// The connection.
    pub fn conn(&self) -> (conn: &Connection)
        ensures
            conn@ == self@.conn,
    {
        &self.conn
    }

    /// The connection, to be changed.
    pub fn conn_mut(&mut self) -> (conn: &mut Connection)
        ensures
            conn@ == old(self)@.conn,
            final(self)@ == (DriverState { conn: final(conn)@, ..old(self)@ }),
    {
        &mut self.conn
    }

    /// The address datagrams come from.
    pub fn peer(&self) -> (peer: Option<SocketAddr>)
        ensures
            peer == self@.peer,
    {
        self.peer
    }

    /// The connection and the address datagrams come from.
    pub fn into_parts(self) -> (parts: (Connection, Option<SocketAddr>))
        ensures
            self@ == (DriverState { conn: parts.0@, peer: parts.1 }),
    {
        (self.conn, self.peer)
    }

    /// Notices where a datagram comes from.
    fn notice(&mut self, from: SocketAddr)
        requires
            old(self)@.conn.wf(),
        ensures
            final(self)@.conn.wf(),
            exists|random: Option<Seq<u8>>|
                #![trigger old(self)@.noticed(from, random)]
                (random matches Some(b) ==> b.len() == 8) && final(self)@ == old(self)@.noticed(
                    from,
                    random,
                ),
    {
        let ghost before = self@;
        let ghost none: Option<Seq<u8>> = None;
        match self.peer {
            None => {
                self.peer = Some(from);
                assert(self@ == before.noticed(from, none));
            },
            Some(peer) => {
                if peer != from && self.conn.is_established() {
                    // Address change on an established connection: register the
                    // candidate and kick off path validation. Any new source
                    // address triggers this, probing packets too.
                    self.conn.set_candidate_peer_addr(from);
                    let ghost c = self.conn@;
                    let _ = self.conn.initiate_path_challenge();
                    proof {
                        let random = choose|random: Option<Seq<u8>>|
                            #![trigger challenge_begun(c, random)]
                            (random matches Some(b) ==> b.len() == 8) && self.conn@
                                == challenge_begun(c, random).0;
                        assert(self@ == before.noticed(from, random));
                    }
                } else {
                    assert(self@ == before.noticed(from, none));
                }
            },
        }
    }

    /// Process a single inbound datagram: update peer-address state, feed the
    /// datagram to the connection state machine, and adopt any newly-validated
    /// path address.
    ///
    /// # Errors
    /// That of [`Connection::handle_datagram`].
    pub fn handle_inbound_datagram(&mut self, now: Instant, datagram: &[u8], from: SocketAddr) -> (r:
        Result<(), OxiQuicError>)
        requires
            old(self)@.conn.wf(),
            now.in_range(),
            old(self)@.conn.packets_recv < u64::MAX,
            old(self)@.conn.bytes_recv + datagram@.len() <= u64::MAX,
            old(self)@.conn.keys.update_count < u64::MAX,
        ensures
            final(self)@.conn.wf(),
            exists|random: Option<Seq<u8>>, answers: Seq<Seq<FrameAnswers>>|
                #![trigger DatagramRun::run(
                    old(self)@.noticed(from, random).conn,
                    now,
                    datagram@,
                    answers,
                )]
                {
                    let noticed = old(self)@.noticed(from, random);
                    &&& random matches Some(b) ==> b.len() == 8
                    &&& DatagramRun::run(noticed.conn, now, datagram@, answers) matches Some(run)
                    &&& run.over()
                    &&& final(self)@ == noticed.handled(run).0
                    &&& crate::connection::model::agrees(r, noticed.handled(run).1)
                },
    {
        let ghost before = self@;
        self.notice(from);
        let ghost random = choose|random: Option<Seq<u8>>|
            #![trigger before.noticed(from, random)]
            (random matches Some(b) ==> b.len() == 8) && self@ == before.noticed(from, random);
        let ghost noticed = before.noticed(from, random);
        let r = self.conn.handle_datagram(now, datagram);
        let ghost answers = choose|answers: Seq<Seq<FrameAnswers>>|
            #![trigger DatagramRun::run(noticed.conn, now, datagram@, answers)]
            {
                &&& DatagramRun::run(noticed.conn, now, datagram@, answers) matches Some(run)
                &&& run.over()
                &&& self.conn@ == run.conn
                &&& crate::connection::model::agrees(r, run.result())
            };
        let ghost run = DatagramRun::run(noticed.conn, now, datagram@, answers)->Some_0;
        match r {
            Ok(()) => {},
            Err(e) => {
                assert(self@ == noticed.handled(run).0);
                return Err(e);
            },
        }
        // After processing: if the path was just validated, adopt the new peer
        // address here too.
        if self.conn.path_validated() {
            self.peer = Some(self.conn.peer_addr());
        }
        assert(self@ == noticed.handled(run).0);
        Ok(())
    }

    /// The changes to the routing of datagrams since the last call, for the demux.
    pub fn drain_cid_events(&mut self) -> (events: Vec<CidEvent>)
        ensures
            cid_event_views(events@) == old(self)@.conn.cid_events,
            final(self)@ == (DriverState {
                conn: Conn { cid_events: Seq::empty(), ..old(self)@.conn },
                ..old(self)@
            }),
    {
        let mut events: Vec<CidEvent> = Vec::new();
        let ghost all = self.conn@.cid_events;
        let mut done: bool = false;
        assert(cid_event_views(events@) + all =~= all);
        while !done
            invariant
                cid_event_views(events@) + self.conn@.cid_events == all,
                self.conn@ == (Conn { cid_events: self.conn@.cid_events, ..old(self)@.conn }),
                self.peer == old(self)@.peer,
                done ==> self.conn@.cid_events.len() == 0,
            decreases self.conn@.cid_events.len() + (if done {
                0int
            } else {
                1int
            }),
        {
            let ghost gone = events@;
            let ghost left = self.conn@.cid_events;
            match self.conn.pop_cid_event() {
                Some(event) => {
                    events.push(event);
                    proof {
                        assert(cid_event_views(events@) =~= cid_event_views(gone).push(left[0]));
                        assert(cid_event_views(events@) + self.conn@.cid_events
                            =~= cid_event_views(gone) + left);
                    }
                },
                None => {
                    done = true;
                },
            }
        }
        assert(self.conn@.cid_events =~= Seq::empty());
        assert(cid_event_views(events@) =~= all);
        events
    }

    /// What the end of the connection is reported as. Transport error codes and
    /// application close codes of the peer are preserved.
    pub fn close_error(&self) -> (e: OxiQuicError)
        requires
            self@.conn.wf(),
        ensures
            e@ == close_error_of(self@.conn.peer_closed),
    {
        match self.conn.peer_close_reason() {
            Some(OxiQuicError::TransportError { code, frame_type, reason }) =>
                OxiQuicError::TransportError {
                    code: *code,
                    frame_type: *frame_type,
                    reason: String::from_str(reason.as_str()),
                },
            Some(OxiQuicError::ApplicationClose { code, reason }) =>
                OxiQuicError::ApplicationClose {
                    code: *code,
                    reason: String::from_str(reason.as_str()),
                },
            _ => OxiQuicError::Connection(ConnectionFault::Closed),
        }
    }

    /// What a caller that waits for the handshake does next.
    pub fn handshake_step(&self) -> (step: HandshakeStep)
        requires
            self@.conn.wf(),
        ensures
            match step {
                HandshakeStep::Done => self@.conn.handshake_complete,
                HandshakeStep::Failed(e) => !self@.conn.handshake_complete && self@.conn.state
                    == ConnectionState::Closed && e@ == close_error_of(self@.conn.peer_closed),
                HandshakeStep::Wait => !self@.conn.handshake_complete && self@.conn.state
                    != ConnectionState::Closed,
            },
    {
        if !self.conn.is_handshaking() {
            HandshakeStep::Done
        } else if self.conn.is_closed() {
            HandshakeStep::Failed(self.close_error())
        } else {
            HandshakeStep::Wait
        }
    }

    /// What a caller that waits for something does next, `ready` if it is there:
    /// what is there is delivered even if the connection was closed after it.
    pub fn wait_step(&self, ready: bool) -> (step: WaitStep)
        requires
            self@.conn.wf(),
        ensures
            match step {
                WaitStep::Deliver => ready,
                WaitStep::Failed(e) => !ready && self@.conn.state == ConnectionState::Closed && e@
                    == close_error_of(self@.conn.peer_closed),
                WaitStep::Wait => !ready && self@.conn.state != ConnectionState::Closed,
            },
    {
        if ready {
            WaitStep::Deliver
        } else if self.conn.is_closed() {
            WaitStep::Failed(self.close_error())
        } else {
            WaitStep::Wait
        }
    }

    /// Whether the handshake has failed for want of time.
    pub fn handshake_expired(&self, now: Instant, deadline: Instant) -> (expired: bool)
        ensures
            expired == (now.nanos >= deadline.nanos && !self@.conn.handshake_complete),
    {
        now.nanos >= deadline.nanos && self.conn.is_handshaking()
    }
}

/// How long to wait for a datagram: until the connection's own timer, but not past
/// the deadline.
pub fn wake_at(timer: Option<Instant>, deadline: Instant) -> (t: Instant)
    ensures
        t.nanos <= deadline.nanos,
        timer matches Some(own) ==> t.nanos <= own.nanos,
        t == deadline || timer == Some(t),
{
    match timer {
        Some(own) => {
            if own.nanos <= deadline.nanos {
                own
            } else {
                deadline
            }
        },
        None => deadline,
    }
}

/// The tries that a caller has to open a stream while the peer's limit is reached.
#[derive(Debug)]
pub struct OpenAttempts {
    left: u32,
}

impl View for OpenAttempts {
    type V = nat;

    /// How many more tries there are.
    closed spec fn view(&self) -> nat {
        self.left as nat
    }
}

impl OpenAttempts {
    /// `max_attempts` tries, and at least one.
    pub fn new(max_attempts: u32) -> (a: OpenAttempts)
        ensures
            a@ == if max_attempts >= 1 {
                max_attempts as nat
            } else {
                1
            },
    {
        OpenAttempts {
            left: if max_attempts >= 1 {
                max_attempts
            } else {
                1
            },
        }
    }

    /// A try failed, `limited` if for the peer's limit. Says whether to try again
    /// after a while: only then, and only if tries are left.
    pub fn failed(&mut self, limited: bool) -> (again: bool)
        requires
            old(self)@ > 0,
        ensures
            final(self)@ == old(self)@ - 1,
            again == (limited && old(self)@ > 1),
    {
        self.left = self.left - 1;
        limited && self.left > 0
    }
}

/// How many further datagrams are taken in at once after one that was waited for.
pub const BURST_DRAIN_LIMIT: u32 = 128;

/// The datagrams that may still be taken in before other tasks get their turn.
#[derive(Debug)]
pub struct Burst {
    left: u32,
}

impl View for Burst {
    type V = nat;

    /// How many more datagrams may be taken in.
    closed spec fn view(&self) -> nat {
        self.left as nat
    }
}

impl Burst {
    /// A datagram was waited for: as many as [`BURST_DRAIN_LIMIT`] more may follow.
    pub fn new() -> (b: Burst)
        ensures
            b@ == BURST_DRAIN_LIMIT,
    {
        Burst { left: BURST_DRAIN_LIMIT }
    }

    /// Whether one more may be taken in; if so, it counts.
    pub fn take(&mut self) -> (more: bool)
        ensures
            more == (old(self)@ > 0),
            final(self)@ == if old(self)@ > 0 {
                (old(self)@ - 1) as nat
            } else {
                0
            },
    {
        if self.left == 0 {
            return false;
        }
        self.left = self.left - 1;
        true
    }
}

/// The early data size to put into the TLS configuration, where it has to be changed:
/// zero asks for no change.
pub fn early_data_override(current: u32, wanted: u32) -> (size: Option<u32>)
    ensures
        size == if wanted == 0 || wanted == current {
            None
        } else {
            Some(wanted)
        },
{
    if wanted == 0 || wanted == current {
        None
    } else {
        Some(wanted)
    }
}

/// A peer that moves is followed only after it has proved that it is there: whatever
/// else a datagram from a new address does, datagrams are still taken to come from
/// the old one until the path challenge is answered.
pub proof fn law_move_needs_validation(
    d: DriverState,
    now: Instant,
    datagram: Seq<u8>,
    from: SocketAddr,
    random: Option<Seq<u8>>,
    answers: Seq<Seq<FrameAnswers>>,
)
    requires
        d.peer is Some,
        DatagramRun::run(d.noticed(from, random).conn, now, datagram, answers) is Some,
    ensures
        ({
            let run = DatagramRun::run(d.noticed(from, random).conn, now, datagram, answers)->Some_0;
            let after = d.noticed(from, random).handled(run).0;
            after.peer != d.peer ==> run.conn.path.validated && after.peer == Some(
                run.conn.path.peer_addr,
            )
        }),
{
}

/// Where datagrams come from: the first address is the peer's. Another address on an
/// established connection is the one to move to, and is challenged with the bytes drawn; an
/// earlier challenge no longer counts, and packets go on to the old address. On another
/// connection, and from the peer's own address, nothing changes.
pub proof fn law_sender_noticed(d: DriverState, from: SocketAddr, random: Option<Seq<u8>>)
    ensures
        ({
            let after = d.noticed(from, random);
            let (p, q) = (d.conn.path, after.conn.path);
            &&& d.peer is None ==> after.peer == Some(from) && after.conn == d.conn
            &&& d.peer is Some ==> after.peer == d.peer
            &&& d.peer == Some(from) ==> after == d
            &&& d.peer is Some && d.conn.state != ConnectionState::Established ==> after == d
            &&& d.peer is Some && d.peer != Some(from) && d.conn.state
                == ConnectionState::Established ==> {
                &&& q.candidate == Some(from)
                &&& q.peer_addr == p.peer_addr
                &&& q.response == p.response
                &&& !q.validated
                &&& d.conn.keys.one_rtt_ready && random is Some ==> q.challenge == random
                    && q.challenge_send
                &&& !d.conn.keys.one_rtt_ready || random is None ==> q.challenge is None
                    && !q.challenge_send
                &&& after.conn == (Conn { path: q, draws: after.conn.draws, ..d.conn })
            }
        }),
{
}

/// After a datagram: an error is handed on and the peer's address stays; else it is the
/// address of the connection's path if that is validated, and stays if not.
pub proof fn law_datagram_result(d: DriverState, run: DatagramRun)
    ensures
        ({
            let (after, r) = d.handled(run);
            &&& after.conn == run.conn
            &&& run.error matches Some(e) ==> r == Err::<(), ErrorView>(e) && after.peer == d.peer
            &&& run.error is None ==> r is Ok && after.peer == if run.conn.path.validated {
                Some(run.conn.path.peer_addr)
            } else {
                d.peer
            }
        }),
{
}

/// What the end of a connection is reported as: the peer's reason, code and text as they
/// came, or that the connection is closed if the peer gave none.
pub proof fn law_close_reported(
    code: TransportErrorCode,
    frame_type: Option<FrameType>,
    number: u64,
    text: Seq<char>,
)
    ensures
        close_error_of(Some(ErrorView::TransportError(code, frame_type, text)))
            == ErrorView::TransportError(code, frame_type, text),
        close_error_of(Some(ErrorView::ApplicationClose(number, text)))
            == ErrorView::ApplicationClose(number, text),
        close_error_of(None) == ErrorView::Connection(ConnectionFault::Closed),
{
}

} // verus!
