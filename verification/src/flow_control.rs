//! Connection- and stream-level flow control (RFC 9000 Section 4).
//!
//! Flow control bounds how much stream data may be in flight before the
//! receiver has granted credit. This module tracks both directions:
//!
//! * **Send side** ([`SendFlowControl`], [`StreamSendFlow`]): the maximum byte
//!   offset the peer has authorised via `MAX_DATA` / `MAX_STREAM_DATA`, and how
//!   much we have already sent, so the connection can cap each `STREAM` frame
//!   and emit `DATA_BLOCKED` / `STREAM_DATA_BLOCKED` when it runs out of credit.
//! * **Receive side** ([`RecvFlowControl`], [`StreamRecvFlow`]): the limit we
//!   have advertised and how much the application has consumed, so the
//!   connection can advance the limit (sending fresh `MAX_DATA` /
//!   `MAX_STREAM_DATA`) as the application reads.
use vstd::prelude::*;

verus! {

/// The state of a send-side controller.
pub struct SendCredit {
    /// The highest offset the peer has authorised.
    pub limit: nat,
    /// The highest offset sent.
    pub sent: nat,
    /// The limit at which being blocked was last reported.
    pub blocked_at: Option<nat>,
}

impl SendCredit {
    /// A fresh controller.
    pub open spec fn fresh(limit: nat) -> SendCredit {
        SendCredit { limit, sent: 0, blocked_at: None }
    }

    /// After the peer authorised `max`: limits never go down, and a higher one
    /// may be reported as blocking again.
    pub open spec fn raised(self, max: nat) -> SendCredit {
        if max > self.limit {
            SendCredit { limit: max, blocked_at: None, ..self }
        } else {
            self
        }
    }

    /// The bytes that may still be sent.
    pub open spec fn available(self) -> nat {
        if self.limit >= self.sent {
            (self.limit - self.sent) as nat
        } else {
            0
        }
    }

    /// After `n` new bytes were sent.
    pub open spec fn advanced(self, n: nat) -> SendCredit {
        SendCredit { sent: self.sent + n, ..self }
    }

    /// The bytes by which `high` exceeds all that was sent.
    pub open spec fn fresh_bytes(self, high: nat) -> nat {
        if high > self.sent {
            (high - self.sent) as nat
        } else {
            0
        }
    }

    /// Whether no credit is left.
    pub open spec fn blocked(self) -> bool {
        self.sent >= self.limit
    }

    /// Whether being blocked at the current limit is still to be reported.
    pub open spec fn owes_report(self) -> bool {
        self.blocked() && self.blocked_at != Some(self.limit)
    }

    /// After asking what is to be reported.
    pub open spec fn reported(self) -> SendCredit {
        if self.owes_report() {
            SendCredit { blocked_at: Some(self.limit), ..self }
        } else {
            self
        }
    }

    /// What is to be reported.
    pub open spec fn report(self) -> Option<nat> {
        if self.owes_report() {
            Some(self.limit)
        } else {
            None
        }
    }
}

/// The state of a receive-side controller.
pub struct RecvCredit {
    /// The highest offset advertised to the peer.
    pub limit: nat,
    /// How far above the consumed offset the limit is put.
    pub window: nat,
    /// The bytes the application has consumed.
    pub consumed: nat,
}

impl RecvCredit {
    /// A fresh controller.
    pub open spec fn fresh(window: nat) -> RecvCredit {
        RecvCredit { limit: window, window, consumed: 0 }
    }

    /// After the application consumed `n` bytes.
    pub open spec fn consumed_more(self, n: nat) -> RecvCredit {
        RecvCredit { consumed: self.consumed + n, ..self }
    }

    /// The advertised bytes that are not consumed yet.
    pub open spec fn left(self) -> nat {
        if self.limit >= self.consumed {
            (self.limit - self.consumed) as nat
        } else {
            0
        }
    }

    /// Whether the limit is due to move: more than half the window has been used, and
    /// moving would raise it.
    pub open spec fn due(self) -> bool {
        self.consumed + self.window > self.limit && self.left() < self.window - self.window / 2
    }

    /// After the limit was moved if it was due.
    pub open spec fn updated(self) -> RecvCredit {
        if self.due() {
            RecvCredit { limit: self.consumed + self.window, ..self }
        } else {
            self
        }
    }

    /// The limit to announce.
    pub open spec fn announcement(self) -> Option<nat> {
        if self.due() {
            Some(self.consumed + self.window)
        } else {
            None
        }
    }
}

/// `value` as a number of the model.
pub open spec fn opt_nat(value: Option<u64>) -> Option<nat> {
    match value {
        Some(v) => Some(v as nat),
        None => None,
    }
}

/// Connection-level send-side flow control (RFC 9000 Section 4.1).
///
/// Flow control accounts for the *aggregate highest offset* of stream data
/// sent, not cumulative bytes; retransmitting already-sent data therefore does
/// not consume fresh credit (RFC 9000 Section 4.1).
#[derive(Debug, Clone, Copy, Default)]
pub struct SendFlowControl {
    /// Maximum aggregate byte offset the peer has authorised (`MAX_DATA`).
    max_data: u64,
    /// Aggregate highest offset we have sent across all streams.
    data_sent: u64,
    /// The limit at which we last reported being blocked (avoids re-sending the
    /// same `DATA_BLOCKED`).
    blocked_at: Option<u64>,
}

impl View for SendFlowControl {
    type V = SendCredit;

    closed spec fn view(&self) -> SendCredit {
        SendCredit {
            limit: self.max_data as nat,
            sent: self.data_sent as nat,
            blocked_at: opt_nat(self.blocked_at),
        }
    }
}

impl SendFlowControl {
    /// Create a send-side controller authorised up to `initial_max_data`.
    #[must_use]
    pub fn new(initial_max_data: u64) -> (fc: Self)
        ensures
            fc@ == SendCredit::fresh(initial_max_data as nat),
    {
        Self { max_data: initial_max_data, data_sent: 0, blocked_at: None }
    }

    /// Raise the connection limit on receiving a `MAX_DATA` frame; a smaller
    /// value is ignored (limits are monotonic, RFC 9000 Section 4.1).
    pub fn on_max_data(&mut self, max: u64)
        ensures
            final(self)@ == old(self)@.raised(max as nat),
    {
        if max > self.max_data {
            self.max_data = max;
            self.blocked_at = None;
        }
    }

    /// The remaining connection-level credit in bytes.
    #[must_use]
    pub fn available(&self) -> (n: u64)
        ensures
            n == self@.available(),
    {
        self.max_data.saturating_sub(self.data_sent)
    }

    /// Account for `n` *new* stream bytes being sent (raising the aggregate
    /// highest offset). Retransmissions pass `0` since they do not advance it.
    pub fn on_data_sent(&mut self, n: u64)
        requires
            old(self)@.sent + n <= u64::MAX,
        ensures
            final(self)@ == old(self)@.advanced(n as nat),
    {
        self.data_sent += n;
    }

    /// Whether the connection limit currently blocks sending more data.
    #[must_use]
    pub fn is_blocked(&self) -> (blocked: bool)
        ensures
            blocked == self@.blocked(),
    {
        self.data_sent >= self.max_data
    }

    /// If newly blocked at the current limit, return that limit for a
    /// `DATA_BLOCKED` frame (once per limit value).
    pub fn take_blocked(&mut self) -> (limit: Option<u64>)
        ensures
            opt_nat(limit) == old(self)@.report(),
            final(self)@ == old(self)@.reported(),
    {
        let reported: bool = match self.blocked_at {
            Some(at) => at == self.max_data,
            None => false,
        };
        if self.is_blocked() && !reported {
            self.blocked_at = Some(self.max_data);
            Some(self.max_data)
        } else {
            None
        }
    }

    /// The current connection limit.
    #[must_use]
    pub fn max_data(&self) -> (max: u64)
        ensures
            max == self@.limit,
    {
        self.max_data
    }
}

/// Per-stream send-side flow control (RFC 9000 Section 4.1).
#[derive(Debug, Clone, Copy, Default)]
pub struct StreamSendFlow {
    /// Maximum byte offset the peer has authorised on this stream
    /// (`MAX_STREAM_DATA`).
    max_stream_data: u64,
    /// Bytes already sent on this stream (its current offset).
    data_sent: u64,
    /// The limit at which we last reported being blocked.
    blocked_at: Option<u64>,
}

impl View for StreamSendFlow {
    type V = SendCredit;

    closed spec fn view(&self) -> SendCredit {
        SendCredit {
            limit: self.max_stream_data as nat,
            sent: self.data_sent as nat,
            blocked_at: opt_nat(self.blocked_at),
        }
    }
}

impl StreamSendFlow {
    /// Create a stream send controller authorised up to `initial`.
    #[must_use]
    pub fn new(initial: u64) -> (fc: Self)
        ensures
            fc@ == SendCredit::fresh(initial as nat),
    {
        Self { max_stream_data: initial, data_sent: 0, blocked_at: None }
    }

    /// Raise the stream limit on receiving a `MAX_STREAM_DATA` frame.
    pub fn on_max_stream_data(&mut self, max: u64)
        ensures
            final(self)@ == old(self)@.raised(max as nat),
    {
        if max > self.max_stream_data {
            self.max_stream_data = max;
            self.blocked_at = None;
        }
    }

    /// Remaining stream-level credit in bytes.
    #[must_use]
    pub fn available(&self) -> (n: u64)
        ensures
            n == self@.available(),
    {
        self.max_stream_data.saturating_sub(self.data_sent)
    }

    /// Account for `n` *new* bytes sent on the stream (advancing its offset);
    /// where the offset is known, use [`StreamSendFlow::record_high_offset`].
    pub fn on_data_sent(&mut self, n: u64)
        requires
            old(self)@.sent + n <= u64::MAX,
        ensures
            final(self)@ == old(self)@.advanced(n as nat),
    {
        self.data_sent += n;
    }

    /// Record that data up to `high_offset` has now been sent on this stream,
    /// returning the number of *newly*-consumed bytes (zero for a pure
    /// retransmission of already-sent offsets). This is the value to charge
    /// against the connection-level limit (RFC 9000 Section 4.1).
    pub fn record_high_offset(&mut self, high_offset: u64) -> (delta: u64)
        ensures
            delta == old(self)@.fresh_bytes(high_offset as nat),
            final(self)@ == old(self)@.advanced(delta as nat),
    {
        if high_offset > self.data_sent {
            let delta: u64 = high_offset - self.data_sent;
            self.data_sent = high_offset;
            delta
        } else {
            0
        }
    }

    /// Whether the stream limit currently blocks sending.
    #[must_use]
    pub fn is_blocked(&self) -> (blocked: bool)
        ensures
            blocked == self@.blocked(),
    {
        self.data_sent >= self.max_stream_data
    }

    /// If newly blocked at the current limit, return it for a
    /// `STREAM_DATA_BLOCKED` frame (once per limit value).
    pub fn take_blocked(&mut self) -> (limit: Option<u64>)
        ensures
            opt_nat(limit) == old(self)@.report(),
            final(self)@ == old(self)@.reported(),
    {
        let reported: bool = match self.blocked_at {
            Some(at) => at == self.max_stream_data,
            None => false,
        };
        if self.is_blocked() && !reported {
            self.blocked_at = Some(self.max_stream_data);
            Some(self.max_stream_data)
        } else {
            None
        }
    }
}

/// Connection-level receive-side flow control (RFC 9000 Section 4.1): tracks how
/// much credit we have advertised and how much the application has consumed so
/// the connection can advance the limit.
#[derive(Debug, Clone, Copy, Default)]
pub struct RecvFlowControl {
    /// The maximum aggregate offset we have advertised to the peer.
    max_data: u64,
    /// The window size we re-advertise above the consumed offset.
    window: u64,
    /// Total bytes the application has consumed across all streams.
    consumed: u64,
}

impl View for RecvFlowControl {
    type V = RecvCredit;

    closed spec fn view(&self) -> RecvCredit {
        RecvCredit {
            limit: self.max_data as nat,
            window: self.window as nat,
            consumed: self.consumed as nat,
        }
    }
}

impl RecvFlowControl {
    /// Create a receive-side controller advertising `window` initially.
    #[must_use]
    pub fn new(window: u64) -> (fc: Self)
        ensures
            fc@ == RecvCredit::fresh(window as nat),
    {
        Self { max_data: window, window, consumed: 0 }
    }

    /// Account for `n` bytes consumed by the application.
    pub fn on_data_consumed(&mut self, n: u64)
        requires
            old(self)@.consumed + n <= u64::MAX,
        ensures
            final(self)@ == old(self)@.consumed_more(n as nat),
    {
        self.consumed += n;
    }

    /// The current advertised limit.
    #[must_use]
    pub fn max_data(&self) -> (max: u64)
        ensures
            max == self@.limit,
    {
        self.max_data
    }

    /// If the consumed offset has advanced far enough that the advertised limit
    /// should grow (more than half the window has been used since the last
    /// advertisement), return the new `MAX_DATA` limit to send. RFC 9000
    /// Section 4.1 recommends advancing the limit as data is consumed.
    pub fn maybe_update(&mut self) -> (limit: Option<u64>)
        requires
            old(self)@.consumed + old(self)@.window <= u64::MAX,
        ensures
            opt_nat(limit) == old(self)@.announcement(),
            final(self)@ == old(self)@.updated(),
    {
        let desired: u64 = self.consumed + self.window;
        // Advertise eagerly once more than half the window is consumed beyond the
        // floor.
        if desired > self.max_data && self.max_data.saturating_sub(self.consumed) < self.window
            - self.window / 2 {
            self.max_data = desired;
            Some(self.max_data)
        } else {
            None
        }
    }
}

/// Per-stream receive-side flow control (RFC 9000 Section 4.1).
#[derive(Debug, Clone, Copy, Default)]
pub struct StreamRecvFlow {
    max_stream_data: u64,
    window: u64,
    consumed: u64,
}

impl View for StreamRecvFlow {
    type V = RecvCredit;

    closed spec fn view(&self) -> RecvCredit {
        RecvCredit {
            limit: self.max_stream_data as nat,
            window: self.window as nat,
            consumed: self.consumed as nat,
        }
    }
}

impl StreamRecvFlow {
    /// Create a stream receive controller advertising `window` initially.
    #[must_use]
    pub fn new(window: u64) -> (fc: Self)
        ensures
            fc@ == RecvCredit::fresh(window as nat),
    {
        Self { max_stream_data: window, window, consumed: 0 }
    }

    /// Account for `n` bytes consumed on the stream by the application.
    pub fn on_data_consumed(&mut self, n: u64)
        requires
            old(self)@.consumed + n <= u64::MAX,
        ensures
            final(self)@ == old(self)@.consumed_more(n as nat),
    {
        self.consumed += n;
    }

    /// If the stream limit should grow, return the new `MAX_STREAM_DATA` value.
    pub fn maybe_update(&mut self) -> (limit: Option<u64>)
        requires
            old(self)@.consumed + old(self)@.window <= u64::MAX,
        ensures
            opt_nat(limit) == old(self)@.announcement(),
            final(self)@ == old(self)@.updated(),
    {
        let desired: u64 = self.consumed + self.window;
        if desired > self.max_stream_data && self.max_stream_data.saturating_sub(self.consumed)
            < self.window - self.window / 2 {
            self.max_stream_data = desired;
            Some(self.max_stream_data)
        } else {
            None
        }
    }
}

/// Send limits are monotonic: no frame lowers one, a higher value takes effect,
/// and the order in which two values arrive does not matter for the limit.
pub proof fn law_send_limit_monotonic(c: SendCredit, a: nat, b: nat)
    ensures
        c.raised(a).limit >= c.limit,
        c.raised(a).limit >= a,
        c.raised(a).available() >= c.available(),
        c.raised(a).sent == c.sent,
        c.raised(a).raised(b).limit == c.raised(b).raised(a).limit,
{
}

/// Being blocked is reported once per limit: after a report nothing more is
/// reported, however much more is sent, until the limit is raised; then a new
/// report is owed exactly when the new limit blocks too.
pub proof fn law_blocked_once_per_limit(c: SendCredit, n: nat, max: nat)
    ensures
        c.reported().report() is None,
        c.owes_report() ==> c.reported().advanced(n).report() is None,
        max <= c.limit ==> c.reported().raised(max).report() is None,
        max > c.limit ==> (c.reported().raised(max).owes_report() <==> c.sent >= max),
{
}

/// Sending no more than the available credit never passes the limit, and each
/// byte sent takes one byte of credit.
pub proof fn law_credit_spent(c: SendCredit, n: nat)
    requires
        n <= c.available(),
    ensures
        c.sent <= c.limit ==> c.advanced(n).sent <= c.limit,
        c.advanced(n).available() == c.available() - n,
        c.sent <= c.limit ==> (c.advanced(n).blocked() <==> n == c.available()),
{
}

/// Retransmissions are free: what two offsets charge in turn is what the higher
/// of them charges alone, so offsets already sent charge nothing.
pub proof fn law_high_offset_charged_once(c: SendCredit, a: nat, b: nat)
    ensures
        a <= c.sent ==> c.fresh_bytes(a) == 0,
        c.fresh_bytes(a) + c.advanced(c.fresh_bytes(a)).fresh_bytes(b) == c.fresh_bytes(
            if a >= b {
                a
            } else {
                b
            },
        ),
{
}

/// The advertised limit never goes down, and an announcement always raises it.
pub proof fn law_advertised_limit_monotonic(c: RecvCredit)
    ensures
        c.updated().limit >= c.limit,
        c.announcement() matches Some(limit) ==> limit > c.limit && limit == c.updated().limit,
        c.announcement() is None ==> c.updated() == c,
{
}

/// Once announced, a limit is not announced again before more is consumed; it is
/// announced again once more than half the window has been consumed since.
pub proof fn law_announced_once(c: RecvCredit, n: nat)
    requires
        c.announcement() is Some,
    ensures
        c.updated().announcement() is None,
        n <= c.window / 2 ==> c.updated().consumed_more(n).announcement() is None,
        n > c.window / 2 ==> c.updated().consumed_more(n).announcement() is Some,
{
}

/// What happens to a send-side controller.
pub enum SendEvent {
    /// New bytes were sent.
    Sent(nat),
    /// The peer authorised an offset.
    Raised(nat),
    /// It was asked for what is to be reported.
    Asked,
}

/// A controller after these events, and the limits that it reported as blocking.
pub open spec fn after_events(c: SendCredit, events: Seq<SendEvent>) -> (SendCredit, Seq<nat>)
    decreases events.len(),
{
    if events.len() == 0 {
        (c, Seq::empty())
    } else {
        let (before, reports) = after_events(c, events.drop_last());
        match events.last() {
            SendEvent::Sent(n) => (before.advanced(n), reports),
            SendEvent::Raised(max) => (before.raised(max), reports),
            SendEvent::Asked => (
                before.reported(),
                match before.report() {
                    Some(limit) => reports.push(limit),
                    None => reports,
                },
            ),
        }
    }
}

/// Each limit is reported as blocking once in the life of a controller, and exactly if it
/// blocks when asked for: the limits reported go up, and being asked changes neither the
/// limit nor the credit.
pub proof fn law_each_limit_reported_once(initial: nat, events: Seq<SendEvent>)
    ensures
        ({
            let (c, reports) = after_events(SendCredit::fresh(initial), events);
            &&& forall|i: int, j: int| 0 <= i < j < reports.len() ==> reports[i] < reports[j]
            &&& forall|i: int| 0 <= i < reports.len() ==> reports[i] <= c.limit
            &&& forall|limit: nat| #[trigger]
                c.report() == Some(limit) <==> c.blocked() && limit == c.limit
                    && !reports.contains(limit)
            &&& c.reported().limit == c.limit
            &&& c.reported().available() == c.available()
        }),
{
    lemma_reports(initial, events);
}

/// The current limit is among those reported exactly if it is noted as such.
proof fn lemma_reports(initial: nat, events: Seq<SendEvent>)
    ensures
        ({
            let (c, reports) = after_events(SendCredit::fresh(initial), events);
            &&& forall|i: int, j: int| 0 <= i < j < reports.len() ==> reports[i] < reports[j]
            &&& forall|i: int| 0 <= i < reports.len() ==> reports[i] <= c.limit
            &&& reports.contains(c.limit) <==> c.blocked_at == Some(c.limit)
        }),
    decreases events.len(),
{
    if events.len() > 0 {
        lemma_reports(initial, events.drop_last());
        let (before, reports) = after_events(SendCredit::fresh(initial), events.drop_last());
        let (c, now) = after_events(SendCredit::fresh(initial), events);
        if now.len() > reports.len() {
            assert(now.last() == c.limit);
            assert forall|i: int| 0 <= i < reports.len() implies reports[i] < c.limit by {
                if reports[i] == c.limit {
                    assert(reports.contains(before.limit));
                }
            }
        }
    }
}

/// A fresh controller lets the peer send one window. Its limit moves exactly when the
/// application has consumed more than half a window, and then to one window above what
/// was consumed; the next move is due after more than half a window again.
pub proof fn law_window_moves_at_half(window: nat, n: nat, m: nat)
    requires
        window > 0,
    ensures
        ({
            let c = RecvCredit::fresh(window);
            &&& c.limit == window
            &&& n <= window / 2 ==> c.consumed_more(n).announcement() is None
                && c.consumed_more(n).updated().limit == window
            &&& n > window / 2 ==> c.consumed_more(n).announcement() == Some(n + window)
                && c.consumed_more(n).updated().limit == n + window
            &&& n > window / 2 && m <= window / 2 ==> c.consumed_more(n).updated().consumed_more(
                m,
            ).announcement() is None
            &&& n > window / 2 && m > window / 2 ==> c.consumed_more(n).updated().consumed_more(
                m,
            ).announcement() == Some(n + m + window)
        }),
{
}

/// What is consumed adds up, and neither consuming nor moving the limit changes the
/// window.
pub proof fn law_consumption_adds_up(c: RecvCredit, n: nat, m: nat)
    ensures
        c.consumed_more(n).consumed_more(m) == c.consumed_more(n + m),
        c.consumed_more(n).consumed == c.consumed + n,
        c.consumed_more(n).limit == c.limit,
        c.consumed_more(n).window == c.window,
        c.updated().window == c.window,
        c.updated().consumed == c.consumed,
{
}

/// What a sender may still send is the limit less what was sent, and nothing once that
/// much was sent; then being blocked is reported with the limit, unless it was reported at
/// that limit.
pub proof fn law_credit_left(c: SendCredit, limit: nat, n: nat)
    ensures
        SendCredit::fresh(limit).limit == limit,
        SendCredit::fresh(limit).sent == 0,
        SendCredit::fresh(limit).available() == limit,
        c.sent <= c.limit ==> c.available() + c.sent == c.limit,
        c.sent > c.limit ==> c.available() == 0,
        c.blocked() <==> c.available() == 0,
        c.advanced(n).sent == c.sent + n,
        c.advanced(n).limit == c.limit,
        n <= c.limit ==> c.raised(n) == c,
        n > c.limit ==> c.raised(n).limit == n && c.raised(n).blocked_at is None,
        c.available() > 0 ==> c.report() is None && c.reported() == c,
        c.available() == 0 && c.blocked_at == Some(c.limit) ==> c.report() is None && c.reported()
            == c,
        c.available() == 0 && c.blocked_at != Some(c.limit) ==> c.report() == Some(c.limit)
            && c.reported().blocked_at == Some(c.limit),
        c.fresh_bytes(n) + c.sent == if n > c.sent {
            n
        } else {
            c.sent
        },
{
}

} // verus!
