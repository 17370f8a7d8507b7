//! ACK processing, loss detection, PTO timers (RFC 9002).
//!
//! Congestion control and path MTU discovery are told what happens by
//! [`RecoveryEvent`]s, in order.
use crate::frame::AckRange;
use crate::params_codec::DEFAULT_ACK_DELAY_EXPONENT;
use crate::recovery::{
    is_persistent_congestion, spec_is_persistent_congestion, two_to, LossDetector, RttEstimator,
    SpaceIndex, MAX_DELAY,
};
use crate::sent_packet::{
    any_eliciting, earliest_sent, frame_views, frames_fit, largest_of, lemma_total_bytes_filter,
    lemma_total_bytes_take, packet_views, total_bytes, InFlight, SentFrame, SentFrameView,
    SentPacket, SentPacketView, SentPackets,
};
use crate::time::{Duration, Instant};
use std::collections::VecDeque;
use vstd::prelude::*;

verus! {

/// What congestion control learns of an acknowledged packet.
#[derive(Clone, Copy, Debug, PartialEq, Eq, Structural)]
pub struct AckedPacket {
    /// Its size in bytes.
    pub bytes: usize,
    /// When it was sent.
    pub time_sent: Instant,
    /// The controller's handle of the delivery-rate sample.
    pub rate_sample: Option<u64>,
}

/// What congestion control and path MTU discovery are told.
#[derive(Debug)]
#[allow(inconsistent_fields)]
pub enum RecoveryEvent {
    /// Packets in flight were acknowledged.
    Acked {
        /// The packets.
        packets: Vec<AckedPacket>,
        /// When.
        now: Instant,
    },
    /// A probe of the path MTU was acknowledged.
    MtuProbeAcked {
        /// Its size.
        size: u16,
        /// When.
        now: Instant,
    },
    /// A probe of the path MTU was lost.
    MtuProbeLost {
        /// Its size.
        size: u16,
    },
    /// Packets in flight were lost.
    Lost {
        /// Their bytes.
        bytes: u64,
        /// When the newest of them was sent.
        newest: Instant,
        /// When the loss was noticed.
        now: Instant,
    },
    /// The losses span so much time that the congestion is persistent
    /// (RFC 9002 Section 7.6).
    PersistentCongestion,
}

/// What congestion control and path MTU discovery are told, with sequences.
#[verifier::ext_equal]
#[allow(inconsistent_fields)]
pub enum EventView {
    /// See [`RecoveryEvent::Acked`].
    Acked { packets: Seq<AckedPacket>, now: Instant },
    /// See [`RecoveryEvent::MtuProbeAcked`].
    MtuProbeAcked { size: u16, now: Instant },
    /// See [`RecoveryEvent::MtuProbeLost`].
    MtuProbeLost { size: u16 },
    /// See [`RecoveryEvent::Lost`].
    Lost { bytes: u64, newest: Instant, now: Instant },
    /// See [`RecoveryEvent::PersistentCongestion`].
    PersistentCongestion,
}

impl View for RecoveryEvent {
    type V = EventView;

    open spec fn view(&self) -> EventView {
        match *self {
            RecoveryEvent::Acked { packets, now } => EventView::Acked { packets: packets@, now },
            RecoveryEvent::MtuProbeAcked { size, now } => EventView::MtuProbeAcked { size, now },
            RecoveryEvent::MtuProbeLost { size } => EventView::MtuProbeLost { size },
            RecoveryEvent::Lost { bytes, newest, now } => EventView::Lost { bytes, newest, now },
            RecoveryEvent::PersistentCongestion => EventView::PersistentCongestion,
        }
    }
}

/// The packets that count towards the congestion window.
pub open spec fn in_flight(packets: Seq<SentPacketView>) -> Seq<SentPacketView> {
    packets.filter(|p: SentPacketView| p.in_flight)
}

/// What congestion control learns of packets.
pub open spec fn acked_packets(packets: Seq<SentPacketView>) -> Seq<AckedPacket> {
    packets.map_values(
        |p: SentPacketView|
            AckedPacket {
                bytes: p.sent_bytes,
                time_sent: p.time_sent,
                rate_sample: p.rate_sample,
            },
    )
}

/// The sizes of the MTU probes among frames.
pub open spec fn probe_sizes(frames: Seq<SentFrameView>) -> Seq<u16>
    decreases frames.len(),
{
    if frames.len() == 0 {
        Seq::empty()
    } else {
        match frames.last() {
            SentFrameView::MtuProbe(size) => probe_sizes(frames.drop_last()).push(size),
            _ => probe_sizes(frames.drop_last()),
        }
    }
}

/// The sizes of the MTU probes among the frames of packets.
pub open spec fn packet_probe_sizes(packets: Seq<SentPacketView>) -> Seq<u16>
    decreases packets.len(),
{
    if packets.len() == 0 {
        Seq::empty()
    } else {
        packet_probe_sizes(packets.drop_last()) + probe_sizes(packets.last().frames)
    }
}

/// When the newest of these packets was sent.
pub open spec fn latest_sent(packets: Seq<SentPacketView>) -> Option<Instant>
    decreases packets.len(),
{
    if packets.len() == 0 {
        None
    } else {
        match latest_sent(packets.drop_last()) {
            Some(t) => Some(t.spec_max(packets.last().time_sent)),
            None => Some(packets.last().time_sent),
        }
    }
}

/// When the packet numbered `pn` was sent.
pub open spec fn sent_time(packets: Seq<SentPacketView>, pn: u64) -> Option<Instant>
    decreases packets.len(),
{
    if packets.len() == 0 {
        None
    } else if packets[0].packet_number == pn {
        Some(packets[0].time_sent)
    } else {
        sent_time(packets.drop_first(), pn)
    }
}

/// The state of loss recovery.
#[verifier::ext_equal]
pub struct RecoveryState {
    /// Packets of the Initial space in flight.
    pub initial: InFlight,
    /// Packets of the Handshake space in flight.
    pub handshake: InFlight,
    /// Packets of the Application space in flight.
    pub application: InFlight,
    /// The estimates of the round-trip time.
    pub rtt: RttEstimator,
    /// The timers of loss detection.
    pub loss: LossDetector,
    /// When loss detection wants to be woken.
    pub loss_timer: Option<Instant>,
    /// How many probe packets are to be sent.
    pub probes_owed: u32,
    /// The longest delay of the peer's acknowledgements.
    pub peer_max_ack_delay: Duration,
    /// The scale of the delays in the peer's acknowledgements, once known.
    pub ack_delay_exponent: Option<u8>,
    /// How many packets were lost.
    pub packets_lost: u64,
    /// What congestion control and path MTU discovery are to be told.
    pub events: Seq<EventView>,
}

impl RecoveryState {
    /// Nothing sent.
    pub open spec fn fresh() -> RecoveryState {
        RecoveryState {
            initial: InFlight::fresh(),
            handshake: InFlight::fresh(),
            application: InFlight::fresh(),
            rtt: RttEstimator::fresh(),
            loss: LossDetector::fresh(),
            loss_timer: None,
            probes_owed: 0,
            peer_max_ack_delay: Duration { nanos: 0 },
            ack_delay_exponent: None,
            packets_lost: 0,
            events: Seq::empty(),
        }
    }

    /// Times are in the range of the clock, and the packets in flight can still be
    /// counted as lost.
    pub open spec fn wf(self) -> bool {
        &&& self.initial.wf()
        &&& self.handshake.wf()
        &&& self.application.wf()
        &&& self.rtt.wf()
        &&& self.peer_max_ack_delay.nanos <= MAX_DELAY
        &&& self.packets_lost + self.initial.packets.len() + self.handshake.packets.len()
            + self.application.packets.len() <= u64::MAX
    }

    /// The packets of a space in flight.
    pub open spec fn sent(self, space: SpaceIndex) -> InFlight {
        match space {
            SpaceIndex::Initial => self.initial,
            SpaceIndex::Handshake => self.handshake,
            SpaceIndex::Application => self.application,
        }
    }

    /// With other packets of a space in flight.
    pub open spec fn with_sent(self, space: SpaceIndex, sent: InFlight) -> RecoveryState {
        match space {
            SpaceIndex::Initial => RecoveryState { initial: sent, ..self },
            SpaceIndex::Handshake => RecoveryState { handshake: sent, ..self },
            SpaceIndex::Application => RecoveryState { application: sent, ..self },
        }
    }

    /// The peer's acknowledgement delay: the value on the wire, scaled by the
    /// peer's exponent (RFC 9000 Section 19.3), 2^20 at most, without overflow.
    pub open spec fn ack_delay(self, delay: u64) -> Duration {
        let exponent: nat = match self.ack_delay_exponent {
            Some(e) => if e < 20 {
                e as nat
            } else {
                20
            },
            None => DEFAULT_ACK_DELAY_EXPONENT as nat,
        };
        let micros = delay * two_to(exponent);
        Duration {
            nanos: (1_000 * if micros <= u64::MAX {
                micros
            } else {
                u64::MAX as int
            }) as u128,
        }
    }

    /// The peer's longest acknowledgement delay as far as it counts: in the
    /// Application space, once the handshake is confirmed (RFC 9002 Section 5.3).
    pub open spec fn max_ack_delay(self, space: SpaceIndex, handshake_done: bool) -> Duration {
        if space == SpaceIndex::Application && handshake_done {
            self.peer_max_ack_delay
        } else {
            Duration { nanos: 0 }
        }
    }

    /// The estimates after an acknowledgement of `newly`: a sample is taken if the
    /// largest packet number acknowledged is among them (RFC 9002 Section 5.1).
    pub open spec fn rtt_after(
        self,
        newly: Seq<SentPacketView>,
        now: Instant,
        space: SpaceIndex,
        handshake_done: bool,
        largest: u64,
        delay: u64,
    ) -> RttEstimator {
        if largest_of(newly) == Some(largest) {
            match sent_time(newly, largest) {
                Some(sent) => self.rtt.updated(
                    now.since(sent),
                    self.ack_delay(delay),
                    self.max_ack_delay(space, handshake_done),
                ),
                None => self.rtt,
            }
        } else {
            self.rtt
        }
    }

    /// What is told of an acknowledgement of `newly`.
    pub open spec fn ack_events(newly: Seq<SentPacketView>, now: Instant) -> Seq<EventView> {
        let packets = acked_packets(in_flight(newly));
        let probes = packet_probe_sizes(newly).map_values(
            |size: u16| EventView::MtuProbeAcked { size, now },
        );
        if packets.len() > 0 {
            seq![EventView::Acked { packets, now }] + probes
        } else {
            probes
        }
    }

    /// After an acknowledgement, before losses are looked for. One that takes
    /// nothing out of flight has no further effect.
    pub open spec fn acked(
        self,
        now: Instant,
        space: SpaceIndex,
        handshake_done: bool,
        largest: u64,
        delay: u64,
        first_range: u64,
        ranges: Seq<AckRange>,
    ) -> RecoveryState {
        let sent = self.sent(space);
        let newly = sent.newly_acked(largest, first_range, ranges);
        let s = self.with_sent(space, sent.after_ack(largest, first_range, ranges));
        if newly.len() == 0 {
            s
        } else {
            let eliciting = any_eliciting(newly);
            RecoveryState {
                rtt: self.rtt_after(newly, now, space, handshake_done, largest, delay),
                loss: if eliciting {
                    LossDetector { pto_count: 0, ..self.loss }
                } else {
                    self.loss
                },
                probes_owed: if eliciting {
                    0
                } else {
                    self.probes_owed
                },
                events: self.events + RecoveryState::ack_events(newly, now),
                ..s
            }
        }
    }

    /// The packets of a space that are lost at `now`.
    pub open spec fn lost(self, space: SpaceIndex, now: Instant) -> Seq<SentPacketView> {
        self.sent(space).lost(now, self.rtt.spec_loss_delay())
    }

    /// What is told of losing packets: probes first, then the congestion event of
    /// the newest packet in flight, then whether congestion is persistent.
    pub open spec fn loss_events(self, lost: Seq<SentPacketView>, now: Instant) -> Seq<EventView> {
        let probes = packet_probe_sizes(lost).map_values(
            |size: u16| EventView::MtuProbeLost { size },
        );
        let flying = in_flight(lost);
        match (latest_sent(flying), earliest_sent(flying)) {
            (Some(newest), Some(oldest)) => {
                let bytes = total_bytes(flying) as u64;
                let told = probes.push(EventView::Lost { bytes, newest, now });
                if spec_is_persistent_congestion(
                    oldest,
                    newest,
                    self.rtt.spec_pto_base(self.peer_max_ack_delay),
                ) {
                    told.push(EventView::PersistentCongestion)
                } else {
                    told
                }
            },
            _ => probes,
        }
    }

    /// After the packets of a space that are lost at `now` were taken out of flight.
    pub open spec fn after_loss(self, space: SpaceIndex, now: Instant) -> RecoveryState {
        let sent = self.sent(space);
        let delay = self.rtt.spec_loss_delay();
        let lost = self.lost(space, now);
        let s = self.with_sent(space, sent.without_lost(now, delay));
        RecoveryState {
            loss: self.loss.with_loss_time(space, sent.next_loss_time(now, delay)),
            packets_lost: (self.packets_lost + lost.len()) as u64,
            events: self.events + self.loss_events(lost, now),
            ..s
        }
    }

    /// When the first packet in flight of any space that the peer must acknowledge
    /// was sent.
    pub open spec fn earliest_eliciting(self) -> Option<Instant> {
        earlier(
            earlier(self.initial.earliest_eliciting(), self.handshake.earliest_eliciting()),
            self.application.earliest_eliciting(),
        )
    }

    /// When loss detection wants to be woken (RFC 9002 Section A.8): when the next
    /// packet becomes lost for its age, else when the probe timeout of the first
    /// packet that must be acknowledged expires, else never.
    pub open spec fn timer(self) -> Option<Instant> {
        match self.loss.spec_earliest_loss_time() {
            Some((t, space)) => Some(t),
            None => match self.earliest_eliciting() {
                Some(sent) => Some(
                    self.loss.spec_pto_deadline(
                        sent,
                        self.rtt.spec_pto_base(self.peer_max_ack_delay),
                    ),
                ),
                None => None,
            },
        }
    }

    /// With the timer set.
    pub open spec fn timed(self) -> RecoveryState {
        RecoveryState { loss_timer: self.timer(), ..self }
    }

    /// The space whose packets are lost for their age when the timer fires at `now`.
    pub open spec fn expired_space(self, now: Instant) -> Option<SpaceIndex> {
        match self.loss.spec_earliest_loss_time() {
            Some((t, space)) => if now.nanos >= t.nanos {
                Some(space)
            } else {
                None
            },
            None => None,
        }
    }

    /// After the probe timeout expired with packets outstanding: the next wait is
    /// longer, and two more probes are owed, four at most (RFC 9002 Section 6.2.4).
    pub open spec fn probing(self) -> RecoveryState {
        RecoveryState {
            loss: self.loss.backed_off(),
            probes_owed: if self.probes_owed >= 2 {
                4
            } else {
                (self.probes_owed + 2) as u32
            },
            ..self
        }
    }

    /// What a probe of a space carries: the frames of the first packet in flight
    /// that the peer must acknowledge.
    pub open spec fn probe_frames(self, space: SpaceIndex) -> Seq<SentFrameView> {
        let packets = self.sent(space).eliciting();
        if packets.len() > 0 {
            packets[0].frames
        } else {
            Seq::empty()
        }
    }
}

/// The earlier of two times that may be missing.
pub open spec fn earlier(a: Option<Instant>, b: Option<Instant>) -> Option<Instant> {
    match (a, b) {
        (Some(x), Some(y)) => Some(x.spec_min(y)),
        (Some(x), None) => Some(x),
        (None, _) => b,
    }
}

fn pick_earlier(a: Option<Instant>, b: Option<Instant>) -> (r: Option<Instant>)
    ensures
        r == earlier(a, b),
{
    match (a, b) {
        (Some(x), Some(y)) => Some(x.min(y)),
        (Some(x), None) => Some(x),
        (None, _) => b,
    }
}

/// The state of loss recovery.
#[derive(Debug)]
pub struct Recovery {
    initial: SentPackets,
    handshake: SentPackets,
    application: SentPackets,
    rtt: RttEstimator,
    loss: LossDetector,
    loss_timer: Option<Instant>,
    probes_owed: u32,
    peer_max_ack_delay: Duration,
    ack_delay_exponent: Option<u8>,
    packets_lost: u64,
    events: VecDeque<RecoveryEvent>,
}

/// What the events say.
pub open spec fn event_views(events: Seq<RecoveryEvent>) -> Seq<EventView> {
    events.map_values(|e: RecoveryEvent| e@)
}

impl View for Recovery {
    type V = RecoveryState;

    closed spec fn view(&self) -> RecoveryState {
        RecoveryState {
            initial: self.initial@,
            handshake: self.handshake@,
            application: self.application@,
            rtt: self.rtt,
            loss: self.loss,
            loss_timer: self.loss_timer,
            probes_owed: self.probes_owed,
            peer_max_ack_delay: self.peer_max_ack_delay,
            ack_delay_exponent: self.ack_delay_exponent,
            packets_lost: self.packets_lost,
            events: event_views(self.events@),
        }
    }
}

proof fn lemma_take_next(s: Seq<SentPacketView>, i: int)
    requires
        0 <= i < s.len(),
    ensures
        s.take(i + 1).drop_last() =~= s.take(i),
        s.take(i + 1).last() == s[i],
{
}

proof fn lemma_in_flight_next(s: Seq<SentPacketView>, i: int)
    requires
        0 <= i < s.len(),
    ensures
        in_flight(s.take(i + 1)) == if s[i].in_flight {
            in_flight(s.take(i)).push(s[i])
        } else {
            in_flight(s.take(i))
        },
        s[i].in_flight ==> in_flight(s.take(i + 1)).drop_last() =~= in_flight(s.take(i)),
{
    reveal(Seq::filter);
    lemma_take_next(s, i);
}

/// The MTU probes of frames.
fn probe_sizes_of(frames: &Vec<SentFrame>) -> (sizes: Vec<u16>)
    ensures
        sizes@ == probe_sizes(frame_views(frames@)),
{
    let mut sizes: Vec<u16> = Vec::new();
    let ghost all = frame_views(frames@);
    let mut i: usize = 0;
    assert(all.take(0) =~= Seq::empty());
    while i < frames.len()
        invariant
            i <= frames@.len(),
            all == frame_views(frames@),
            sizes@ == probe_sizes(all.take(i as int)),
        decreases frames@.len() - i,
    {
        assert(all.take(i + 1).drop_last() =~= all.take(i as int));
        assert(all[i as int] == frames@[i as int]@);
        match &frames[i] {
            SentFrame::MtuProbe(size) => sizes.push(*size),
            _ => {},
        }
        i = i + 1;
    }
    assert(all.take(all.len() as int) =~= all);
    sizes
}

/// The MTU probes of packets.
fn packet_probe_sizes_of(packets: &Vec<SentPacket>) -> (sizes: Vec<u16>)
    ensures
        sizes@ == packet_probe_sizes(packet_views(packets@)),
{
    let mut sizes: Vec<u16> = Vec::new();
    let ghost all = packet_views(packets@);
    let mut i: usize = 0;
    assert(all.take(0) =~= Seq::empty());
    while i < packets.len()
        invariant
            i <= packets@.len(),
            all == packet_views(packets@),
            sizes@ == packet_probe_sizes(all.take(i as int)),
        decreases packets@.len() - i,
    {
        proof {
            lemma_take_next(all, i as int);
        }
        assert(all[i as int] == packets@[i as int]@);
        let ghost before = sizes@;
        let mut more = probe_sizes_of(&packets[i].frames);
        let ghost added = more@;
        sizes.append(&mut more);
        assert(sizes@ =~= before + added);
        i = i + 1;
    }
    assert(all.take(all.len() as int) =~= all);
    sizes
}

/// When the packet numbered `pn` was sent.
fn find_sent_time(packets: &Vec<SentPacket>, pn: u64) -> (t: Option<Instant>)
    ensures
        t == sent_time(packet_views(packets@), pn),
{
    let ghost all = packet_views(packets@);
    let mut i: usize = 0;
    assert(all.skip(0) =~= all);
    while i < packets.len()
        invariant
            i <= packets@.len(),
            all == packet_views(packets@),
            sent_time(all, pn) == sent_time(all.skip(i as int), pn),
        decreases packets@.len() - i,
    {
        assert(all.skip(i as int)[0] == packets@[i as int]@);
        assert(all.skip(i as int).drop_first() =~= all.skip(i + 1));
        if packets[i].packet_number == pn {
            return Some(packets[i].time_sent);
        }
        i = i + 1;
    }
    None
}

/// What congestion control learns of the packets in flight among `packets`.
fn acked_in_flight(packets: &Vec<SentPacket>) -> (acked: Vec<AckedPacket>)
    ensures
        acked@ == acked_packets(in_flight(packet_views(packets@))),
{
    let mut acked: Vec<AckedPacket> = Vec::new();
    let ghost all = packet_views(packets@);
    let mut i: usize = 0;
    proof {
        reveal(Seq::filter);
        assert(in_flight(all.take(0)) =~= Seq::empty());
    }
    while i < packets.len()
        invariant
            i <= packets@.len(),
            all == packet_views(packets@),
            acked@ =~= acked_packets(in_flight(all.take(i as int))),
        decreases packets@.len() - i,
    {
        proof {
            lemma_in_flight_next(all, i as int);
        }
        assert(all[i as int] == packets@[i as int]@);
        if packets[i].in_flight {
            acked.push(
                AckedPacket {
                    bytes: packets[i].sent_bytes,
                    time_sent: packets[i].time_sent,
                    rate_sample: packets[i].rate_sample,
                },
            );
        }
        i = i + 1;
    }
    assert(all.take(all.len() as int) =~= all);
    acked
}

/// The bytes of the packets in flight among `packets`, and when the newest and the
/// oldest of them were sent.
fn lost_in_flight(packets: &Vec<SentPacket>) -> (r: (u64, Option<Instant>, Option<Instant>))
    requires
        total_bytes(packet_views(packets@)) <= u64::MAX,
    ensures
        r.0 == total_bytes(in_flight(packet_views(packets@))),
        r.1 == latest_sent(in_flight(packet_views(packets@))),
        r.2 == earliest_sent(in_flight(packet_views(packets@))),
{
    let mut bytes: u64 = 0;
    let mut newest: Option<Instant> = None;
    let mut oldest: Option<Instant> = None;
    let ghost all = packet_views(packets@);
    let mut i: usize = 0;
    proof {
        reveal(Seq::filter);
        assert(in_flight(all.take(0)) =~= Seq::empty());
    }
    while i < packets.len()
        invariant
            i <= packets@.len(),
            all == packet_views(packets@),
            total_bytes(all) <= u64::MAX,
            bytes == total_bytes(in_flight(all.take(i as int))),
            newest == latest_sent(in_flight(all.take(i as int))),
            oldest == earliest_sent(in_flight(all.take(i as int))),
        decreases packets@.len() - i,
    {
        proof {
            lemma_in_flight_next(all, i as int);
            lemma_total_bytes_filter(all.take(i + 1), |p: SentPacketView| p.in_flight);
            lemma_total_bytes_take(all, i + 1);
        }
        assert(all[i as int] == packets@[i as int]@);
        if packets[i].in_flight {
            let sent = packets[i].time_sent;
            bytes = bytes + packets[i].sent_bytes as u64;
            newest =
            Some(
                match newest {
                    Some(t) => t.max(sent),
                    None => sent,
                },
            );
            oldest =
            Some(
                match oldest {
                    Some(t) => t.min(sent),
                    None => sent,
                },
            );
        }
        i = i + 1;
    }
    assert(all.take(all.len() as int) =~= all);
    (bytes, newest, oldest)
}

proof fn lemma_latest_iff_earliest(s: Seq<SentPacketView>)
    ensures
        latest_sent(s) is Some <==> s.len() > 0,
        earliest_sent(s) is Some <==> s.len() > 0,
    decreases s.len(),
{
    if s.len() > 0 {
        lemma_latest_iff_earliest(s.drop_last());
    }
}

impl Recovery {
    /// Nothing sent.
    pub fn new() -> (r: Recovery)
        ensures
            r@ == RecoveryState::fresh(),
            r@.wf(),
    {
        let r = Recovery {
            initial: SentPackets::new(),
            handshake: SentPackets::new(),
            application: SentPackets::new(),
            rtt: RttEstimator::new(),
            loss: LossDetector::new(),
            loss_timer: None,
            probes_owed: 0,
            peer_max_ack_delay: Duration::zero(),
            ack_delay_exponent: None,
            packets_lost: 0,
            events: VecDeque::new(),
        };
        assert(r@.events =~= Seq::empty());
        r
    }

    /// The estimates of the round-trip time.
    pub fn rtt(&self) -> (rtt: RttEstimator)
        ensures
            rtt == self@.rtt,
    {
        self.rtt
    }

    /// The longest delay of the peer's acknowledgements.
    pub fn peer_max_ack_delay(&self) -> (d: Duration)
        ensures
            d == self@.peer_max_ack_delay,
    {
        self.peer_max_ack_delay
    }

    /// When loss detection wants to be woken.
    pub fn loss_timer(&self) -> (t: Option<Instant>)
        ensures
            t == self@.loss_timer,
    {
        self.loss_timer
    }

    /// How many probe packets are to be sent.
    pub fn probes_owed(&self) -> (n: u32)
        ensures
            n == self@.probes_owed,
    {
        self.probes_owed
    }

    /// How many packets were lost.
    pub fn packets_lost(&self) -> (n: u64)
        ensures
            n == self@.packets_lost,
    {
        self.packets_lost
    }

    /// The next thing that congestion control and path MTU discovery are told.
    pub fn pop_event(&mut self) -> (event: Option<RecoveryEvent>)
        ensures
            match event {
                Some(e) => {
                    &&& old(self)@.events.len() > 0
                    &&& e@ == old(self)@.events[0]
                    &&& final(self)@ == (RecoveryState {
                        events: old(self)@.events.drop_first(),
                        ..old(self)@
                    })
                },
                None => old(self)@.events.len() == 0 && final(self)@ == old(self)@,
            },
    {
        let event = self.events.pop_front();
        assert(old(self)@.events.len() > 0 ==> self@.events =~= old(self)@.events.drop_first());
        event
    }

    /// The peer's parameters are known.
    pub fn set_peer_delays(&mut self, max_ack_delay_ms: u64, ack_delay_exponent: u8)
        ensures
            final(self)@ == (RecoveryState {
                peer_max_ack_delay: Duration { nanos: (max_ack_delay_ms * 1_000_000) as u128 },
                ack_delay_exponent: Some(ack_delay_exponent),
                ..old(self)@
            }),
            old(self)@.wf() ==> final(self)@.wf(),
    {
        self.peer_max_ack_delay = Duration::from_millis(max_ack_delay_ms);
        self.ack_delay_exponent = Some(ack_delay_exponent);
    }

    /// Counts a packet in that was just sent.
    pub fn on_packet_sent(&mut self, space: SpaceIndex, packet: SentPacket)
        requires
            old(self)@.wf(),
            packet.time_sent.in_range(),
            frames_fit(packet@.frames),
            ({
                let sent = old(self)@.sent(space).packets;
                &&& total_bytes(sent) + packet.sent_bytes <= u64::MAX
                &&& sent.len() > 0 ==> sent.last().packet_number < packet.packet_number
            }),
            old(self)@.packets_lost + old(self)@.initial.packets.len()
                + old(self)@.handshake.packets.len() + old(self)@.application.packets.len()
                < u64::MAX,
        ensures
            final(self)@.wf(),
            final(self)@ == old(self)@.with_sent(
                space,
                InFlight {
                    packets: old(self)@.sent(space).packets.push(packet@),
                    ..old(self)@.sent(space)
                },
            ),
    {
        match space {
            SpaceIndex::Initial => self.initial.on_packet_sent(packet),
            SpaceIndex::Handshake => self.handshake.on_packet_sent(packet),
            SpaceIndex::Application => self.application.on_packet_sent(packet),
        }
    }

    /// Forgets the packets of the Initial space in flight.
    pub fn reset_initial(&mut self) -> (packets: SentPackets)
        requires
            old(self)@.wf(),
        ensures
            packets@ == old(self)@.initial,
            final(self)@ == (RecoveryState { initial: InFlight::fresh(), ..old(self)@ }),
            final(self)@.wf(),
    {
        let mut packets = SentPackets::new();
        std::mem::swap(&mut packets, &mut self.initial);
        packets
    }

    /// Decode the peer's wire `ack_delay` value, scaled by its
    /// `ack_delay_exponent` (RFC 9000 Section 18.2 / 19.3).
    fn decode_ack_delay(&self, delay: u64) -> (d: Duration)
        ensures
            d == self@.ack_delay(delay),
            d.nanos <= MAX_DELAY,
    {
        let exponent: u8 = match self.ack_delay_exponent {
            Some(e) => if e < 20 {
                e
            } else {
                20
            },
            None => DEFAULT_ACK_DELAY_EXPONENT,
        };
        let mut scale: u64 = 1;
        let mut i: u8 = 0;
        while i < exponent
            invariant
                i <= exponent <= 20,
                scale == two_to(i as nat),
                scale <= 0x10_0000,
                i < exponent ==> scale <= 0x8_0000,
            decreases exponent - i,
        {
            scale = 2 * scale;
            i = i + 1;
            proof {
                lemma_two_to_20(i as nat);
            }
        }
        let micros: u64 = match delay.checked_mul(scale) {
            Some(m) => m,
            None => u64::MAX,
        };
        Duration::from_micros(micros)
    }

    /// Takes in an acknowledgement for `space`: packets leave flight, the RTT is
    /// sampled, congestion control and MTU discovery are told, and the PTO backoff
    /// starts over (RFC 9002 Section 5, 6, Appendix A.7). Says whether any packet
    /// left flight.
    pub fn on_ack(
        &mut self,
        now: Instant,
        space: SpaceIndex,
        handshake_done: bool,
        largest: u64,
        delay: u64,
        first_range: u64,
        ranges: &[AckRange],
    ) -> (newly: bool)
        requires
            old(self)@.wf(),
            now.in_range(),
        ensures
            final(self)@.wf(),
            final(self)@ == old(self)@.acked(
                now,
                space,
                handshake_done,
                largest,
                delay,
                first_range,
                ranges@,
            ),
            newly == (old(self)@.sent(space).newly_acked(largest, first_range, ranges@).len() > 0),
    {
        proof {
            lemma_total_bytes_filter(
                self@.sent(space).packets,
                |p: SentPacketView|
                    !crate::sent_packet::acks(largest, first_range, ranges@, p.packet_number),
            );
        }
        let outcome = match space {
            SpaceIndex::Initial => self.initial.on_ack(largest, first_range, ranges),
            SpaceIndex::Handshake => self.handshake.on_ack(largest, first_range, ranges),
            SpaceIndex::Application => self.application.on_ack(largest, first_range, ranges),
        };
        if outcome.newly_acked.is_empty() {
            return false;
        }
        // RTT sample: only when the largest acked is newly acked (RFC 9002 5.1).

        let sampled: bool = match outcome.largest_newly_acked {
            Some(l) => l == largest,
            None => false,
        };
        if sampled {
            match find_sent_time(&outcome.newly_acked, largest) {
                Some(sent) => {
                    let rtt_sample = now.saturating_duration_since(sent);
                    // Decode the peer's ack_delay (scaled by its ack_delay_exponent).
                    let ack_delay = self.decode_ack_delay(delay);
                    // max_ack_delay applies only once the handshake is confirmed and
                    // only in the Application space (RFC 9002 5.3).
                    let max_ack_delay = if space == SpaceIndex::Application && handshake_done {
                        self.peer_max_ack_delay
                    } else {
                        Duration::zero()
                    };
                    self.rtt.update(rtt_sample, ack_delay, max_ack_delay);
                },
                None => {},
            }
        }
        // A valid ack-eliciting acknowledgement resets the PTO backoff.

        if outcome.acked_ack_eliciting {
            self.loss.reset_pto_count();
            self.probes_owed = 0;
        }
        self.tell_acked(&outcome.newly_acked, now);
        true
    }

    /// Tells congestion control and MTU discovery of packets that were acknowledged.
    fn tell_acked(&mut self, newly_acked: &Vec<SentPacket>, now: Instant)
        requires
            old(self)@.wf(),
        ensures
            final(self)@.wf(),
            final(self)@ == (RecoveryState {
                events: old(self)@.events + RecoveryState::ack_events(
                    packet_views(newly_acked@),
                    now,
                ),
                ..old(self)@
            }),
    {
        let ghost newly = packet_views(newly_acked@);
        // Congestion: release acked bytes; grow the window for non-recovery acks.
        let acked_cc = acked_in_flight(newly_acked);
        let ghost before = self.events@;
        let ghost cc = acked_cc@;
        if !acked_cc.is_empty() {
            self.events.push_back(RecoveryEvent::Acked { packets: acked_cc, now });
            assert(event_views(self.events@) =~= event_views(before).push(
                EventView::Acked { packets: cc, now },
            ));
        }
        // Check for MTU probe ACKs among newly-acked packets.

        let sizes = packet_probe_sizes_of(newly_acked);
        let ghost told = event_views(self.events@);
        let ghost as_event = |size: u16| EventView::MtuProbeAcked { size, now };
        let ghost fixed = *self;
        let mut i: usize = 0;
        assert(told =~= told + sizes@.take(0).map_values(as_event));
        while i < sizes.len()
            invariant
                i <= sizes@.len(),
                as_event == (|size: u16| EventView::MtuProbeAcked { size, now }),
                event_views(self.events@) =~= told + sizes@.take(i as int).map_values(as_event),
                *self == (Recovery { events: self.events, ..fixed }),
            decreases sizes@.len() - i,
        {
            let ghost e = self.events@;
            self.events.push_back(RecoveryEvent::MtuProbeAcked { size: sizes[i], now });
            assert(event_views(self.events@) =~= event_views(e).push(as_event(sizes@[i as int])));
            assert(sizes@.take(i + 1).map_values(as_event) =~= sizes@.take(
                i as int,
            ).map_values(as_event).push(as_event(sizes@[i as int])));
            i = i + 1;
        }
        assert(sizes@.take(sizes@.len() as int) =~= sizes@);
        assert(self@.events =~= old(self)@.events + RecoveryState::ack_events(newly, now));
    }

    /// Takes the packets of `space` out of flight that are lost at `now`, sets the
    /// space's loss timer, and tells congestion control and MTU discovery
    /// (RFC 9002 Section 6.1, 6.2). Gives the lost packets.
    pub fn take_lost(&mut self, space: SpaceIndex, now: Instant) -> (lost: Vec<SentPacket>)
        requires
            old(self)@.wf(),
        ensures
            final(self)@.wf(),
            final(self)@ == old(self)@.after_loss(space, now),
            packet_views(lost@) == old(self)@.lost(space, now),
            forall|i: int| 0 <= i < lost@.len() ==> frames_fit((#[trigger] lost@[i])@.frames),
    {
        let loss_delay = self.rtt.loss_delay();
        proof {
            let sent = self@.sent(space);
            crate::sent_packet::law_lost_once(sent, now, loss_delay);
            lemma_total_bytes_filter(
                sent.packets,
                |p: SentPacketView| sent.is_lost(p, now, loss_delay),
            );
        }
        let (lost, next_loss_time) = match space {
            SpaceIndex::Initial => self.initial.detect_lost(now, loss_delay),
            SpaceIndex::Handshake => self.handshake.detect_lost(now, loss_delay),
            SpaceIndex::Application => self.application.detect_lost(now, loss_delay),
        };
        let ghost views = packet_views(lost@);
        self.loss.set_loss_time(space, next_loss_time);
        if lost.is_empty() {
            proof {
                reveal(Seq::filter);
                assert(views =~= Seq::empty());
                assert(in_flight(views) =~= Seq::empty());
                let probes = packet_probe_sizes(views).map_values(
                    |size: u16| EventView::MtuProbeLost { size },
                );
                assert(probes =~= Seq::empty());
                assert(old(self)@.events + old(self)@.loss_events(views, now)
                    =~= old(self)@.events);
            }
            return lost;
        }
        // Congestion event from the newest lost in-flight packet.

        let (lost_bytes, newest_lost, oldest_lost) = lost_in_flight(&lost);
        self.packets_lost = self.packets_lost + lost.len() as u64;
        // Detect lost MTU probes and handle back-off.
        let sizes = packet_probe_sizes_of(&lost);
        let ghost told = event_views(self.events@);
        let ghost as_event = |size: u16| EventView::MtuProbeLost { size };
        let ghost fixed = *self;
        let mut i: usize = 0;
        assert(told =~= told + sizes@.take(0).map_values(as_event));
        while i < sizes.len()
            invariant
                i <= sizes@.len(),
                as_event == (|size: u16| EventView::MtuProbeLost { size }),
                event_views(self.events@) =~= told + sizes@.take(i as int).map_values(as_event),
                *self == (Recovery { events: self.events, ..fixed }),
            decreases sizes@.len() - i,
        {
            let ghost e = self.events@;
            self.events.push_back(RecoveryEvent::MtuProbeLost { size: sizes[i] });
            assert(event_views(self.events@) =~= event_views(e).push(as_event(sizes@[i as int])));
            assert(sizes@.take(i + 1).map_values(as_event) =~= sizes@.take(
                i as int,
            ).map_values(as_event).push(as_event(sizes@[i as int])));
            i = i + 1;
        }
        assert(sizes@.take(sizes@.len() as int) =~= sizes@);
        proof {
            lemma_latest_iff_earliest(in_flight(views));
        }
        match (newest_lost, oldest_lost) {
            (Some(newest), Some(oldest)) => {
                let ghost e = self.events@;
                self.events.push_back(RecoveryEvent::Lost { bytes: lost_bytes, newest, now });
                assert(event_views(self.events@) =~= event_views(e).push(
                    EventView::Lost { bytes: lost_bytes, newest, now },
                ));
                // Persistent congestion: if the span of lost packets exceeds the
                // persistent-congestion duration, collapse the window
                // (RFC 9002 7.6).
                let pto_base = self.rtt.pto_base(self.peer_max_ack_delay);
                if is_persistent_congestion(oldest, newest, pto_base) {
                    let ghost e = self.events@;
                    self.events.push_back(RecoveryEvent::PersistentCongestion);
                    assert(event_views(self.events@) =~= event_views(e).push(
                        EventView::PersistentCongestion,
                    ));
                }
            },
            _ => {},
        }
        assert(self@.events =~= old(self)@.events + old(self)@.loss_events(views, now));
        lost
    }

    /// The earliest send time of any outstanding ack-eliciting packet across all
    /// packet-number spaces.
    pub fn earliest_ack_eliciting_across_spaces(&self) -> (t: Option<Instant>)
        ensures
            t == self@.earliest_eliciting(),
            self@.wf() ==> (t matches Some(u) ==> u.in_range()),
    {
        let initial = self.initial.earliest_ack_eliciting_time();
        let handshake = self.handshake.earliest_ack_eliciting_time();
        let application = self.application.earliest_ack_eliciting_time();
        pick_earlier(pick_earlier(initial, handshake), application)
    }

    /// Recompute the loss-detection timer (RFC 9002 Appendix A.6/A.8): the
    /// earliest pending time-threshold loss deadline if any, otherwise the PTO
    /// armed from the earliest outstanding ack-eliciting packet across spaces.
    pub fn set_loss_detection_timer(&mut self)
        requires
            old(self)@.wf(),
        ensures
            final(self)@ == old(self)@.timed(),
            final(self)@.wf(),
    {
        // 1. Time-threshold loss timer takes precedence.
        match self.loss.earliest_loss_time() {
            Some((loss_time, _)) => {
                self.loss_timer = Some(loss_time);
                return;
            },
            None => {},
        }
        // 2. Otherwise, the PTO from the earliest ack-eliciting packet.
        match self.earliest_ack_eliciting_across_spaces() {
            Some(sent_time) => {
                // max_ack_delay only applies in the Application space; using the
                // peer value here is a safe upper bound for the combined timer.
                let pto_base = self.rtt.pto_base(self.peer_max_ack_delay);
                self.loss_timer = Some(self.loss.pto_deadline(sent_time, pto_base));
            },
            None => {
                // No ack-eliciting data outstanding: disarm.
                self.loss_timer = None;
            },
        }
    }

    /// The space whose packets are lost for their age when the timer fires at `now`.
    pub fn expired_space(&self, now: Instant) -> (space: Option<SpaceIndex>)
        ensures
            space == self@.expired_space(now),
    {
        match self.loss.earliest_loss_time() {
            Some((loss_time, space)) => if now.nanos >= loss_time.nanos {
                Some(space)
            } else {
                None
            },
            None => None,
        }
    }

    /// Back off and owe two probes more, four at most.
    pub fn owe_probes(&mut self)
        ensures
            final(self)@ == old(self)@.probing(),
            old(self)@.wf() ==> final(self)@.wf(),
    {
        self.loss.increase_pto_count();
        // Two probes per PTO (RFC 9002 Section 6.2.4), capped.
        let owed: u32 = self.probes_owed.saturating_add(2);
        self.probes_owed = if owed < 4 {
            owed
        } else {
            4
        };
    }

    /// The frames of the first packet of `space` in flight that the peer must
    /// acknowledge.
    pub fn probe_frames(&self, space: SpaceIndex) -> (frames: Vec<SentFrame>)
        ensures
            frame_views(frames@) == self@.probe_frames(space),
            self@.wf() ==> frames_fit(frame_views(frames@)),
    {
        let oldest = match space {
            SpaceIndex::Initial => self.initial.oldest_ack_eliciting_frames(),
            SpaceIndex::Handshake => self.handshake.oldest_ack_eliciting_frames(),
            SpaceIndex::Application => self.application.oldest_ack_eliciting_frames(),
        };
        match oldest {
            Some(frames) => frames,
            None => {
                let none: Vec<SentFrame> = Vec::new();
                assert(frame_views(none@) =~= Seq::empty());
                none
            },
        }
    }
}

proof fn lemma_two_to_20(n: nat)
    requires
        n <= 20,
    ensures
        two_to(n) <= 0x10_0000,
        n < 20 ==> two_to(n) <= 0x8_0000,
{
    reveal_with_fuel(two_to, 21);
}

/// The timer follows RFC 9002 Section A.8: it is off exactly when no packet awaits
/// its age of loss and none that must be acknowledged is in flight.
pub proof fn law_timer_off_when_idle(r: RecoveryState)
    ensures
        r.timer() is None <==> r.loss.spec_earliest_loss_time() is None
            && r.initial.eliciting().len() == 0 && r.handshake.eliciting().len() == 0
            && r.application.eliciting().len() == 0,
{
    lemma_latest_iff_earliest(r.initial.eliciting());
    lemma_latest_iff_earliest(r.handshake.eliciting());
    lemma_latest_iff_earliest(r.application.eliciting());
}

/// An acknowledgement that takes nothing out of flight changes no estimate, no
/// timer and no debt, and nobody is told anything.
pub proof fn law_stale_ack_has_no_effect(
    r: RecoveryState,
    now: Instant,
    space: SpaceIndex,
    handshake_done: bool,
    largest: u64,
    delay: u64,
    first_range: u64,
    ranges: Seq<AckRange>,
)
    requires
        r.sent(space).newly_acked(largest, first_range, ranges).len() == 0,
    ensures
        ({
            let after = r.acked(now, space, handshake_done, largest, delay, first_range, ranges);
            &&& after.rtt == r.rtt
            &&& after.loss == r.loss
            &&& after.loss_timer == r.loss_timer
            &&& after.probes_owed == r.probes_owed
            &&& after.events == r.events
            &&& after.packets_lost == r.packets_lost
        }),
{
}

/// Probes stay few: however often the timer fires, at most four are owed, and an
/// acknowledgement that the peer owed us settles the debt.
pub proof fn law_probes_bounded(r: RecoveryState)
    ensures
        r.probing().probes_owed <= 4,
        r.probes_owed <= 4 ==> r.probing().probes_owed >= r.probes_owed,
{
}

} // verus!
