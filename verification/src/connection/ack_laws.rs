//! What an ACK frame does to what is in flight.
use super::loss::{
    acked_packets, in_flight, packet_probe_sizes, sent_time, EventView, RecoveryState,
};
use super::model::Conn;
use super::recovery::law_requeue_frame_condition;
use crate::filtered::lemma_filter_members;
use crate::frame::{ack_low, AckRange};
use crate::recovery::{lemma_two_to_pow2, spec_space_index};
use crate::sent_packet::{acks, any_eliciting, largest_of, InFlight, SentPacketView};
use crate::time::{Duration, Instant};
use crate::types::PacketType;
use vstd::arithmetic::power2::pow2;
use vstd::prelude::*;

verus! {

/// An ACK frame covers the numbers from `largest` down over its first range; each further
/// range lies below, with one number more than its gap says in between, and covers one
/// number more than it says.
pub proof fn law_ack_ranges_descend(
    largest: u64,
    first_range: u64,
    ranges: Seq<AckRange>,
    next: AckRange,
    pn: u64,
)
    ensures
        acks(largest, first_range, Seq::empty(), pn) <==> largest - first_range <= pn <= largest,
        ack_low(largest, first_range, Seq::empty(), 0) == largest - first_range,
        ({
            let low = ack_low(largest, first_range, ranges, ranges.len() as int);
            let top = low - next.gap - 2;
            let more = ranges.push(next);
            &&& ack_low(largest, first_range, more, more.len() as int) == top - next.range
            &&& acks(largest, first_range, more, pn) <==> acks(largest, first_range, ranges, pn)
                || top - next.range <= pn <= top
        }),
{
    let n = ranges.len() as int;
    let more = ranges.push(next);
    assert forall|i: int| 0 <= i <= n implies #[trigger] ack_low(largest, first_range, more, i)
        == ack_low(largest, first_range, ranges, i) by {
        lemma_low_prefix(largest, first_range, ranges, more, i);
    }
    assert(more[n] == next);
    assert(ack_low(largest, first_range, more, n + 1) == ack_low(largest, first_range, more, n)
        - next.gap - 2 - next.range);
    if acks(largest, first_range, more, pn) && !(largest - first_range <= pn <= largest) {
        let i = choose|i: int|
            0 <= i < more.len() && #[trigger] ack_low(largest, first_range, more, i + 1) <= pn
                <= ack_low(largest, first_range, more, i) - more[i].gap - 2;
        if i < n {
            assert(more[i] == ranges[i]);
            assert(ack_low(largest, first_range, more, i) == ack_low(
                largest,
                first_range,
                ranges,
                i,
            ));
            assert(ack_low(largest, first_range, ranges, i + 1) <= pn);
        }
    }
    if acks(largest, first_range, ranges, pn) && !(largest - first_range <= pn <= largest) {
        let i = choose|i: int|
            0 <= i < ranges.len() && #[trigger] ack_low(largest, first_range, ranges, i + 1) <= pn
                <= ack_low(largest, first_range, ranges, i) - ranges[i].gap - 2;
        assert(more[i] == ranges[i]);
        assert(ack_low(largest, first_range, more, i) == ack_low(largest, first_range, ranges, i));
        assert(ack_low(largest, first_range, more, i + 1) <= pn);
    }
}

proof fn lemma_low_prefix(
    largest: u64,
    first_range: u64,
    a: Seq<AckRange>,
    b: Seq<AckRange>,
    n: int,
)
    requires
        0 <= n <= a.len() <= b.len(),
        forall|i: int| 0 <= i < a.len() ==> a[i] == b[i],
    ensures
        ack_low(largest, first_range, a, n) == ack_low(largest, first_range, b, n),
    decreases n,
{
    if n > 0 {
        lemma_low_prefix(largest, first_range, a, b, n - 1);
    }
}

/// What is in flight of the packets numbered with those of a type: Initial and Handshake
/// packets are numbered on their own, all others together.
pub open spec fn flight_of(r: RecoveryState, packet_type: PacketType) -> InFlight {
    if packet_type == PacketType::Initial {
        r.initial
    } else if packet_type == PacketType::Handshake {
        r.handshake
    } else {
        r.application
    }
}

/// Whether an acknowledgement covers a packet in flight.
pub open spec fn covers_any(
    packets: Seq<SentPacketView>,
    largest: u64,
    first_range: u64,
    ranges: Seq<AckRange>,
) -> bool {
    exists|i: int|
        0 <= i < packets.len() && acks(
            largest,
            first_range,
            ranges,
            (#[trigger] packets[i]).packet_number,
        )
}

proof fn lemma_covers_any(f: InFlight, largest: u64, first_range: u64, ranges: Seq<AckRange>)
    ensures
        covers_any(f.packets, largest, first_range, ranges) <==> f.newly_acked(
            largest,
            first_range,
            ranges,
        ).len() > 0,
{
    let pred = |p: SentPacketView| acks(largest, first_range, ranges, p.packet_number);
    let newly = f.packets.filter(pred);
    assert(f.newly_acked(largest, first_range, ranges) == newly);
    if newly.len() > 0 {
        let p = newly[0];
        assert(newly.contains(p));
        lemma_filter_members(f.packets, pred, p);
        let i = choose|i: int| 0 <= i < f.packets.len() && f.packets[i] == p;
        assert(acks(largest, first_range, ranges, f.packets[i].packet_number));
    }
    if covers_any(f.packets, largest, first_range, ranges) {
        let i = choose|i: int|
            0 <= i < f.packets.len() && acks(
                largest,
                first_range,
                ranges,
                (#[trigger] f.packets[i]).packet_number,
            );
        assert(f.packets.contains(f.packets[i]));
        lemma_filter_members(f.packets, pred, f.packets[i]);
    }
}

proof fn lemma_ack_recovery(
    c: Conn,
    now: Instant,
    packet_type: PacketType,
    largest: u64,
    delay: u64,
    first_range: u64,
    ranges: Seq<AckRange>,
)
    ensures
        ({
            let space = spec_space_index(packet_type);
            let acked = c.recovery.acked(
                now,
                space,
                c.handshake_done,
                largest,
                delay,
                first_range,
                ranges,
            );
            let after = c.with_ack(now, packet_type, largest, delay, first_range, ranges);
            let newly = flight_of(c.recovery, packet_type).newly_acked(largest, first_range, ranges);
            &&& c.recovery.sent(space) == flight_of(c.recovery, packet_type)
            &&& newly.len() == 0 ==> after.recovery == acked
            &&& newly.len() > 0 ==> after.recovery == acked.after_loss(space, now).timed()
            &&& after.initial == c.space_acked(packet_type, largest).initial
            &&& after.handshake == c.space_acked(packet_type, largest).handshake
            &&& after.application == c.space_acked(packet_type, largest).application
        }),
{
    reveal(Conn::with_ack);
    let space = spec_space_index(packet_type);
    let acked = Conn {
        recovery: c.recovery.acked(
            now,
            space,
            c.handshake_done,
            largest,
            delay,
            first_range,
            ranges,
        ),
        ..c.space_acked(packet_type, largest)
    };
    let lost = acked.recovery.lost(space, now);
    law_requeue_frame_condition(
        Conn { recovery: acked.recovery.after_loss(space, now), ..acked },
        space,
        lost,
    );
}

/// What an ACK frame leaves in flight: of the packets numbered with the one it came in,
/// those that it does not cover. If it covers any, those are lost of which three later
/// ones were sent up to the largest acknowledged, or which were sent too long ago. In the
/// other spaces nothing changes.
pub proof fn law_ack_takes_out_of_flight(
    c: Conn,
    now: Instant,
    packet_type: PacketType,
    largest: u64,
    delay: u64,
    first_range: u64,
    ranges: Seq<AckRange>,
    p: SentPacketView,
)
    ensures
        ({
            let after = c.with_ack(now, packet_type, largest, delay, first_range, ranges);
            let (r, s) = (c.recovery, after.recovery);
            let was = flight_of(r, packet_type);
            let hit = covers_any(was.packets, largest, first_range, ranges);
            let top = match was.largest_acked {
                Some(l) if l > largest => l,
                _ => largest,
            };
            let wait = s.rtt.spec_loss_delay();
            let late = p.packet_number <= top && (top - p.packet_number >= 3 || p.time_sent.nanos
                + wait.nanos <= now.nanos);
            &&& flight_of(s, packet_type).largest_acked == Some(top)
            &&& flight_of(s, packet_type).packets.contains(p) <==> was.packets.contains(p) && !acks(
                largest,
                first_range,
                ranges,
                p.packet_number,
            ) && !(hit && late)
            &&& packet_type != PacketType::Initial ==> s.initial == r.initial && s.loss.initial
                == r.loss.initial && after.initial == c.initial
            &&& packet_type != PacketType::Handshake ==> s.handshake == r.handshake
                && s.loss.handshake == r.loss.handshake && after.handshake == c.handshake
            &&& packet_type == PacketType::Initial || packet_type == PacketType::Handshake
                ==> s.application == r.application && s.loss.application == r.loss.application
                && after.application == c.application
        }),
{
    lemma_ack_recovery(c, now, packet_type, largest, delay, first_range, ranges);
    let space = spec_space_index(packet_type);
    let was = flight_of(c.recovery, packet_type);
    let acked = c.recovery.acked(
        now,
        space,
        c.handshake_done,
        largest,
        delay,
        first_range,
        ranges,
    );
    lemma_covers_any(was, largest, first_range, ranges);
    let kept = |q: SentPacketView| !acks(largest, first_range, ranges, q.packet_number);
    lemma_filter_members(was.packets, kept, p);
    let mid = acked.sent(space);
    let wait = acked.rtt.spec_loss_delay();
    let alive = |q: SentPacketView| !mid.is_lost(q, now, wait);
    lemma_filter_members(mid.packets, alive, p);
}

/// An ACK frame that covers nothing in flight changes no estimate, no timer and no debt
/// of probes, nothing counts as lost, and nobody is told anything.
pub proof fn law_ack_of_nothing(
    c: Conn,
    now: Instant,
    packet_type: PacketType,
    largest: u64,
    delay: u64,
    first_range: u64,
    ranges: Seq<AckRange>,
)
    requires
        !covers_any(flight_of(c.recovery, packet_type).packets, largest, first_range, ranges),
    ensures
        ({
            let after = c.with_ack(now, packet_type, largest, delay, first_range, ranges);
            let (r, s) = (c.recovery, after.recovery);
            &&& s.rtt == r.rtt
            &&& s.loss == r.loss
            &&& s.loss_timer == r.loss_timer
            &&& s.probes_owed == r.probes_owed
            &&& s.packets_lost == r.packets_lost
            &&& s.events == r.events
        }),
{
    lemma_ack_recovery(c, now, packet_type, largest, delay, first_range, ranges);
    lemma_covers_any(flight_of(c.recovery, packet_type), largest, first_range, ranges);
}

/// The largest number acknowledged in a space grows to that of the frame and never
/// shrinks; what was received in the space does not matter.
pub proof fn law_largest_acked(
    c: Conn,
    now: Instant,
    packet_type: PacketType,
    largest: u64,
    delay: u64,
    first_range: u64,
    ranges: Seq<AckRange>,
)
    ensures
        ({
            let after = c.with_ack(now, packet_type, largest, delay, first_range, ranges);
            let (was, is) = if packet_type == PacketType::Initial {
                (c.initial, after.initial)
            } else if packet_type == PacketType::Handshake {
                (c.handshake, after.handshake)
            } else {
                (c.application, after.application)
            };
            &&& is.largest_acked matches Some(l) && l >= largest && (l == largest
                || was.largest_acked == Some(l)) && (was.largest_acked matches Some(m) ==> l >= m)
            &&& is.largest_received == was.largest_received
            &&& is.to_ack == was.to_ack
            &&& is.ack_owed == was.ack_owed
        }),
{
    lemma_ack_recovery(c, now, packet_type, largest, delay, first_range, ranges);
}

/// No acknowledgement covers a number beyond its largest.
proof fn lemma_acks_up_to_largest(
    largest: u64,
    first_range: u64,
    ranges: Seq<AckRange>,
    pn: u64,
)
    requires
        acks(largest, first_range, ranges, pn),
    ensures
        pn <= largest,
{
    if pn > largest {
        let i = choose|i: int|
            0 <= i < ranges.len() && #[trigger] ack_low(largest, first_range, ranges, i + 1) <= pn
                <= ack_low(largest, first_range, ranges, i) - ranges[i].gap - 2;
        lemma_low_bound(largest, first_range, ranges, i);
    }
}

proof fn lemma_low_bound(largest: u64, first_range: u64, ranges: Seq<AckRange>, n: int)
    ensures
        ack_low(largest, first_range, ranges, n) <= largest,
    decreases n,
{
    if n > 0 {
        lemma_low_bound(largest, first_range, ranges, n - 1);
    }
}

proof fn lemma_largest_of(s: Seq<SentPacketView>, p: SentPacketView)
    requires
        s.contains(p),
        forall|q: SentPacketView| #[trigger] s.contains(q) ==> q.packet_number <= p.packet_number,
    ensures
        largest_of(s) == Some(p.packet_number),
    decreases s.len(),
{
    let front = s.drop_last();
    assert(s.contains(s.last()));
    assert forall|q: SentPacketView| #[trigger] front.contains(q) implies q.packet_number
        <= p.packet_number by {
        let i = choose|i: int| 0 <= i < front.len() && front[i] == q;
        assert(s[i] == q);
        assert(s.contains(q));
    }
    if front.contains(p) {
        lemma_largest_of(front, p);
    } else {
        let i = choose|i: int| 0 <= i < s.len() && s[i] == p;
        if i < s.len() - 1 {
            assert(front[i] == p);
        }
        lemma_largest_member(front);
    }
}

/// The largest number is that of one of the packets.
proof fn lemma_largest_member(s: Seq<SentPacketView>)
    ensures
        largest_of(s) matches Some(l) ==> exists|q: SentPacketView| #[trigger]
            s.contains(q) && q.packet_number == l,
    decreases s.len(),
{
    if s.len() > 0 {
        let front = s.drop_last();
        lemma_largest_member(front);
        assert(s.contains(s.last()));
        if largest_of(front) is Some {
            let l = largest_of(front)->Some_0;
            let q = choose|q: SentPacketView| #[trigger] front.contains(q) && q.packet_number == l;
            let i = choose|i: int| 0 <= i < front.len() && front[i] == q;
            assert(s[i] == q);
            assert(s.contains(q));
        }
    }
}

proof fn lemma_sent_time(s: Seq<SentPacketView>, p: SentPacketView)
    requires
        s.contains(p),
        forall|q: SentPacketView| #[trigger]
            s.contains(q) && q.packet_number == p.packet_number ==> q == p,
    ensures
        sent_time(s, p.packet_number) == Some(p.time_sent),
    decreases s.len(),
{
    assert(s.contains(s[0]));
    if s[0].packet_number != p.packet_number {
        let rest = s.drop_first();
        let i = choose|i: int| 0 <= i < s.len() && s[i] == p;
        assert(rest[i - 1] == p);
        assert forall|q: SentPacketView| #[trigger]
            rest.contains(q) && q.packet_number == p.packet_number implies q == p by {
            let j = choose|j: int| 0 <= j < rest.len() && rest[j] == q;
            assert(s[j + 1] == q);
            assert(s.contains(q));
        }
        lemma_sent_time(rest, p);
    }
}

/// A round-trip time is measured exactly by an acknowledgement whose largest number is
/// that of a packet in flight: it is the time since that packet was sent. The peer's
/// delay is scaled by two to its exponent, 3 unless it declared another, and counts up to
/// what it declared for 1-RTT packets once the handshake is confirmed, else not at all.
pub proof fn law_ack_measures_round_trip(
    c: Conn,
    now: Instant,
    packet_type: PacketType,
    largest: u64,
    delay: u64,
    first_range: u64,
    ranges: Seq<AckRange>,
    k: int,
)
    requires
        c.wf(),
        ({
            let packets = flight_of(c.recovery, packet_type).packets;
            ||| 0 <= k < packets.len() && packets[k].packet_number == largest
            ||| forall|i: int|
                0 <= i < packets.len() ==> (#[trigger] packets[i]).packet_number != largest
        }),
    ensures
        ({
            let after = c.with_ack(now, packet_type, largest, delay, first_range, ranges);
            let (r, s) = (c.recovery, after.recovery);
            let packets = flight_of(r, packet_type).packets;
            let scale = match r.ack_delay_exponent {
                Some(e) if e <= 20 => pow2(e as nat),
                Some(_) => 0x10_0000,
                None => 8,
            };
            let micros = if delay * scale <= u64::MAX {
                delay * scale
            } else {
                u64::MAX as int
            };
            let counted = if c.handshake_done && packet_type != PacketType::Initial && packet_type
                != PacketType::Handshake {
                r.peer_max_ack_delay
            } else {
                (Duration { nanos: 0 })
            };
            if 0 <= k < packets.len() && packets[k].packet_number == largest {
                let sent = packets[k].time_sent.nanos;
                let sample = Duration {
                    nanos: if now.nanos >= sent {
                        (now.nanos - sent) as u128
                    } else {
                        0
                    },
                };
                s.rtt == r.rtt.updated(
                    sample,
                    Duration { nanos: (1_000 * micros) as u128 },
                    counted,
                )
            } else {
                s.rtt == r.rtt
            }
        }),
{
    lemma_ack_recovery(c, now, packet_type, largest, delay, first_range, ranges);
    let was = flight_of(c.recovery, packet_type);
    let packets = was.packets;
    let pred = |q: SentPacketView| acks(largest, first_range, ranges, q.packet_number);
    let newly = packets.filter(pred);
    assert(was.newly_acked(largest, first_range, ranges) == newly);
    assert(was.wf());
    vstd::arithmetic::power2::lemma2_to64();
    match c.recovery.ack_delay_exponent {
        Some(e) => {
            lemma_two_to_pow2(e as nat);
        },
        None => {},
    }
    lemma_two_to_pow2(20);
    lemma_two_to_pow2(3);
    assert forall|q: SentPacketView| #[trigger] newly.contains(q) implies packets.contains(q)
        && acks(largest, first_range, ranges, q.packet_number) && q.packet_number <= largest by {
        lemma_filter_members(packets, pred, q);
        lemma_acks_up_to_largest(largest, first_range, ranges, q.packet_number);
    }
    if 0 <= k < packets.len() && packets[k].packet_number == largest {
        let p = packets[k];
        assert(packets.contains(p));
        lemma_filter_members(packets, pred, p);
        lemma_largest_of(newly, p);
        assert forall|q: SentPacketView| #[trigger]
            newly.contains(q) && q.packet_number == p.packet_number implies q == p by {
            let i = choose|i: int| 0 <= i < packets.len() && packets[i] == q;
            if i < k {
                assert(packets[i].packet_number < packets[k].packet_number);
            } else if k < i {
                assert(packets[k].packet_number < packets[i].packet_number);
            }
        }
        lemma_sent_time(newly, p);
    } else {
        lemma_largest_member(newly);
        if largest_of(newly) == Some(largest) {
            let q = choose|q: SentPacketView| #[trigger]
                newly.contains(q) && q.packet_number == largest;
            let i = choose|i: int| 0 <= i < packets.len() && packets[i] == q;
            assert(packets[i].packet_number != largest);
        }
    }
}

proof fn lemma_any_eliciting(s: Seq<SentPacketView>)
    ensures
        any_eliciting(s) <==> exists|q: SentPacketView| #[trigger] s.contains(q) && q.ack_eliciting,
    decreases s.len(),
{
    if s.len() > 0 {
        let front = s.drop_last();
        lemma_any_eliciting(front);
        assert(s.contains(s.last()));
        if any_eliciting(front) {
            let q = choose|q: SentPacketView| #[trigger] front.contains(q) && q.ack_eliciting;
            let i = choose|i: int| 0 <= i < front.len() && front[i] == q;
            assert(s[i] == q);
            assert(s.contains(q));
        }
        if exists|q: SentPacketView| #[trigger] s.contains(q) && q.ack_eliciting {
            let q = choose|q: SentPacketView| #[trigger] s.contains(q) && q.ack_eliciting;
            let i = choose|i: int| 0 <= i < s.len() && s[i] == q;
            if i < front.len() {
                assert(front[i] == q);
                assert(front.contains(q));
            }
        }
    } else {
        assert(forall|q: SentPacketView| !s.contains(q));
    }
}

/// Acknowledging a packet that asked for it ends the backoff and the debt of probes;
/// acknowledging only others changes neither.
pub proof fn law_ack_ends_backoff(
    c: Conn,
    now: Instant,
    packet_type: PacketType,
    largest: u64,
    delay: u64,
    first_range: u64,
    ranges: Seq<AckRange>,
)
    ensures
        ({
            let after = c.with_ack(now, packet_type, largest, delay, first_range, ranges);
            let (r, s) = (c.recovery, after.recovery);
            let packets = flight_of(r, packet_type).packets;
            let asked = exists|i: int|
                0 <= i < packets.len() && (#[trigger] packets[i]).ack_eliciting && acks(
                    largest,
                    first_range,
                    ranges,
                    packets[i].packet_number,
                );
            &&& asked ==> s.probes_owed == 0 && s.loss.pto_count == 0
            &&& !asked ==> s.probes_owed == r.probes_owed && s.loss.pto_count == r.loss.pto_count
        }),
{
    lemma_ack_recovery(c, now, packet_type, largest, delay, first_range, ranges);
    let packets = flight_of(c.recovery, packet_type).packets;
    let pred = |q: SentPacketView| acks(largest, first_range, ranges, q.packet_number);
    let newly = packets.filter(pred);
    assert(flight_of(c.recovery, packet_type).newly_acked(largest, first_range, ranges) == newly);
    lemma_any_eliciting(newly);
    assert forall|q: SentPacketView| #[trigger] newly.contains(q) <==> packets.contains(q) && pred(
        q,
    ) by {
        lemma_filter_members(packets, pred, q);
    }
    if exists|i: int|
        0 <= i < packets.len() && (#[trigger] packets[i]).ack_eliciting && acks(
            largest,
            first_range,
            ranges,
            packets[i].packet_number,
        ) {
        let i = choose|i: int|
            0 <= i < packets.len() && (#[trigger] packets[i]).ack_eliciting && acks(
                largest,
                first_range,
                ranges,
                packets[i].packet_number,
            );
        assert(packets.contains(packets[i]));
        assert(newly.contains(packets[i]));
    }
    if any_eliciting(newly) {
        let q = choose|q: SentPacketView| #[trigger] newly.contains(q) && q.ack_eliciting;
        let i = choose|i: int| 0 <= i < packets.len() && packets[i] == q;
        assert(packets[i].ack_eliciting);
    }
}

/// What is told of packets that are acknowledged: of those that counted towards the
/// congestion window, in the order of sending, the size, the time of sending and the rate
/// sample of each; then the size of each path MTU probe. Losses are told after that.
pub proof fn law_acks_told(
    c: Conn,
    now: Instant,
    packet_type: PacketType,
    largest: u64,
    delay: u64,
    first_range: u64,
    ranges: Seq<AckRange>,
)
    ensures
        ({
            let after = c.with_ack(now, packet_type, largest, delay, first_range, ranges);
            let (r, s) = (c.recovery, after.recovery);
            let was = flight_of(r, packet_type);
            let newly = was.newly_acked(largest, first_range, ranges);
            let flying = in_flight(newly);
            let sizes = packet_probe_sizes(newly);
            let told = s.events.skip(r.events.len() as int);
            let n: int = if flying.len() > 0 {
                1
            } else {
                0
            };
            &&& forall|p: SentPacketView| #[trigger]
                newly.contains(p) <==> was.packets.contains(p) && acks(
                    largest,
                    first_range,
                    ranges,
                    p.packet_number,
                )
            &&& forall|p: SentPacketView| #[trigger]
                flying.contains(p) <==> newly.contains(p) && p.in_flight
            &&& s.events.len() >= r.events.len() + n + sizes.len()
            &&& s.events.take(r.events.len() as int) == r.events
            &&& flying.len() > 0 ==> (told[0] matches EventView::Acked { packets, now: at } && at
                == now && packets.len() == flying.len() && forall|i: int|
                0 <= i < flying.len() ==> (#[trigger] packets[i]).bytes == flying[i].sent_bytes
                    && packets[i].time_sent == flying[i].time_sent && packets[i].rate_sample
                    == flying[i].rate_sample)
            &&& forall|i: int|
                0 <= i < sizes.len() ==> #[trigger] told[n + i] == (EventView::MtuProbeAcked {
                    size: sizes[i],
                    now,
                })
        }),
{
    lemma_ack_recovery(c, now, packet_type, largest, delay, first_range, ranges);
    let r = c.recovery;
    let was = flight_of(r, packet_type);
    let space = spec_space_index(packet_type);
    let pred = |q: SentPacketView| acks(largest, first_range, ranges, q.packet_number);
    let newly = was.newly_acked(largest, first_range, ranges);
    assert(newly == was.packets.filter(pred));
    let flying = in_flight(newly);
    assert forall|p: SentPacketView| #[trigger] newly.contains(p) <==> was.packets.contains(p)
        && acks(largest, first_range, ranges, p.packet_number) by {
        lemma_filter_members(was.packets, pred, p);
    }
    assert forall|p: SentPacketView| #[trigger] flying.contains(p) <==> newly.contains(p)
        && p.in_flight by {
        lemma_filter_members(newly, |q: SentPacketView| q.in_flight, p);
    }
    let s = c.with_ack(now, packet_type, largest, delay, first_range, ranges).recovery;
    let told = s.events.skip(r.events.len() as int);
    if newly.len() == 0 {
        assert(flying.len() == 0) by {
            if flying.len() > 0 {
                assert(flying.contains(flying[0]));
            }
        }
        assert(s.events.take(r.events.len() as int) =~= r.events);
    } else {
        let acked = r.acked(now, space, c.handshake_done, largest, delay, first_range, ranges);
        let of_acks = RecoveryState::ack_events(newly, now);
        let of_losses = acked.loss_events(acked.lost(space, now), now);
        assert(s.events =~= r.events + of_acks + of_losses);
        assert(s.events.take(r.events.len() as int) =~= r.events);
        assert(told =~= of_acks + of_losses);
        assert(acked_packets(flying).len() == flying.len());
    }
}

} // verus!
