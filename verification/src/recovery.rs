//! Round-trip time estimation and the timers of loss detection (RFC 9002).
use crate::time::{Duration, Instant, CLOCK_LIMIT};
use crate::types::PacketType;
use vstd::prelude::*;

verus! {

/// The round-trip time assumed before the first sample (RFC 9002 Section 6.2.2),
/// in nanoseconds.
pub const INITIAL_RTT: u128 = 333_000_000;

/// The granularity of timers (RFC 9002 Section 6.1.2), in nanoseconds.
pub const GRANULARITY: u128 = 1_000_000;

/// Beyond this many expiries in a row the probe timeout no longer doubles.
pub const MAX_BACKOFF: u32 = 16;

/// The longest acknowledgement delay a peer can declare, in nanoseconds.
pub const MAX_DELAY: u128 = 0x1_0000_0000_0000_0000_0000_0000;

/// A packet number space (RFC 9000 Section 12.3).
#[derive(Clone, Copy, Debug, PartialEq, Eq, Structural)]
pub enum SpaceIndex {
    /// Initial packets.
    Initial,
    /// Handshake packets.
    Handshake,
    /// 0-RTT and 1-RTT packets.
    Application,
}

/// The space in which packets of a type are numbered.
pub open spec fn spec_space_index(packet_type: PacketType) -> SpaceIndex {
    match packet_type {
        PacketType::Initial => SpaceIndex::Initial,
        PacketType::Handshake => SpaceIndex::Handshake,
        _ => SpaceIndex::Application,
    }
}

/// Map a received packet's type to its packet-number space.
pub fn space_index(packet_type: PacketType) -> (idx: SpaceIndex)
    ensures
        idx == spec_space_index(packet_type),
{
    match packet_type {
        PacketType::Initial => SpaceIndex::Initial,
        PacketType::Handshake => SpaceIndex::Handshake,
        _ => SpaceIndex::Application,
    }
}

/// The estimates of a path's round-trip time (RFC 9002 Section 5).
#[derive(Clone, Copy, Debug, PartialEq, Eq, Structural)]
pub struct RttEstimator {
    /// The last sample.
    pub latest: Duration,
    /// The least sample.
    pub min: Duration,
    /// The smoothed round-trip time.
    pub smoothed: Duration,
    /// The mean deviation.
    pub var: Duration,
    /// Whether a sample has been taken.
    pub sampled: bool,
}

/// The distance of two spans.
pub open spec fn span_distance(a: Duration, b: Duration) -> nat {
    if a.nanos >= b.nanos {
        (a.nanos - b.nanos) as nat
    } else {
        (b.nanos - a.nanos) as nat
    }
}

impl RttEstimator {
    /// Before the first sample.
    pub open spec fn fresh() -> RttEstimator {
        RttEstimator {
            latest: Duration { nanos: 0 },
            min: Duration { nanos: 0 },
            smoothed: Duration { nanos: 0 },
            var: Duration { nanos: 0 },
            sampled: false,
        }
    }

    /// The estimates stay in the range of the clock.
    pub open spec fn wf(self) -> bool {
        &&& self.latest.nanos <= CLOCK_LIMIT
        &&& self.min.nanos <= CLOCK_LIMIT
        &&& self.smoothed.nanos <= CLOCK_LIMIT
        &&& self.var.nanos <= CLOCK_LIMIT
    }

    /// No sample taken.
    pub fn new() -> (rtt: RttEstimator)
        ensures
            rtt == RttEstimator::fresh(),
            rtt.wf(),
    {
        RttEstimator {
            latest: Duration::zero(),
            min: Duration::zero(),
            smoothed: Duration::zero(),
            var: Duration::zero(),
            sampled: false,
        }
    }

    /// The least sample once `sample` is counted in.
    pub open spec fn min_with(self, sample: Duration) -> Duration {
        if self.sampled {
            self.min.spec_min(sample)
        } else {
            sample
        }
    }

    /// `sample` less the peer's delay, unless that would fall below the least
    /// sample (RFC 9002 Section 5.3).
    pub open spec fn adjusted(self, sample: Duration, delay: Duration) -> Duration {
        if sample.nanos >= self.min_with(sample).nanos + delay.nanos {
            Duration { nanos: (sample.nanos - delay.nanos) as u128 }
        } else {
            sample
        }
    }

    /// The estimates after a sample; the peer's delay counts up to `max_ack_delay`.
    pub open spec fn updated(
        self,
        sample: Duration,
        ack_delay: Duration,
        max_ack_delay: Duration,
    ) -> RttEstimator {
        if !self.sampled {
            RttEstimator {
                latest: sample,
                min: sample,
                smoothed: sample,
                var: Duration { nanos: sample.nanos / 2 },
                sampled: true,
            }
        } else {
            let adjusted = self.adjusted(sample, ack_delay.spec_min(max_ack_delay));
            RttEstimator {
                latest: sample,
                min: self.min_with(sample),
                smoothed: Duration {
                    nanos: ((7 * self.smoothed.nanos + adjusted.nanos) / 8) as u128,
                },
                var: Duration {
                    nanos: ((3 * self.var.nanos + span_distance(self.smoothed, adjusted)) / 4)
                        as u128,
                },
                sampled: true,
            }
        }
    }

    /// Takes in a sample; the peer's delay counts up to `max_ack_delay`.
    pub fn update(&mut self, sample: Duration, ack_delay: Duration, max_ack_delay: Duration)
        requires
            old(self).wf(),
            sample.nanos <= CLOCK_LIMIT,
            ack_delay.nanos <= MAX_DELAY,
        ensures
            *final(self) == old(self).updated(sample, ack_delay, max_ack_delay),
            final(self).wf(),
    {
        self.latest = sample;
        if !self.sampled {
            self.min = sample;
            self.smoothed = sample;
            self.var = Duration { nanos: sample.nanos / 2 };
            self.sampled = true;
            return;
        }
        self.min = self.min.min(sample);
        let delay = ack_delay.min(max_ack_delay);
        let adjusted = if sample.nanos >= self.min.nanos + delay.nanos {
            Duration { nanos: sample.nanos - delay.nanos }
        } else {
            sample
        };
        let distance: u128 = if self.smoothed.nanos >= adjusted.nanos {
            self.smoothed.nanos - adjusted.nanos
        } else {
            adjusted.nanos - self.smoothed.nanos
        };
        self.var = Duration { nanos: (3 * self.var.nanos + distance) / 4 };
        self.smoothed = Duration { nanos: (7 * self.smoothed.nanos + adjusted.nanos) / 8 };
    }

    /// The smoothed round-trip time, zero before the first sample.
    pub fn smoothed_rtt(&self) -> (d: Duration)
        ensures
            d == self.smoothed,
    {
        self.smoothed
    }

    /// The probe timeout before any backoff (RFC 9002 Section 6.2.1).
    pub open spec fn spec_pto_base(self, max_ack_delay: Duration) -> Duration {
        let smoothed: int = if self.sampled {
            self.smoothed.nanos as int
        } else {
            INITIAL_RTT as int
        };
        let spread: int = 4 * if self.sampled {
            self.var.nanos as int
        } else {
            (INITIAL_RTT / 2) as int
        };
        Duration {
            nanos: (smoothed + if spread >= GRANULARITY {
                spread
            } else {
                GRANULARITY as int
            } + max_ack_delay.nanos) as u128,
        }
    }

    /// The probe timeout before any backoff (RFC 9002 Section 6.2.1).
    pub fn pto_base(&self, max_ack_delay: Duration) -> (d: Duration)
        requires
            self.wf(),
            max_ack_delay.nanos <= MAX_DELAY,
        ensures
            d == self.spec_pto_base(max_ack_delay),
            d.nanos <= 6 * CLOCK_LIMIT,
            d.nanos >= GRANULARITY,
    {
        let (smoothed, var): (u128, u128) = if self.sampled {
            (self.smoothed.nanos, self.var.nanos)
        } else {
            (INITIAL_RTT, INITIAL_RTT / 2)
        };
        let spread: u128 = if 4 * var >= GRANULARITY {
            4 * var
        } else {
            GRANULARITY
        };
        Duration { nanos: smoothed + spread + max_ack_delay.nanos }
    }

    /// How long after a later packet was acknowledged a packet counts as lost
    /// (RFC 9002 Section 6.1.2): nine eighths of the round-trip time.
    pub open spec fn spec_loss_delay(self) -> Duration {
        let rtt: int = if !self.sampled {
            INITIAL_RTT as int
        } else if self.latest.nanos > self.smoothed.nanos {
            self.latest.nanos as int
        } else {
            self.smoothed.nanos as int
        };
        Duration {
            nanos: (if 9 * rtt / 8 >= GRANULARITY {
                9 * rtt / 8
            } else {
                GRANULARITY as int
            }) as u128,
        }
    }

    /// How long after a later packet was acknowledged a packet counts as lost
    /// (RFC 9002 Section 6.1.2).
    pub fn loss_delay(&self) -> (d: Duration)
        requires
            self.wf(),
        ensures
            d == self.spec_loss_delay(),
            d.nanos <= 2 * CLOCK_LIMIT,
    {
        let rtt: u128 = if !self.sampled {
            INITIAL_RTT
        } else {
            self.latest.max(self.smoothed).nanos
        };
        let delay: u128 = 9 * rtt / 8;
        Duration {
            nanos: if delay >= GRANULARITY {
                delay
            } else {
                GRANULARITY
            },
        }
    }
}

/// Two to the power of `n`.
pub open spec fn two_to(n: nat) -> nat
    decreases n,
{
    if n == 0 {
        1
    } else {
        2 * two_to((n - 1) as nat)
    }
}

/// The timers of loss detection: when packets of each space become lost for their
/// age, and how often in a row the probe timeout has expired.
#[derive(Clone, Copy, Debug, PartialEq, Eq, Structural)]
pub struct LossDetector {
    /// When a packet of the Initial space becomes lost.
    pub initial: Option<Instant>,
    /// When a packet of the Handshake space becomes lost.
    pub handshake: Option<Instant>,
    /// When a packet of the Application space becomes lost.
    pub application: Option<Instant>,
    /// Expiries of the probe timeout in a row.
    pub pto_count: u32,
}

impl LossDetector {
    /// No timer runs.
    pub open spec fn fresh() -> LossDetector {
        LossDetector { initial: None, handshake: None, application: None, pto_count: 0 }
    }

    /// No timer runs.
    pub fn new() -> (loss: LossDetector)
        ensures
            loss == LossDetector::fresh(),
    {
        LossDetector { initial: None, handshake: None, application: None, pto_count: 0 }
    }

    /// The timer of a space.
    pub open spec fn loss_time(self, space: SpaceIndex) -> Option<Instant> {
        match space {
            SpaceIndex::Initial => self.initial,
            SpaceIndex::Handshake => self.handshake,
            SpaceIndex::Application => self.application,
        }
    }

    /// With the timer of a space set.
    pub open spec fn with_loss_time(self, space: SpaceIndex, time: Option<Instant>) -> LossDetector {
        match space {
            SpaceIndex::Initial => LossDetector { initial: time, ..self },
            SpaceIndex::Handshake => LossDetector { handshake: time, ..self },
            SpaceIndex::Application => LossDetector { application: time, ..self },
        }
    }

    /// Sets the timer of a space.
    pub fn set_loss_time(&mut self, space: SpaceIndex, time: Option<Instant>)
        ensures
            *final(self) == old(self).with_loss_time(space, time),
    {
        match space {
            SpaceIndex::Initial => self.initial = time,
            SpaceIndex::Handshake => self.handshake = time,
            SpaceIndex::Application => self.application = time,
        }
    }

    /// The earliest timer and its space; of equal ones that of the earlier space.
    pub open spec fn spec_earliest_loss_time(self) -> Option<(Instant, SpaceIndex)> {
        let first = match self.initial {
            Some(t) => Some((t, SpaceIndex::Initial)),
            None => None,
        };
        let second = earlier_of(first, self.handshake, SpaceIndex::Handshake);
        earlier_of(second, self.application, SpaceIndex::Application)
    }

    /// The earliest timer and its space; of equal ones that of the earlier space.
    pub fn earliest_loss_time(&self) -> (r: Option<(Instant, SpaceIndex)>)
        ensures
            r == self.spec_earliest_loss_time(),
    {
        let first = match self.initial {
            Some(t) => Some((t, SpaceIndex::Initial)),
            None => None,
        };
        let second = pick_earlier(first, self.handshake, SpaceIndex::Handshake);
        pick_earlier(second, self.application, SpaceIndex::Application)
    }

    /// An acknowledgement came in: the backoff starts over.
    pub fn reset_pto_count(&mut self)
        ensures
            *final(self) == (LossDetector { pto_count: 0, ..*old(self) }),
    {
        self.pto_count = 0;
    }

    /// The probe timeout expired once more.
    pub open spec fn backed_off(self) -> LossDetector {
        LossDetector {
            pto_count: if self.pto_count < u32::MAX {
                (self.pto_count + 1) as u32
            } else {
                u32::MAX
            },
            ..self
        }
    }

    /// The probe timeout expired once more.
    pub fn increase_pto_count(&mut self)
        ensures
            *final(self) == old(self).backed_off(),
    {
        self.pto_count = self.pto_count.saturating_add(1);
    }

    /// By what the probe timeout is multiplied: it doubles with each expiry in a
    /// row (RFC 9002 Section 6.2.1), up to a bound.
    pub open spec fn backoff(self) -> nat {
        two_to(
            if self.pto_count < MAX_BACKOFF {
                self.pto_count as nat
            } else {
                MAX_BACKOFF as nat
            },
        )
    }

    /// When the probe timeout for a packet sent at `sent` expires.
    pub open spec fn spec_pto_deadline(self, sent: Instant, pto_base: Duration) -> Instant {
        Instant { nanos: (sent.nanos + pto_base.nanos * self.backoff()) as u128 }
    }

    /// When the probe timeout for a packet sent at `sent` expires.
    pub fn pto_deadline(&self, sent: Instant, pto_base: Duration) -> (t: Instant)
        requires
            sent.in_range(),
            pto_base.nanos <= 6 * CLOCK_LIMIT,
        ensures
            t == self.spec_pto_deadline(sent, pto_base),
            t.nanos == sent.nanos + pto_base.nanos * self.backoff(),
    {
        let n: u32 = if self.pto_count < MAX_BACKOFF {
            self.pto_count
        } else {
            MAX_BACKOFF
        };
        let mut span: u128 = pto_base.nanos;
        let mut i: u32 = 0;
        assert(two_to(0) == 1);
        assert(pto_base.nanos * 1 == pto_base.nanos);
        while i < n
            invariant
                i <= n <= MAX_BACKOFF,
                pto_base.nanos <= 6 * CLOCK_LIMIT,
                span == pto_base.nanos * two_to(i as nat),
                two_to(i as nat) <= 0x1_0000,
                span <= 6 * CLOCK_LIMIT * 0x1_0000,
                i < n ==> two_to(i as nat) <= 0x8000,
            decreases n - i,
        {
            let ghost p = pto_base.nanos as int;
            let ghost q = two_to(i as nat) as int;
            assert(p * (2 * q) == 2 * (p * q)) by (nonlinear_arith);
            assert(p * q <= 6 * CLOCK_LIMIT * 0x8000) by (nonlinear_arith)
                requires
                    0 <= p <= 6 * CLOCK_LIMIT,
                    0 <= q <= 0x8000,
            ;
            span = 2 * span;
            proof {
                lemma_two_to_bound((i + 1) as nat);
            }
            i = i + 1;
        }
        Instant { nanos: sent.nanos + span }
    }
}

proof fn lemma_two_to_bound(n: nat)
    requires
        n <= 16,
    ensures
        two_to(n) <= 0x1_0000,
        n < 16 ==> two_to(n) <= 0x8000,
{
    reveal_with_fuel(two_to, 17);
}

/// The earlier of a timer and another space's timer, the former if they are equal.
pub open spec fn earlier_of(
    best: Option<(Instant, SpaceIndex)>,
    time: Option<Instant>,
    space: SpaceIndex,
) -> Option<(Instant, SpaceIndex)> {
    match (best, time) {
        (_, None) => best,
        (None, Some(t)) => Some((t, space)),
        (Some((b, s)), Some(t)) => if t.nanos < b.nanos {
            Some((t, space))
        } else {
            best
        },
    }
}

fn pick_earlier(
    best: Option<(Instant, SpaceIndex)>,
    time: Option<Instant>,
    space: SpaceIndex,
) -> (r: Option<(Instant, SpaceIndex)>)
    ensures
        r == earlier_of(best, time, space),
{
    match time {
        None => best,
        Some(t) => match best {
            None => Some((t, space)),
            Some((b, s)) => if t.nanos < b.nanos {
                Some((t, space))
            } else {
                Some((b, s))
            },
        },
    }
}

/// Whether losing packets sent from `oldest` to `newest` means persistent
/// congestion (RFC 9002 Section 7.6): they span more than three probe timeouts.
pub open spec fn spec_is_persistent_congestion(
    oldest: Instant,
    newest: Instant,
    pto_base: Duration,
) -> bool {
    newest.since(oldest).nanos > 3 * pto_base.nanos
}

/// Whether losing packets sent from `oldest` to `newest` means persistent
/// congestion (RFC 9002 Section 7.6).
pub fn is_persistent_congestion(oldest: Instant, newest: Instant, pto_base: Duration) -> (r: bool)
    requires
        pto_base.nanos <= 6 * CLOCK_LIMIT,
    ensures
        r == spec_is_persistent_congestion(oldest, newest, pto_base),
{
    newest.saturating_duration_since(oldest).nanos > 3 * pto_base.nanos
}

/// The smoothed round-trip time stays between the last estimate and the adjusted
/// sample, and the least sample never grows.
pub proof fn law_rtt_smoothing(
    r: RttEstimator,
    sample: Duration,
    ack_delay: Duration,
    max_ack_delay: Duration,
)
    requires
        r.wf(),
        r.sampled,
        sample.nanos <= CLOCK_LIMIT,
    ensures
        ({
            let after = r.updated(sample, ack_delay, max_ack_delay);
            let adjusted = r.adjusted(sample, ack_delay.spec_min(max_ack_delay));
            &&& after.min.nanos <= r.min.nanos
            &&& after.min.nanos <= sample.nanos
            &&& after.min.nanos <= adjusted.nanos <= sample.nanos
            &&& r.smoothed.nanos <= adjusted.nanos ==> r.smoothed.nanos <= after.smoothed.nanos
                <= adjusted.nanos
            &&& r.smoothed.nanos >= adjusted.nanos ==> adjusted.nanos <= after.smoothed.nanos
                <= r.smoothed.nanos
        }),
{
}

/// Each expiry in a row doubles the wait, up to the bound; an acknowledgement puts
/// it back to the base.
pub proof fn law_pto_backoff_doubles(l: LossDetector)
    ensures
        l.pto_count < MAX_BACKOFF ==> l.backed_off().backoff() == 2 * l.backoff(),
        l.pto_count >= MAX_BACKOFF ==> l.backed_off().backoff() == l.backoff(),
        (LossDetector { pto_count: 0, ..l }).backoff() == 1,
{
}

/// The first sample stands for itself: it is the least and the smoothed round-trip time,
/// and half of it is the deviation.
pub proof fn law_first_sample(
    r: RttEstimator,
    sample: Duration,
    ack_delay: Duration,
    max_ack_delay: Duration,
)
    requires
        !r.sampled,
    ensures
        ({
            let after = r.updated(sample, ack_delay, max_ack_delay);
            &&& after.sampled
            &&& after.latest == sample
            &&& after.min == sample
            &&& after.smoothed == sample
            &&& 2 * after.var.nanos <= sample.nanos < 2 * after.var.nanos + 2
        }),
{
}

/// A later sample moves the smoothed round-trip time by an eighth and the deviation by a
/// quarter of the way, rounded down (RFC 9002 Section 5.3). The peer's delay, as far as it
/// may count, is taken off the sample unless less than the least sample would be left.
pub proof fn law_sample_weights(
    r: RttEstimator,
    sample: Duration,
    ack_delay: Duration,
    max_ack_delay: Duration,
)
    requires
        r.wf(),
        r.sampled,
        sample.nanos <= CLOCK_LIMIT,
    ensures
        ({
            let after = r.updated(sample, ack_delay, max_ack_delay);
            let least = if r.min.nanos < sample.nanos {
                r.min.nanos
            } else {
                sample.nanos
            };
            let delay = if ack_delay.nanos < max_ack_delay.nanos {
                ack_delay.nanos
            } else {
                max_ack_delay.nanos
            };
            let counted = if least + delay <= sample.nanos {
                sample.nanos - delay
            } else {
                sample.nanos as int
            };
            let gap = if r.smoothed.nanos >= counted {
                r.smoothed.nanos - counted
            } else {
                counted - r.smoothed.nanos
            };
            &&& after.sampled
            &&& after.latest == sample
            &&& after.min.nanos == least
            &&& 8 * after.smoothed.nanos <= 7 * r.smoothed.nanos + counted < 8
                * after.smoothed.nanos + 8
            &&& 4 * after.var.nanos <= 3 * r.var.nanos + gap < 4 * after.var.nanos + 4
        }),
{
}

/// The probe timeout is the smoothed round-trip time, four times the deviation but a
/// millisecond at least, and the peer's delay; 333 ms and half of it stand in for the
/// estimates before the first sample. Each expiry in a row doubles it, sixteen times at
/// most.
pub proof fn law_probe_timeout(r: RttEstimator, l: LossDetector, delay: Duration, sent: Instant)
    requires
        r.wf(),
        delay.nanos <= MAX_DELAY,
        sent.in_range(),
    ensures
        ({
            let base = r.spec_pto_base(delay);
            &&& !r.sampled ==> base.nanos == 999_000_000 + delay.nanos
            &&& r.sampled && 4 * r.var.nanos >= 1_000_000 ==> base.nanos == r.smoothed.nanos + 4
                * r.var.nanos + delay.nanos
            &&& r.sampled && 4 * r.var.nanos < 1_000_000 ==> base.nanos == r.smoothed.nanos
                + 1_000_000 + delay.nanos
            &&& l.pto_count <= 16 ==> l.spec_pto_deadline(sent, base).nanos == sent.nanos
                + base.nanos * vstd::arithmetic::power2::pow2(l.pto_count as nat)
            &&& l.pto_count > 16 ==> l.spec_pto_deadline(sent, base).nanos == sent.nanos
                + base.nanos * 65536
        }),
{
    let base = r.spec_pto_base(delay);
    lemma_two_to_pow2(l.pto_count as nat);
    lemma_two_to_pow2(16);
    vstd::arithmetic::power2::lemma2_to64();
    if l.pto_count <= 16 {
        lemma_two_to_bound(l.pto_count as nat);
    }
    let b = l.backoff() as int;
    assert(base.nanos * b <= 6 * CLOCK_LIMIT * 0x1_0000) by (nonlinear_arith)
        requires
            0 <= b <= 0x1_0000,
            base.nanos <= 6 * CLOCK_LIMIT,
    ;
    assert(base.nanos * b >= 0) by (nonlinear_arith)
        requires
            0 <= b,
            base.nanos >= 0,
    ;
}

/// Doubling `n` times gives the power of two.
pub proof fn lemma_two_to_pow2(n: nat)
    ensures
        two_to(n) == vstd::arithmetic::power2::pow2(n),
    decreases n,
{
    vstd::arithmetic::power2::lemma2_to64();
    if n > 0 {
        lemma_two_to_pow2((n - 1) as nat);
        vstd::arithmetic::power2::lemma_pow2_unfold(n);
    }
}

/// A packet is given nine eighths of the longer of the latest and the smoothed round-trip
/// time, 333 ms before the first sample, but a millisecond at least (RFC 9002
/// Section 6.1.2).
pub proof fn law_loss_delay(r: RttEstimator)
    requires
        r.wf(),
    ensures
        ({
            let d = r.spec_loss_delay().nanos;
            let rtt = if !r.sampled {
                333_000_000
            } else if r.latest.nanos >= r.smoothed.nanos {
                r.latest.nanos as int
            } else {
                r.smoothed.nanos as int
            };
            &&& d >= 1_000_000
            &&& d > 1_000_000 ==> 8 * d <= 9 * rtt
            &&& 9 * rtt < 8 * d + 8
        }),
{
}

/// Losses make congestion persistent exactly if they span more than three probe timeouts
/// (RFC 9002 Section 7.6.1).
pub proof fn law_persistent_congestion(oldest: Instant, newest: Instant, pto_base: Duration)
    requires
        oldest.in_range(),
        newest.in_range(),
        pto_base.nanos <= 6 * CLOCK_LIMIT,
    ensures
        spec_is_persistent_congestion(oldest, newest, pto_base) <==> newest.nanos - oldest.nanos > 3
            * pto_base.nanos,
{
}

/// The earliest timer is one of the timers, and none is earlier.
pub proof fn law_earliest_is_earliest(l: LossDetector)
    ensures
        l.spec_earliest_loss_time() is None <==> l.initial is None && l.handshake is None
            && l.application is None,
        l.spec_earliest_loss_time() matches Some((t, s)) ==> {
            &&& l.loss_time(s) == Some(t)
            &&& l.initial matches Some(u) ==> t.nanos <= u.nanos
            &&& l.handshake matches Some(u) ==> t.nanos <= u.nanos
            &&& l.application matches Some(u) ==> t.nanos <= u.nanos
        },
{
}

/// Initial and Handshake packets have a space of packet numbers each; 0-RTT and 1-RTT packets
/// share one.
pub proof fn law_packet_number_spaces()
    ensures
        spec_space_index(PacketType::Initial) == SpaceIndex::Initial,
        spec_space_index(PacketType::Handshake) == SpaceIndex::Handshake,
        spec_space_index(PacketType::ZeroRtt) == SpaceIndex::Application,
        spec_space_index(PacketType::Short) == SpaceIndex::Application,
{
}

} // verus!
