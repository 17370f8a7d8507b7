//! Keys and key updates (RFC 9001 Section 6).
use crate::session::{opened, opt_bytes, ratcheted, ReadKeys};
use crate::time::{Duration, Instant, CLOCK_LIMIT};
use vstd::prelude::*;

verus! {

/// The packet keys of the key phase before the current one.
pub enum PrevKeys {
    /// Those that the handshake gave.
    First,
    /// Those of a later key phase.
    Phase(rustls::quic::PacketKeySet),
}

/// The keys of a connection.
pub struct KeyState {
    /// The keys of Initial packets.
    pub initial: Option<rustls::quic::Keys>,
    /// The keys of Handshake packets.
    pub handshake: Option<rustls::quic::Keys>,
    /// The keys of 0-RTT packets.
    pub zero_rtt: Option<rustls::quic::DirectionalKeys>,
    /// The keys of 1-RTT packets that the handshake gave. Their header keys stay in
    /// use over all key phases.
    pub one_rtt: Option<rustls::quic::Keys>,
    /// The packet keys of the current key phase, once a key update has happened.
    pub phase_keys: Option<rustls::quic::PacketKeySet>,
    /// The packet keys of the next key phase.
    pub next: Option<rustls::quic::PacketKeySet>,
    /// The packet keys of the key phase before, and how long they are kept.
    pub prev: Option<(PrevKeys, Instant)>,
    /// The secrets that the keys of later key phases are derived from.
    pub secrets: Option<rustls::quic::Secrets>,
    /// Whether 1-RTT packets can be sent.
    pub one_rtt_ready: bool,
    /// The current key phase.
    pub key_phase: bool,
    /// Whether a key update is to happen with the next packet sent.
    pub update_pending: bool,
    /// Whether the peer has updated its keys.
    pub update_received: bool,
    /// How many key updates have happened.
    pub update_count: u64,
    /// Before this time no key update may be begun.
    pub cooldown: Option<Instant>,
}

impl KeyState {
    /// Only the keys of Initial packets are known.
    pub open spec fn fresh(initial: rustls::quic::Keys) -> KeyState {
        KeyState {
            initial: Some(initial),
            handshake: None,
            zero_rtt: None,
            one_rtt: None,
            phase_keys: None,
            next: None,
            prev: None,
            secrets: None,
            one_rtt_ready: false,
            key_phase: false,
            update_pending: false,
            update_received: false,
            update_count: 0,
            cooldown: None,
        }
    }

    /// The keys that a packet of the current key phase is read with.
    pub open spec fn current(self) -> Option<ReadKeys> {
        match (self.one_rtt, self.phase_keys) {
            (None, _) => None,
            (Some(keys), None) => Some(ReadKeys::Level(keys)),
            (Some(keys), Some(phase)) => Some(ReadKeys::Phase(phase)),
        }
    }

    /// The keys that a packet of the key phase before is read with at `now`.
    pub open spec fn previous(self, now: Instant) -> Option<ReadKeys> {
        match (self.one_rtt, self.prev) {
            (Some(keys), Some((prev, retire_after))) => if now.nanos <= retire_after.nanos {
                match prev {
                    PrevKeys::First => Some(ReadKeys::Level(keys)),
                    PrevKeys::Phase(phase) => Some(ReadKeys::Phase(phase)),
                }
            } else {
                None
            },
            _ => None,
        }
    }

    /// Whether a key update may be begun at `now`: not within the cooldown, and only
    /// with 1-RTT keys (RFC 9001 Section 6.5).
    pub open spec fn may_update(self, now: Instant) -> bool {
        &&& self.cooldown matches Some(t) ==> now.nanos >= t.nanos
        &&& self.one_rtt_ready
        &&& self.next is Some
    }

    /// After the packet keys moved on one key phase: the next become the current
    /// ones, the current ones are kept until `retire_after`, and those that the
    /// secrets give come next.
    pub open spec fn rotated(self, retire_after: Instant) -> KeyState {
        match self.secrets {
            None => self,
            Some(secrets) => {
                let (derived, later) = ratcheted(secrets);
                match self.next {
                    None => KeyState { secrets: Some(later), ..self },
                    Some(next) => if self.one_rtt is None {
                        KeyState { next: Some(derived), secrets: Some(later), ..self }
                    } else {
                        KeyState {
                            phase_keys: Some(next),
                            prev: Some(
                                (
                                    match self.phase_keys {
                                        Some(phase) => PrevKeys::Phase(phase),
                                        None => PrevKeys::First,
                                    },
                                    retire_after,
                                ),
                            ),
                            next: Some(derived),
                            secrets: Some(later),
                            ..self
                        }
                    },
                }
            },
        }
    }

    /// Whether a packet that comes in at `now` may be read with these keys.
    pub open spec fn reads(self, keys: ReadKeys, now: Instant) -> bool {
        ||| self.initial matches Some(k) && keys == ReadKeys::Level(k)
        ||| self.handshake matches Some(k) && keys == ReadKeys::Level(k)
        ||| self.zero_rtt matches Some(k) && keys == ReadKeys::Directional(k)
        ||| self.current() == Some(keys)
        ||| self.previous(now) == Some(keys)
        ||| self.next matches Some(k) && keys == ReadKeys::Phase(k)
    }

    /// When the keys of before a key update at `now` are dropped, and the next key
    /// update may be begun: three probe timeouts later (RFC 9001 Section 6.5, 6.6).
    pub open spec fn three_pto(now: Instant, pto_base: Duration) -> Instant {
        Instant { nanos: (now.nanos + 3 * pto_base.nanos) as u128 }
    }

    /// After a key update at `now`.
    pub open spec fn updated(self, now: Instant, pto_base: Duration) -> KeyState {
        let after = KeyState::three_pto(now, pto_base);
        KeyState {
            key_phase: !self.key_phase,
            update_count: (self.update_count + 1) as u64,
            cooldown: Some(after),
            ..self.rotated(after)
        }
    }

    /// After a key update that the peer began.
    pub open spec fn updated_by_peer(self, now: Instant, pto_base: Duration) -> KeyState {
        KeyState { update_received: true, ..self.updated(now, pto_base) }
    }

    /// After a key update that was begun here.
    pub open spec fn updated_here(self, now: Instant, pto_base: Duration) -> KeyState {
        KeyState { update_pending: false, ..self.updated(now, pto_base) }
    }

    /// After the keys of 1-RTT packets were installed, with the secrets of later key
    /// phases: the keys of the next key phase are derived at once.
    pub open spec fn with_one_rtt(
        self,
        keys: rustls::quic::Keys,
        secrets: rustls::quic::Secrets,
    ) -> KeyState {
        KeyState {
            one_rtt: Some(keys),
            next: Some(ratcheted(secrets).0),
            secrets: Some(ratcheted(secrets).1),
            one_rtt_ready: true,
            ..self
        }
    }
}

/// The keys of a connection.
pub struct KeyStore {
    initial: Option<rustls::quic::Keys>,
    handshake: Option<rustls::quic::Keys>,
    zero_rtt: Option<rustls::quic::DirectionalKeys>,
    one_rtt: Option<rustls::quic::Keys>,
    phase_keys: Option<rustls::quic::PacketKeySet>,
    next: Option<rustls::quic::PacketKeySet>,
    prev: Option<(PrevKeys, Instant)>,
    secrets: Option<rustls::quic::Secrets>,
    one_rtt_ready: bool,
    key_phase: bool,
    update_pending: bool,
    update_received: bool,
    update_count: u64,
    cooldown: Option<Instant>,
}

impl View for KeyStore {
    type V = KeyState;

    closed spec fn view(&self) -> KeyState {
        KeyState {
            initial: self.initial,
            handshake: self.handshake,
            zero_rtt: self.zero_rtt,
            one_rtt: self.one_rtt,
            phase_keys: self.phase_keys,
            next: self.next,
            prev: self.prev,
            secrets: self.secrets,
            one_rtt_ready: self.one_rtt_ready,
            key_phase: self.key_phase,
            update_pending: self.update_pending,
            update_received: self.update_received,
            update_count: self.update_count,
            cooldown: self.cooldown,
        }
    }
}

/// Borrowed keys that a packet is read with.
pub enum ReadKeysRef<'a> {
    /// The remote half of keys of one encryption level.
    Level(&'a rustls::quic::Keys),
    /// The remote packet key of one key phase.
    Phase(&'a rustls::quic::PacketKeySet),
}

impl<'a> ReadKeysRef<'a> {
    /// The keys.
    pub open spec fn keys(self) -> ReadKeys {
        match self {
            ReadKeysRef::Level(k) => ReadKeys::Level(*k),
            ReadKeysRef::Phase(k) => ReadKeys::Phase(*k),
        }
    }

    /// Takes packet protection off with these keys.
    pub fn open(self, pn: u64, header: &[u8], payload: &[u8]) -> (r: Option<Vec<u8>>)
        ensures
            opt_bytes(r) == opened(self.keys(), pn, header@, payload@),
    {
        match self {
            ReadKeysRef::Level(k) => crate::session::open(k, pn, header, payload),
            ReadKeysRef::Phase(k) => crate::session::open_phase(k, pn, header, payload),
        }
    }
}

/// Borrowed keys, if there are any.
pub open spec fn opt_read_keys(keys: Option<ReadKeysRef<'_>>) -> Option<ReadKeys> {
    match keys {
        Some(k) => Some(k.keys()),
        None => None,
    }
}

/// A borrowed value, if there is one.
pub open spec fn opt_deref<T>(value: Option<&T>) -> Option<T> {
    match value {
        Some(v) => Some(*v),
        None => None,
    }
}

impl KeyStore {
    /// The keys of Initial packets.
    pub fn initial(&self) -> (keys: Option<&rustls::quic::Keys>)
        ensures
            opt_deref(keys) == self@.initial,
    {
        self.initial.as_ref()
    }

    /// The keys of Handshake packets.
    pub fn handshake(&self) -> (keys: Option<&rustls::quic::Keys>)
        ensures
            opt_deref(keys) == self@.handshake,
    {
        self.handshake.as_ref()
    }

    /// The keys of 0-RTT packets.
    pub fn zero_rtt(&self) -> (keys: Option<&rustls::quic::DirectionalKeys>)
        ensures
            opt_deref(keys) == self@.zero_rtt,
    {
        self.zero_rtt.as_ref()
    }

    /// The keys of 1-RTT packets that the handshake gave.
    pub fn one_rtt(&self) -> (keys: Option<&rustls::quic::Keys>)
        ensures
            opt_deref(keys) == self@.one_rtt,
    {
        self.one_rtt.as_ref()
    }

    /// The keys that a packet of the current key phase is read with.
    pub fn current(&self) -> (keys: Option<ReadKeysRef<'_>>)
        ensures
            opt_read_keys(keys) == self@.current(),
    {
        match (&self.one_rtt, &self.phase_keys) {
            (None, _) => None,
            (Some(keys), None) => Some(ReadKeysRef::Level(keys)),
            (Some(_), Some(phase)) => Some(ReadKeysRef::Phase(phase)),
        }
    }

    /// The keys that a packet of the key phase before is read with at `now`.
    pub fn previous(&self, now: Instant) -> (keys: Option<ReadKeysRef<'_>>)
        ensures
            opt_read_keys(keys) == self@.previous(now),
    {
        match (&self.one_rtt, &self.prev) {
            (Some(keys), Some((prev, retire_after))) => {
                if now.nanos <= retire_after.nanos {
                    match prev {
                        PrevKeys::First => Some(ReadKeysRef::Level(keys)),
                        PrevKeys::Phase(phase) => Some(ReadKeysRef::Phase(phase)),
                    }
                } else {
                    None
                }
            },
            _ => None,
        }
    }

    /// The keys of the next key phase.
    pub fn next(&self) -> (keys: Option<ReadKeysRef<'_>>)
        ensures
            match self@.next {
                Some(k) => opt_read_keys(keys) == Some(ReadKeys::Phase(k)),
                None => keys is None,
            },
    {
        match &self.next {
            Some(k) => Some(ReadKeysRef::Phase(k)),
            None => None,
        }
    }

    /// The current key phase.
    pub fn key_phase(&self) -> (phase: bool)
        ensures
            phase == self@.key_phase,
    {
        self.key_phase
    }

    /// Replaces the keys of Initial packets.
    pub fn set_initial(&mut self, keys: rustls::quic::Keys)
        ensures
            final(self)@ == (KeyState { initial: Some(keys), ..old(self)@ }),
    {
        self.initial = Some(keys);
    }

    /// Installs the keys of Handshake packets.
    pub fn set_handshake(&mut self, keys: rustls::quic::Keys)
        ensures
            final(self)@ == (KeyState { handshake: Some(keys), ..old(self)@ }),
    {
        self.handshake = Some(keys);
    }

    /// Installs the keys of 0-RTT packets.
    pub fn set_zero_rtt(&mut self, keys: Option<rustls::quic::DirectionalKeys>)
        ensures
            final(self)@ == (KeyState { zero_rtt: keys, ..old(self)@ }),
    {
        self.zero_rtt = keys;
    }

    /// Installs the keys of 1-RTT packets and the secrets of later key phases, and
    /// derives the keys of the next one.
    pub fn set_one_rtt(&mut self, keys: rustls::quic::Keys, secrets: rustls::quic::Secrets)
        ensures
            final(self)@ == old(self)@.with_one_rtt(keys, secrets),
    {
        let mut secrets = secrets;
        self.one_rtt = Some(keys);
        self.next = Some(secrets.next_packet_keys());
        self.secrets = Some(secrets);
        self.one_rtt_ready = true;
    }

    /// Only the keys of Initial packets are known.
    pub fn new(initial: rustls::quic::Keys) -> (k: KeyStore)
        ensures
            k@ == KeyState::fresh(initial),
    {
        KeyStore {
            initial: Some(initial),
            handshake: None,
            zero_rtt: None,
            one_rtt: None,
            phase_keys: None,
            next: None,
            prev: None,
            secrets: None,
            one_rtt_ready: false,
            key_phase: false,
            update_pending: false,
            update_received: false,
            update_count: 0,
            cooldown: None,
        }
    }

    /// Initiate a key update on the next outgoing 1-RTT packet, unless the cooldown
    /// has not elapsed or there are no 1-RTT keys yet.
    pub fn initiate_update(&mut self, now: Instant) -> (scheduled: bool)
        ensures
            scheduled == old(self)@.may_update(now),
            final(self)@ == if scheduled {
                KeyState { update_pending: true, ..old(self)@ }
            } else {
                old(self)@
            },
    {
        match self.cooldown {
            Some(cooldown) => {
                if now.nanos < cooldown.nanos {
                    return false;
                }
            },
            None => {},
        }
        if !self.one_rtt_ready || self.next.is_none() {
            return false;  // no 1-RTT keys yet
        }
        self.update_pending = true;
        true
    }

    /// Whether 1-RTT packets can be sent.
    pub fn one_rtt_ready(&self) -> (ready: bool)
        ensures
            ready == self@.one_rtt_ready,
    {
        self.one_rtt_ready
    }

    /// How many key updates have happened.
    pub fn update_count(&self) -> (n: u64)
        ensures
            n == self@.update_count,
    {
        self.update_count
    }

    /// Notes that the peer has updated its keys.
    pub fn note_peer_update(&mut self)
        ensures
            final(self)@ == (KeyState { update_received: true, ..old(self)@ }),
    {
        self.update_received = true;
    }

    /// Notes that the scheduled key update has happened.
    pub fn clear_pending(&mut self)
        ensures
            final(self)@ == (KeyState { update_pending: false, ..old(self)@ }),
    {
        self.update_pending = false;
    }

    /// Moves the packet keys on one key phase at `now`, flips the key phase, and
    /// starts the cooldown of three probe timeouts.
    pub fn update(&mut self, now: Instant, pto_base: Duration)
        requires
            now.in_range(),
            pto_base.nanos <= 6 * CLOCK_LIMIT,
            old(self)@.update_count < u64::MAX,
        ensures
            final(self)@ == old(self)@.updated(now, pto_base),
    {
        // Retirement deadline: 3 PTO (RFC 9001 Section 6.6).
        let three = Duration { nanos: 3 * pto_base.nanos };
        let retire_after = now.plus(three);
        let mut taken: Option<rustls::quic::Secrets> = None;
        std::mem::swap(&mut taken, &mut self.secrets);
        match taken {
            Some(mut secrets) => {
                // Advance the secrets ratchet to derive the generation after next.
                let new_next = secrets.next_packet_keys();
                self.secrets = Some(secrets);
                let mut next: Option<rustls::quic::PacketKeySet> = None;
                std::mem::swap(&mut next, &mut self.next);
                match next {
                    Some(next_epoch) => {
                        if self.one_rtt.is_some() {
                            let mut current: Option<rustls::quic::PacketKeySet> = Some(next_epoch);
                            std::mem::swap(&mut current, &mut self.phase_keys);
                            let old_keys = match current {
                                Some(phase) => PrevKeys::Phase(phase),
                                None => PrevKeys::First,
                            };
                            self.prev = Some((old_keys, retire_after));
                        }
                        self.next = Some(new_next);
                    },
                    None => {},
                }
            },
            None => {},
        }
        self.key_phase = !self.key_phase;
        self.update_count = self.update_count + 1;
        self.cooldown = Some(retire_after);
    }
}

/// A key update moves every generation on by one: what was next is current, what was
/// current is the previous one until three probe timeouts have passed, and what the
/// secrets give is next.
pub proof fn law_key_update_rotates(k: KeyState, now: Instant, pto_base: Duration)
    requires
        k.secrets is Some,
        k.next is Some,
        k.one_rtt is Some,
        now.in_range(),
        pto_base.nanos <= 6 * CLOCK_LIMIT,
    ensures
        ({
            let after = k.updated(now, pto_base);
            &&& after.current() == Some(ReadKeys::Phase(k.next->Some_0))
            &&& after.previous(now) == k.current()
            &&& after.next == Some(ratcheted(k.secrets->Some_0).0)
            &&& after.key_phase != k.key_phase
            &&& after.one_rtt == k.one_rtt
            &&& forall|later: Instant|
                later.nanos > now.nanos + 3 * pto_base.nanos ==> #[trigger] after.previous(
                    later,
                ) is None
        }),
{
}

/// Key updates are spaced: after one, none may be begun before three probe timeouts
/// have passed, and then one may.
pub proof fn law_key_update_cooldown(k: KeyState, now: Instant, later: Instant, pto_base: Duration)
    requires
        k.may_update(now),
        now.in_range(),
        pto_base.nanos <= 6 * CLOCK_LIMIT,
    ensures
        k.updated_here(now, pto_base).may_update(later) <==> later.nanos >= now.nanos + 3
            * pto_base.nanos,
        k.updated_by_peer(now, pto_base).may_update(later) <==> later.nanos >= now.nanos + 3
            * pto_base.nanos,
{
}

/// Both ends stay in step: two connections whose keys come from the same secrets go
/// through the same key phases, however often they update.
pub proof fn law_key_phases_agree(
    a: KeyState,
    b: KeyState,
    now: Instant,
    then: Instant,
    pto_a: Duration,
    pto_b: Duration,
)
    requires
        a.secrets is Some,
        a.secrets == b.secrets,
        a.next is Some,
        a.next == b.next,
        a.one_rtt is Some,
        b.one_rtt is Some,
        a.key_phase == b.key_phase,
    ensures
        ({
            let x = a.updated(now, pto_a);
            let y = b.updated(then, pto_b);
            x.phase_keys == y.phase_keys && x.next == y.next && x.secrets == y.secrets
                && x.key_phase == y.key_phase && x.phase_keys is Some
        }),
{
}

/// A key update may be begun with 1-RTT keys at hand, those of the next phase among them, and
/// not before the cooldown is over; nothing else stands in its way.
pub proof fn law_update_allowed(k: KeyState, now: Instant)
    ensures
        !k.one_rtt_ready || k.next is None ==> !k.may_update(now),
        k.one_rtt_ready && k.next is Some && k.cooldown is None ==> k.may_update(now),
        k.one_rtt_ready && k.next is Some ==> (k.cooldown matches Some(t) ==> (k.may_update(now)
            <==> t.nanos <= now.nanos)),
{
}

/// Which keys read a packet: those of the phase at hand, which are the ones of the handshake
/// until the first update, and as long as they are kept, to the very last moment, those of
/// the phase before.
pub proof fn law_reading_keys(k: KeyState, now: Instant)
    ensures
        k.one_rtt is None ==> k.current() is None && k.previous(now) is None,
        k.one_rtt matches Some(keys) ==> {
            &&& k.phase_keys is None ==> k.current() == Some(ReadKeys::Level(keys))
            &&& k.phase_keys matches Some(phase) ==> k.current() == Some(ReadKeys::Phase(phase))
            &&& k.prev is None ==> k.previous(now) is None
            &&& k.prev matches Some((prev, until)) ==> {
                &&& now.nanos > until.nanos ==> k.previous(now) is None
                &&& now.nanos <= until.nanos ==> k.previous(now) == Some(
                    match prev {
                        PrevKeys::First => ReadKeys::Level(keys),
                        PrevKeys::Phase(phase) => ReadKeys::Phase(phase),
                    },
                )
            }
        },
{
}

/// What a key update changes, field by field: the phase turns over, one more is counted, the
/// keys move on by one phase, and the keys that are replaced, and the wait for the next
/// update, last for three probe timeouts. The peer's update is noted as such; one begun here
/// is no longer pending.
pub proof fn law_key_update_fields(k: KeyState, now: Instant, pto_base: Duration)
    requires
        k.secrets is Some,
        k.next is Some,
        k.one_rtt is Some,
        now.in_range(),
        pto_base.nanos <= 6 * CLOCK_LIMIT,
        k.update_count < u64::MAX,
    ensures
        ({
            let a = k.updated_by_peer(now, pto_base);
            let b = k.updated_here(now, pto_base);
            &&& a.key_phase == !k.key_phase
            &&& a.update_count == k.update_count + 1
            &&& a.cooldown matches Some(t) && t.nanos == now.nanos + 3 * pto_base.nanos
            &&& a.phase_keys == k.next
            &&& a.prev matches Some((prev, t)) && t.nanos == now.nanos + 3 * pto_base.nanos && (
            k.phase_keys is None ==> prev == PrevKeys::First) && (k.phase_keys matches Some(phase)
                ==> prev == PrevKeys::Phase(phase))
            &&& a.secrets == Some(ratcheted(k.secrets->Some_0).1)
            &&& a.next == Some(ratcheted(k.secrets->Some_0).0)
            &&& a.update_received && a.update_pending == k.update_pending
            &&& !b.update_pending && b.update_received == k.update_received
            &&& b == (KeyState {
                update_pending: false,
                update_received: k.update_received,
                ..a
            })
            &&& a.initial == k.initial && a.handshake == k.handshake && a.zero_rtt == k.zero_rtt
                && a.one_rtt == k.one_rtt && a.one_rtt_ready == k.one_rtt_ready
        }),
{
}

} // verus!
