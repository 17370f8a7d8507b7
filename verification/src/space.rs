//! Packet number spaces (RFC 9000 Section 12.3).
use crate::coding::VARINT_LIMIT;
use vstd::prelude::*;

verus! {

/// What a packet number space has seen.
#[verifier::ext_equal]
pub struct SpaceState {
    /// The largest packet number received.
    pub largest_received: Option<u64>,
    /// Packet numbers received and not acknowledged yet, in order of arrival.
    pub to_ack: Seq<u64>,
    /// Whether an acknowledgement is owed.
    pub ack_owed: bool,
    /// The largest packet number the peer has acknowledged.
    pub largest_acked: Option<u64>,
}

/// The larger of a number and one that may be missing.
pub open spec fn max_with(a: Option<u64>, b: u64) -> Option<u64> {
    match a {
        Some(x) => if x > b {
            Some(x)
        } else {
            Some(b)
        },
        None => Some(b),
    }
}

impl SpaceState {
    /// Nothing seen.
    pub open spec fn fresh() -> SpaceState {
        SpaceState {
            largest_received: None,
            to_ack: Seq::empty(),
            ack_owed: false,
            largest_acked: None,
        }
    }

    /// Packet numbers are in range.
    pub open spec fn wf(self) -> bool {
        self.largest_received matches Some(pn) ==> pn < VARINT_LIMIT
    }

    /// After packet `pn` was received.
    pub open spec fn received(self, pn: u64, ack_eliciting: bool) -> SpaceState {
        SpaceState {
            largest_received: max_with(self.largest_received, pn),
            to_ack: self.to_ack.push(pn),
            ack_owed: self.ack_owed || ack_eliciting,
            ..self
        }
    }

    /// After the peer acknowledged packets up to `largest`.
    pub open spec fn acked(self, largest: u64) -> SpaceState {
        SpaceState { largest_acked: max_with(self.largest_acked, largest), ..self }
    }
}

/// A packet number space.
#[derive(Debug)]
pub struct PacketSpace {
    largest_received: Option<u64>,
    to_ack: Vec<u64>,
    ack_owed: bool,
    largest_acked: Option<u64>,
}

impl View for PacketSpace {
    type V = SpaceState;

    closed spec fn view(&self) -> SpaceState {
        SpaceState {
            largest_received: self.largest_received,
            to_ack: self.to_ack@,
            ack_owed: self.ack_owed,
            largest_acked: self.largest_acked,
        }
    }
}

impl PacketSpace {
    /// Nothing seen.
    pub fn new() -> (s: PacketSpace)
        ensures
            s@ == SpaceState::fresh(),
    {
        PacketSpace {
            largest_received: None,
            to_ack: Vec::new(),
            ack_owed: false,
            largest_acked: None,
        }
    }

    /// The largest packet number received.
    pub fn largest_received(&self) -> (pn: Option<u64>)
        ensures
            pn == self@.largest_received,
    {
        self.largest_received
    }

    /// The largest packet number the peer has acknowledged.
    pub fn largest_acked(&self) -> (pn: Option<u64>)
        ensures
            pn == self@.largest_acked,
    {
        self.largest_acked
    }

    /// Whether an acknowledgement is owed.
    pub fn ack_owed(&self) -> (owed: bool)
        ensures
            owed == self@.ack_owed,
    {
        self.ack_owed
    }

    /// Counts packet `pn` in.
    pub fn on_packet_received(&mut self, pn: u64, ack_eliciting: bool)
        ensures
            final(self)@ == old(self)@.received(pn, ack_eliciting),
    {
        self.largest_received =
        Some(
            match self.largest_received {
                Some(x) => if x > pn {
                    x
                } else {
                    pn
                },
                None => pn,
            },
        );
        self.to_ack.push(pn);
        self.ack_owed = self.ack_owed || ack_eliciting;
    }

    /// The peer acknowledged packets up to `largest`.
    pub fn on_ack_received(&mut self, largest: u64)
        ensures
            final(self)@ == old(self)@.acked(largest),
    {
        self.largest_acked =
        Some(
            match self.largest_acked {
                Some(x) => if x > largest {
                    x
                } else {
                    largest
                },
                None => largest,
            },
        );
    }

    /// The packet numbers to acknowledge, which count as acknowledged from now on.
    pub fn take_to_ack(&mut self) -> (numbers: Vec<u64>)
        ensures
            numbers@ == old(self)@.to_ack,
            final(self)@ == (SpaceState { to_ack: Seq::empty(), ack_owed: false, ..old(self)@ }),
    {
        let mut numbers: Vec<u64> = Vec::new();
        std::mem::swap(&mut numbers, &mut self.to_ack);
        self.ack_owed = false;
        numbers
    }
}

/// A packet received is to be acknowledged after those that are already, its number is the
/// largest received if no larger one was, and an acknowledgement is owed once any packet
/// asked for one. An acknowledgement received changes only the largest acknowledged.
pub proof fn law_space_counts(s: SpaceState, pn: u64, ack_eliciting: bool)
    ensures
        ({
            let t = s.received(pn, ack_eliciting);
            &&& t.to_ack == s.to_ack.push(pn)
            &&& t.ack_owed <==> s.ack_owed || ack_eliciting
            &&& t.largest_received matches Some(l) && l >= pn && (l == pn || s.largest_received
                == Some(l)) && (s.largest_received matches Some(m) ==> l >= m)
            &&& t.largest_acked == s.largest_acked
        }),
        ({
            let t = s.acked(pn);
            &&& t.largest_acked matches Some(l) && l >= pn && (l == pn || s.largest_acked == Some(
                l,
            )) && (s.largest_acked matches Some(m) ==> l >= m)
            &&& t.to_ack == s.to_ack && t.ack_owed == s.ack_owed && t.largest_received
                == s.largest_received
        }),
        SpaceState::fresh().largest_received is None,
        SpaceState::fresh().to_ack.len() == 0,
        !SpaceState::fresh().ack_owed,
{
}

} // verus!
