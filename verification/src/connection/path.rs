//! The peer's address and its validation (RFC 9000 Section 8.2 and 9).
use crate::types::{same_bytes, SocketAddr};
use vstd::prelude::*;

verus! {

/// The eight bytes of optional path data.
pub open spec fn opt_data(data: Option<[u8; 8]>) -> Option<Seq<u8>> {
    match data {
        Some(d) => Some(d@),
        None => None,
    }
}

/// The peer's address and the state of its validation.
#[verifier::ext_equal]
pub struct PathProbeState {
    /// The address packets are sent to.
    pub peer_addr: SocketAddr,
    /// The address to move to once the challenge is answered.
    pub candidate: Option<SocketAddr>,
    /// The data of the challenge that awaits its response.
    pub challenge: Option<Seq<u8>>,
    /// Whether the challenge is to be sent.
    pub challenge_send: bool,
    /// The data of the response to be sent.
    pub response: Option<Seq<u8>>,
    /// Whether the last challenge was answered.
    pub validated: bool,
}

impl PathProbeState {
    /// A known address, nothing asked.
    pub open spec fn fresh(peer_addr: SocketAddr) -> PathProbeState {
        PathProbeState {
            peer_addr,
            candidate: None,
            challenge: None,
            challenge_send: false,
            response: None,
            validated: false,
        }
    }

    /// After a challenge with `data` was begun.
    pub open spec fn challenged(self, data: Seq<u8>) -> PathProbeState {
        PathProbeState {
            challenge: Some(data),
            challenge_send: true,
            validated: false,
            ..self
        }
    }

    /// After `addr` became the candidate: an earlier challenge no longer counts.
    pub open spec fn with_candidate(self, addr: SocketAddr) -> PathProbeState {
        PathProbeState {
            candidate: Some(addr),
            challenge: None,
            challenge_send: false,
            validated: false,
            ..self
        }
    }

    /// After a PATH_CHALLENGE frame: its data is echoed, whoever sent it.
    pub open spec fn asked(self, data: Seq<u8>) -> PathProbeState {
        PathProbeState { response: Some(data), ..self }
    }

    /// After a PATH_RESPONSE frame: if it answers the challenge the path is valid,
    /// and the candidate becomes the peer's address; else it is ignored.
    pub open spec fn answered(self, data: Seq<u8>) -> PathProbeState {
        if self.challenge == Some(data) {
            PathProbeState {
                validated: true,
                challenge: None,
                candidate: None,
                peer_addr: match self.candidate {
                    Some(addr) => addr,
                    None => self.peer_addr,
                },
                ..self
            }
        } else {
            self
        }
    }
}

/// The peer's address and the state of its validation.
#[derive(Debug)]
pub struct PathProbe {
    peer_addr: SocketAddr,
    candidate: Option<SocketAddr>,
    challenge: Option<[u8; 8]>,
    challenge_send: bool,
    response: Option<[u8; 8]>,
    validated: bool,
}

impl View for PathProbe {
    type V = PathProbeState;

    closed spec fn view(&self) -> PathProbeState {
        PathProbeState {
            peer_addr: self.peer_addr,
            candidate: self.candidate,
            challenge: opt_data(self.challenge),
            challenge_send: self.challenge_send,
            response: opt_data(self.response),
            validated: self.validated,
        }
    }
}

impl PathProbe {
    /// A known address, nothing asked.
    pub fn new(peer_addr: SocketAddr) -> (p: PathProbe)
        ensures
            p@ == PathProbeState::fresh(peer_addr),
    {
        PathProbe {
            peer_addr,
            candidate: None,
            challenge: None,
            challenge_send: false,
            response: None,
            validated: false,
        }
    }

    /// The address packets are sent to.
    pub fn peer_addr(&self) -> (addr: SocketAddr)
        ensures
            addr == self@.peer_addr,
    {
        self.peer_addr
    }

    /// Whether the last challenge was answered.
    pub fn validated(&self) -> (v: bool)
        ensures
            v == self@.validated,
    {
        self.validated
    }

    /// Sends packets to another address from now on.
    pub fn set_peer_addr(&mut self, addr: SocketAddr)
        ensures
            final(self)@ == (PathProbeState { peer_addr: addr, ..old(self)@ }),
    {
        self.peer_addr = addr;
    }

    /// Begins a challenge with `nonce`.
    pub fn challenge(&mut self, nonce: [u8; 8])
        ensures
            final(self)@ == old(self)@.challenged(nonce@),
    {
        self.challenge = Some(nonce);
        self.challenge_send = true;
        self.validated = false;
    }

    /// Makes `addr` the candidate. A new candidate invalidates any previous
    /// challenge state.
    pub fn set_candidate(&mut self, addr: SocketAddr)
        ensures
            final(self)@ == old(self)@.with_candidate(addr),
    {
        self.candidate = Some(addr);
        self.challenge = None;
        self.challenge_send = false;
        self.validated = false;
    }

    /// A PATH_CHALLENGE came in: echo its data in a PATH_RESPONSE, regardless of
    /// the source address (RFC 9000 Section 8.2.2).
    pub fn on_path_challenge(&mut self, data: [u8; 8])
        ensures
            final(self)@ == old(self)@.asked(data@),
    {
        self.response = Some(data);
    }

    /// A PATH_RESPONSE came in: validate it against our outstanding challenge,
    /// promote the candidate address on success (RFC 9000 Section 9.3). A response
    /// that does not match is ignored (RFC 9000 Section 19.18).
    pub fn on_path_response(&mut self, data: [u8; 8])
        ensures
            final(self)@ == old(self)@.answered(data@),
    {
        let matching: bool = match &self.challenge {
            Some(nonce) => same_bytes(nonce.as_slice(), data.as_slice()),
            None => false,
        };
        if matching {
            self.validated = true;
            self.challenge = None;
            match self.candidate {
                Some(addr) => {
                    self.peer_addr = addr;
                    self.candidate = None;
                },
                None => {},
            }
        }
    }

    /// The challenge to be sent, once.
    pub fn take_challenge(&mut self) -> (data: Option<[u8; 8]>)
        ensures
            if old(self)@.challenge_send {
                opt_data(data) == old(self)@.challenge && final(self)@ == (PathProbeState {
                    challenge_send: false,
                    ..old(self)@
                })
            } else {
                data is None && final(self)@ == old(self)@
            },
    {
        if self.challenge_send {
            self.challenge_send = false;
            self.challenge
        } else {
            None
        }
    }

    /// The response to be sent, once.
    pub fn take_response(&mut self) -> (data: Option<[u8; 8]>)
        ensures
            opt_data(data) == old(self)@.response,
            final(self)@ == (PathProbeState { response: None, ..old(self)@ }),
    {
        let data = self.response;
        self.response = None;
        data
    }
}

/// A challenge is answered by the peer's echo of it and by nothing else: the peer
/// that takes in the challenge responds with its data, this response validates the
/// path and moves the connection to the candidate, any other leaves it as it was.
pub proof fn law_challenge_answered_by_echo(
    a: PathProbeState,
    b: PathProbeState,
    nonce: Seq<u8>,
    other: Seq<u8>,
)
    requires
        other != nonce,
    ensures
        b.asked(nonce).response == Some(nonce),
        a.challenged(nonce).answered(nonce).validated,
        a.challenged(nonce).answered(nonce).peer_addr == match a.candidate {
            Some(addr) => addr,
            None => a.peer_addr,
        },
        a.challenged(nonce).answered(other) == a.challenged(nonce),
        !a.challenged(nonce).validated,
{
}

/// A path stays valid until the next challenge or candidate: whatever else comes in
/// does not change that.
pub proof fn law_validated_until_next(p: PathProbeState, data: Seq<u8>, addr: SocketAddr)
    requires
        p.validated,
    ensures
        p.asked(data).validated,
        p.answered(data).validated,
        !p.challenged(data).validated,
        !p.with_candidate(addr).validated,
        p.with_candidate(addr).answered(data) == p.with_candidate(addr),
{
}

/// A new candidate address is under test from then on, and no challenge or validation of before
/// counts for it; packets still go to the address of before. A challenge is to be sent, and
/// what it awaits is its own data.
pub proof fn law_candidate_under_test(p: PathProbeState, addr: SocketAddr, data: Seq<u8>)
    ensures
        ({
            let q = p.with_candidate(addr);
            &&& q.candidate == Some(addr) && q.peer_addr == p.peer_addr
            &&& q.challenge is None && !q.challenge_send && !q.validated
            &&& q.response == p.response
        }),
        ({
            let q = p.challenged(data);
            &&& q.challenge == Some(data) && q.challenge_send && !q.validated
            &&& q.candidate == p.candidate && q.peer_addr == p.peer_addr && q.response == p.response
        }),
        ({
            let q = PathProbeState::fresh(addr);
            &&& q.peer_addr == addr && q.candidate is None && q.challenge is None
            &&& !q.challenge_send && q.response is None && !q.validated
        }),
{
}

} // verus!
