//! Connection identifiers: those issued to the peer and those the peer issued
//! (RFC 9000 Section 5.1).
use crate::error::{frame_violation, ErrorView, FrameType, OxiQuicError, TransportErrorCode};
use crate::filtered::lemma_filter_members;
use crate::types::{copy_bytes, same_bytes, ConnectionId};
use std::collections::VecDeque;
use vstd::prelude::*;
use vstd::string::StringExecFns;

verus! {

/// The length in bytes of connection identifiers issued here.
pub const LOCAL_CID_LEN: usize = 8;

/// A change to the routing of datagrams by connection identifier.
#[derive(Debug)]
pub enum CidEvent {
    /// Datagrams with this identifier now belong to the connection.
    Register(ConnectionId),
    /// Datagrams with this identifier no longer belong to the connection.
    Unregister(ConnectionId),
    /// The identifier of the client's first packets is no longer used.
    InitialRetired(Vec<u8>),
}

/// A change to the routing of datagrams, with the identifier as a sequence.
#[verifier::ext_equal]
pub enum CidEventView {
    /// See [`CidEvent::Register`].
    Register(Seq<u8>),
    /// See [`CidEvent::Unregister`].
    Unregister(Seq<u8>),
    /// See [`CidEvent::InitialRetired`].
    InitialRetired(Seq<u8>),
}

impl View for CidEvent {
    type V = CidEventView;

    open spec fn view(&self) -> CidEventView {
        match *self {
            CidEvent::Register(cid) => CidEventView::Register(cid@),
            CidEvent::Unregister(cid) => CidEventView::Unregister(cid@),
            CidEvent::InitialRetired(dcid) => CidEventView::InitialRetired(dcid@),
        }
    }
}

/// A connection identifier with its sequence number and stateless reset token.
#[derive(Debug)]
pub struct IssuedCid {
    /// The sequence number.
    pub seq: u64,
    /// The identifier.
    pub cid: ConnectionId,
    /// What a stateless reset of this identifier ends with.
    pub stateless_reset_token: [u8; 16],
}

/// A connection identifier, with its bytes as sequences.
#[verifier::ext_equal]
pub struct CidView {
    /// See [`IssuedCid::seq`].
    pub seq: u64,
    /// See [`IssuedCid::cid`].
    pub cid: Seq<u8>,
    /// See [`IssuedCid::stateless_reset_token`].
    pub token: Seq<u8>,
}

impl View for IssuedCid {
    type V = CidView;

    open spec fn view(&self) -> CidView {
        CidView { seq: self.seq, cid: self.cid@, token: self.stateless_reset_token@ }
    }
}

/// What the identifiers are.
pub open spec fn cid_views(cids: Seq<IssuedCid>) -> Seq<CidView> {
    cids.map_values(|c: IssuedCid| c@)
}

/// The identifiers issued to the peer.
#[verifier::ext_equal]
pub struct LocalCids {
    /// The identifiers the peer may use.
    pub active: Seq<CidView>,
    /// Identifiers to be sent to the peer.
    pub pending_new: Seq<CidView>,
    /// The sequence number of the next identifier.
    pub next_seq: u64,
    /// How many identifiers the peer keeps.
    pub limit: u64,
}

/// The index of the first identifier with sequence number `seq`, the number of
/// identifiers if there is none.
pub open spec fn index_of_seq(cids: Seq<CidView>, seq: u64) -> int
    decreases cids.len(),
{
    if cids.len() == 0 || cids[0].seq == seq {
        0
    } else {
        1 + index_of_seq(cids.drop_first(), seq)
    }
}

proof fn lemma_index_of_seq(cids: Seq<CidView>, seq: u64, i: int)
    requires
        0 <= i <= cids.len(),
        forall|j: int| 0 <= j < i ==> (#[trigger] cids[j]).seq != seq,
        i < cids.len() ==> cids[i].seq == seq,
    ensures
        index_of_seq(cids, seq) == i,
    decreases cids.len(),
{
    if cids.len() > 0 && cids[0].seq != seq {
        assert forall|j: int| 0 <= j < i - 1 implies (#[trigger] cids.drop_first()[j]).seq
            != seq by {
            assert(cids.drop_first()[j] == cids[j + 1]);
        }
        lemma_index_of_seq(cids.drop_first(), seq, i - 1);
    }
}

/// Finds the first identifier with sequence number `seq`.
fn position_of_seq(cids: &Vec<IssuedCid>, seq: u64) -> (i: usize)
    ensures
        i == index_of_seq(cid_views(cids@), seq),
        i <= cids@.len(),
        i < cids@.len() ==> cids@[i as int].seq == seq,
{
    let mut i: usize = 0;
    while i < cids.len() && cids[i].seq != seq
        invariant
            i <= cids@.len(),
            forall|j: int| 0 <= j < i ==> (#[trigger] cid_views(cids@)[j]).seq != seq,
        decreases cids@.len() - i,
    {
        i = i + 1;
    }
    proof {
        lemma_index_of_seq(cid_views(cids@), seq, i as int);
    }
    i
}

impl LocalCids {
    /// The identifier with sequence number 0 is known from the handshake.
    pub open spec fn fresh(cid: Seq<u8>, limit: u64) -> LocalCids {
        LocalCids {
            active: seq![CidView { seq: 0, cid, token: Seq::new(16, |i: int| 0u8) }],
            pending_new: Seq::empty(),
            next_seq: 1,
            limit,
        }
    }

    /// The identifier that the peer gives up by retiring `seq`.
    pub open spec fn retired(self, seq: u64) -> Option<Seq<u8>> {
        let i = index_of_seq(self.active, seq);
        if 0 <= i < self.active.len() {
            Some(self.active[i].cid)
        } else {
            None
        }
    }

    /// After the peer retired `seq`.
    pub open spec fn after_retirement(self, seq: u64) -> LocalCids {
        let i = index_of_seq(self.active, seq);
        if 0 <= i < self.active.len() {
            LocalCids { active: self.active.remove(i), ..self }
        } else {
            self
        }
    }

    /// Whether the peer has room for one more identifier.
    pub open spec fn has_room(self) -> bool {
        self.active.len() < self.limit && self.next_seq < u64::MAX
    }

    /// The identifier made of fresh random bytes: eight of the identifier, sixteen
    /// of its token.
    pub open spec fn next_cid(self, random: Seq<u8>) -> CidView {
        CidView { seq: self.next_seq, cid: random.take(8), token: random.skip(8) }
    }

    /// After an identifier was made of random bytes.
    pub open spec fn with_issued(self, random: Seq<u8>) -> LocalCids {
        let cid = self.next_cid(random);
        LocalCids {
            active: self.active.push(cid),
            pending_new: self.pending_new.push(cid),
            next_seq: (self.next_seq + 1) as u64,
            ..self
        }
    }
}

/// The identifiers issued to the peer.
#[derive(Debug)]
pub struct LocalCidPool {
    active: Vec<IssuedCid>,
    pending_new: VecDeque<IssuedCid>,
    next_seq: u64,
    limit: u64,
}

impl View for LocalCidPool {
    type V = LocalCids;

    closed spec fn view(&self) -> LocalCids {
        LocalCids {
            active: cid_views(self.active@),
            pending_new: cid_views(self.pending_new@),
            next_seq: self.next_seq,
            limit: self.limit,
        }
    }
}

/// Copies an identifier.
fn copy_cid(c: &IssuedCid) -> (d: IssuedCid)
    ensures
        d@ == c@,
{
    IssuedCid {
        seq: c.seq,
        cid: c.cid.clone(),
        stateless_reset_token: c.stateless_reset_token,
    }
}

/// The sixteen bytes of a stateless reset token, after the eight of the identifier
/// that they were drawn with.
fn token_at(bytes: &[u8]) -> (token: [u8; 16])
    requires
        bytes@.len() == 24,
    ensures
        token@ == bytes@.skip(8),
{
    let (_, back) = bytes.split_at(8);
    crate::frame::array16(back)
}

impl LocalCidPool {
    /// The peer knows `cid` from the handshake and keeps up to `limit` identifiers.
    pub fn new(cid: ConnectionId, limit: u64) -> (pool: LocalCidPool)
        ensures
            pool@ == LocalCids::fresh(cid@, limit),
    {
        let mut active: Vec<IssuedCid> = Vec::new();
        let token = [0u8;16];
        assert(token@ =~= Seq::new(16, |i: int| 0u8));
        active.push(IssuedCid { seq: 0, cid, stateless_reset_token: token });
        let pool = LocalCidPool { active, pending_new: VecDeque::new(), next_seq: 1, limit };
        assert(pool@.active =~= LocalCids::fresh(cid@, limit).active);
        assert(pool@.pending_new =~= Seq::empty());
        pool
    }

    /// The peer keeps up to `limit` identifiers.
    pub fn set_limit(&mut self, limit: u64)
        ensures
            final(self)@ == (LocalCids { limit, ..old(self)@ }),
    {
        self.limit = limit;
    }

    /// The peer no longer uses the identifier with sequence number `seq`: gives it,
    /// if it is known.
    pub fn handle_peer_retirement(&mut self, seq: u64) -> (cid: Option<ConnectionId>)
        ensures
            match cid {
                Some(c) => old(self)@.retired(seq) == Some(c@),
                None => old(self)@.retired(seq) is None,
            },
            final(self)@ == old(self)@.after_retirement(seq),
    {
        let i: usize = position_of_seq(&self.active, seq);
        if i < self.active.len() {
            let ghost before = self.active@;
            let c = self.active.remove(i);
            assert(self@.active =~= old(self)@.active.remove(i as int));
            assert(old(self)@.active[i as int] == before[i as int]@);
            Some(c.cid)
        } else {
            None
        }
    }

    /// Queues an identifier to be sent to the peer (again).
    pub fn requeue(&mut self, cid: IssuedCid)
        ensures
            final(self)@ == (LocalCids {
                pending_new: old(self)@.pending_new.push(cid@),
                ..old(self)@
            }),
    {
        self.pending_new.push_back(cid);
        assert(self@.pending_new =~= old(self)@.pending_new.push(cid@));
    }

    /// The identifier to be sent to the peer next.
    pub fn take_pending_new(&mut self) -> (cid: Option<IssuedCid>)
        ensures
            match cid {
                Some(c) => old(self)@.pending_new.len() > 0 && c@ == old(self)@.pending_new[0]
                    && final(self)@ == (LocalCids {
                    pending_new: old(self)@.pending_new.drop_first(),
                    ..old(self)@
                }),
                None => old(self)@.pending_new.len() == 0 && final(self)@ == old(self)@,
            },
    {
        let cid = self.pending_new.pop_front();
        assert(old(self)@.pending_new.len() > 0 ==> self@.pending_new
            =~= old(self)@.pending_new.drop_first());
        cid
    }

    /// Whether the peer has room for one more identifier.
    pub fn has_room(&self) -> (room: bool)
        ensures
            room == self@.has_room(),
    {
        (self.active.len() as u64) < self.limit && self.next_seq < u64::MAX
    }

    /// Issues an identifier made of 24 fresh random bytes, and gives it.
    pub fn issue(&mut self, random: &[u8]) -> (cid: ConnectionId)
        requires
            old(self)@.has_room(),
            random@.len() == 24,
        ensures
            cid@ == random@.take(8),
            final(self)@ == old(self)@.with_issued(random@),
    {
        let (front, _) = random.split_at(8);
        let cid = IssuedCid {
            seq: self.next_seq,
            cid: ConnectionId::new(copy_bytes(front)),
            stateless_reset_token: token_at(random),
        };
        let ghost c = cid@;
        assert(c =~= old(self)@.next_cid(random@));
        let copy = copy_cid(&cid);
        let out = cid.cid.clone();
        self.active.push(cid);
        self.pending_new.push_back(copy);
        self.next_seq = self.next_seq + 1;
        assert(self@.active =~= old(self)@.active.push(c));
        assert(self@.pending_new =~= old(self)@.pending_new.push(c));
        out
    }
}

/// The identifiers the peer issued.
#[verifier::ext_equal]
pub struct PeerCids {
    /// The identifiers that may be used.
    pub active: Seq<CidView>,
    /// Sequence numbers to be retired.
    pub pending_retire: Seq<u64>,
    /// Identifiers with a lower sequence number are retired.
    pub retire_prior_to: u64,
    /// How many identifiers are kept.
    pub limit: u64,
}

impl PeerCids {
    /// Nothing issued.
    pub open spec fn fresh(limit: u64) -> PeerCids {
        PeerCids {
            active: Seq::empty(),
            pending_retire: Seq::empty(),
            retire_prior_to: 0,
            limit,
        }
    }

    /// Whether a different identifier is known under the same sequence number.
    pub open spec fn conflicts(self, new: CidView) -> bool {
        let i = index_of_seq(self.active, new.seq);
        0 <= i < self.active.len() && self.active[i] != new
    }

    /// Whether the identifier is known.
    pub open spec fn knows(self, new: CidView) -> bool {
        let i = index_of_seq(self.active, new.seq);
        0 <= i < self.active.len() && self.active[i] == new
    }

    /// After all identifiers below `threshold` were retired.
    pub open spec fn retired_below(self, threshold: u64) -> PeerCids {
        PeerCids {
            active: self.active.filter(|c: CidView| c.seq >= threshold),
            pending_retire: self.pending_retire + self.active.filter(
                |c: CidView| c.seq < threshold,
            ).map_values(|c: CidView| c.seq),
            retire_prior_to: threshold,
            ..self
        }
    }

    /// The state once the threshold of a NEW_CONNECTION_ID frame has taken effect.
    pub open spec fn with_threshold(self, threshold: u64) -> PeerCids {
        if threshold > self.retire_prior_to {
            self.retired_below(threshold)
        } else {
            self
        }
    }

    /// After a NEW_CONNECTION_ID frame whose identifier is neither known nor in
    /// conflict: the threshold takes effect, then the identifier is kept, or
    /// retired at once if it lies below the threshold.
    pub open spec fn with_new(self, new: CidView, threshold: u64) -> PeerCids {
        let after = self.with_threshold(threshold);
        if new.seq < after.retire_prior_to {
            PeerCids { pending_retire: after.pending_retire.push(new.seq), ..after }
        } else {
            PeerCids { active: after.active.push(new), ..after }
        }
    }

    /// What a NEW_CONNECTION_ID frame leads to.
    pub open spec fn received(self, new: CidView, threshold: u64) -> (
        PeerCids,
        Result<(), ErrorView>,
    ) {
        if self.conflicts(new) {
            (
                self,
                Err(
                    ErrorView::TransportError(
                        TransportErrorCode::ProtocolViolation,
                        Some(FrameType::NewConnectionId),
                        "sequence number reused for another connection ID"@,
                    ),
                ),
            )
        } else {
            let after = if self.knows(new) {
                self.with_threshold(threshold)
            } else {
                self.with_new(new, threshold)
            };
            if after.active.len() > self.limit {
                (
                    after,
                    Err(
                        ErrorView::TransportError(
                            TransportErrorCode::ConnectionIdLimitError,
                            Some(FrameType::NewConnectionId),
                            "too many connection IDs"@,
                        ),
                    ),
                )
            } else {
                (after, Ok(()))
            }
        }
    }

    /// Whether a stateless reset of one of these identifiers ends with `token`.
    pub open spec fn matches_reset(self, token: Seq<u8>) -> bool {
        exists|i: int| 0 <= i < self.active.len() && (#[trigger] self.active[i]).token == token
    }
}

/// The identifiers the peer issued.
#[derive(Debug)]
pub struct PeerCidPool {
    active: Vec<IssuedCid>,
    pending_retire: VecDeque<u64>,
    retire_prior_to: u64,
    limit: u64,
}

impl View for PeerCidPool {
    type V = PeerCids;

    closed spec fn view(&self) -> PeerCids {
        PeerCids {
            active: cid_views(self.active@),
            pending_retire: self.pending_retire@,
            retire_prior_to: self.retire_prior_to,
            limit: self.limit,
        }
    }
}

proof fn lemma_filter_next(s: Seq<CidView>, i: int, f: spec_fn(CidView) -> bool)
    requires
        0 <= i < s.len(),
    ensures
        s.take(i + 1).filter(f) == if f(s[i]) {
            s.take(i).filter(f).push(s[i])
        } else {
            s.take(i).filter(f)
        },
{
    reveal(Seq::filter);
    assert(s.take(i + 1).drop_last() =~= s.take(i));
}

impl PeerCidPool {
    /// Up to `limit` identifiers are kept.
    pub fn new(limit: u64) -> (pool: PeerCidPool)
        ensures
            pool@ == PeerCids::fresh(limit),
    {
        let pool = PeerCidPool {
            active: Vec::new(),
            pending_retire: VecDeque::new(),
            retire_prior_to: 0,
            limit,
        };
        assert(pool@.active =~= Seq::empty());
        pool
    }

    /// Queues a sequence number to be retired (again).
    pub fn requeue_retire(&mut self, seq: u64)
        ensures
            final(self)@ == (PeerCids {
                pending_retire: old(self)@.pending_retire.push(seq),
                ..old(self)@
            }),
    {
        self.pending_retire.push_back(seq);
    }

    /// The sequence number to be retired next.
    pub fn take_pending_retire(&mut self) -> (seq: Option<u64>)
        ensures
            match seq {
                Some(s) => old(self)@.pending_retire.len() > 0 && s == old(self)@.pending_retire[0]
                    && final(self)@ == (PeerCids {
                    pending_retire: old(self)@.pending_retire.drop_first(),
                    ..old(self)@
                }),
                None => old(self)@.pending_retire.len() == 0 && final(self)@ == old(self)@,
            },
    {
        let seq = self.pending_retire.pop_front();
        assert(old(self)@.pending_retire.len() > 0 ==> self@.pending_retire
            =~= old(self)@.pending_retire.drop_first());
        seq
    }

    /// Retires all identifiers below `threshold`.
    fn retire_below(&mut self, threshold: u64)
        ensures
            final(self)@ == old(self)@.retired_below(threshold),
    {
        let ghost all = self@.active;
        let ghost keep = |c: CidView| c.seq >= threshold;
        let ghost drop = |c: CidView| c.seq < threshold;
        let ghost seq_of = |c: CidView| c.seq;
        let ghost pending = self.pending_retire@;
        let mut cids: Vec<IssuedCid> = Vec::new();
        std::mem::swap(&mut cids, &mut self.active);
        let ghost whole = cids@;
        assert(all =~= cid_views(whole));
        proof {
            reveal(Seq::filter);
            assert(all.take(0).filter(keep) =~= Seq::empty());
            assert(all.take(0).filter(drop) =~= Seq::empty());
            assert(cid_views(self.active@) =~= Seq::empty());
            assert(self.pending_retire@ =~= pending + all.take(0).filter(drop).map_values(seq_of));
        }
        for c in it: cids.into_iter()
            invariant
                it.seq() == whole,
                all == cid_views(whole),
                keep == (|c: CidView| c.seq >= threshold),
                drop == (|c: CidView| c.seq < threshold),
                seq_of == (|c: CidView| c.seq),
                self.retire_prior_to == old(self).retire_prior_to,
                self.limit == old(self).limit,
                cid_views(self.active@) == all.take(it.index() as int).filter(keep),
                self.pending_retire@ == pending + all.take(it.index() as int).filter(
                    drop,
                ).map_values(seq_of),
        {
            let ghost i = it.index() as int;
            let ghost a = self.active@;
            let ghost p = self.pending_retire@;
            proof {
                assert(all[i] == c@);
                lemma_filter_next(all, i, keep);
                lemma_filter_next(all, i, drop);
            }
            let number: u64 = c.seq;
            if number >= threshold {
                self.active.push(c);
                assert(cid_views(self.active@) =~= cid_views(a).push(all[i]));
            } else {
                self.pending_retire.push_back(number);
                proof {
                    let d = all.take(i).filter(drop);
                    assert(d.push(all[i]).map_values(seq_of) =~= d.map_values(seq_of).push(number));
                    assert(self.pending_retire@ =~= pending + d.push(all[i]).map_values(seq_of));
                }
            }
        }
        assert(all.take(all.len() as int) =~= all);
        self.retire_prior_to = threshold;
        assert(self@ =~= old(self)@.retired_below(threshold));
    }

    /// Takes in an identifier that the peer issued, and retires those below
    /// `retire_prior_to`.
    ///
    /// # Errors
    /// PROTOCOL_VIOLATION if another identifier has the same sequence number,
    /// CONNECTION_ID_LIMIT_ERROR if more than the limit are now active.
    pub fn receive_new_cid(
        &mut self,
        seq: u64,
        retire_prior_to: u64,
        cid: ConnectionId,
        stateless_reset_token: [u8; 16],
    ) -> (r: Result<(), OxiQuicError>)
        ensures
            ({
                let new = CidView { seq, cid: cid@, token: stateless_reset_token@ };
                let (after, want) = old(self)@.received(new, retire_prior_to);
                &&& final(self)@ == after
                &&& match want {
                    Ok(_) => r is Ok,
                    Err(error) => r matches Err(e) && e@ == error,
                }
            }),
    {
        let ghost new = CidView { seq, cid: cid@, token: stateless_reset_token@ };
        let i: usize = position_of_seq(&self.active, seq);
        let known: bool = if i < self.active.len() {
            let c = &self.active[i];
            let same = same_bytes(c.cid.as_bytes(), cid.as_bytes()) && same_bytes(
                c.stateless_reset_token.as_slice(),
                stateless_reset_token.as_slice(),
            );
            assert(self@.active[i as int] == c@);
            if !same {
                return Err(
                    frame_violation(
                        FrameType::NewConnectionId,
                        "sequence number reused for another connection ID",
                    ),
                );
            }
            assert(self@.active[i as int] =~= new);
            true
        } else {
            false
        };
        if retire_prior_to > self.retire_prior_to {
            self.retire_below(retire_prior_to);
        }
        if !known {
            if seq < self.retire_prior_to {
                self.pending_retire.push_back(seq);
            } else {
                let ghost a = self.active@;
                self.active.push(IssuedCid { seq, cid, stateless_reset_token });
                assert(cid_views(self.active@) =~= cid_views(a).push(new));
            }
        }
        if self.active.len() as u64 > self.limit {
            return Err(
                OxiQuicError::TransportError {
                    code: TransportErrorCode::ConnectionIdLimitError,
                    frame_type: Some(FrameType::NewConnectionId),
                    reason: String::from_str("too many connection IDs"),
                },
            );
        }
        Ok(())
    }

    /// Whether a stateless reset of one of these identifiers ends with `token`.
    pub fn matches_stateless_reset(&self, token: &[u8; 16]) -> (r: bool)
        ensures
            r == self@.matches_reset(token@),
    {
        let mut i: usize = 0;
        while i < self.active.len()
            invariant
                i <= self.active@.len(),
                forall|j: int| 0 <= j < i ==> (#[trigger] self@.active[j]).token != token@,
            decreases self.active@.len() - i,
        {
            if same_bytes(self.active[i].stateless_reset_token.as_slice(), token.as_slice()) {
                assert(self@.active[i as int].token == token@);
                return true;
            }
            i = i + 1;
        }
        false
    }
}

/// Receiving an identifier again changes nothing but what its threshold retires.
pub proof fn law_known_cid_ignored(p: PeerCids, new: CidView)
    requires
        p.knows(new),
        p.active.len() <= p.limit,
    ensures
        p.received(new, p.retire_prior_to) == (p, Ok::<(), ErrorView>(())),
{
}

/// After an identifier was taken in without error, no identifier below the
/// threshold is in use, and no more than the limit are.
pub proof fn law_threshold_respected(p: PeerCids, new: CidView, threshold: u64)
    requires
        forall|i: int|
            0 <= i < p.active.len() ==> (#[trigger] p.active[i]).seq >= p.retire_prior_to,
        p.received(new, threshold).1 is Ok,
    ensures
        ({
            let after = p.received(new, threshold).0;
            &&& after.retire_prior_to >= threshold
            &&& after.retire_prior_to >= p.retire_prior_to
            &&& after.active.len() <= p.limit
            &&& forall|i: int|
                0 <= i < after.active.len() ==> (#[trigger] after.active[i]).seq
                    >= after.retire_prior_to
        }),
{
    let keep = |c: CidView| c.seq >= threshold;
    let mid = p.with_threshold(threshold);
    let after = p.received(new, threshold).0;
    assert forall|i: int| 0 <= i < mid.active.len() implies (#[trigger] mid.active[i]).seq
        >= mid.retire_prior_to by {
        if threshold > p.retire_prior_to {
            p.active.lemma_filter_pred(keep, i);
        }
    }
    assert forall|i: int| 0 <= i < after.active.len() implies (#[trigger] after.active[i]).seq
        >= after.retire_prior_to by {
        if i < mid.active.len() {
            assert(after.active[i] == mid.active[i]);
        }
    }
}

/// What a NEW_CONNECTION_ID frame leads to. An identifier that comes under the sequence
/// number of another is refused. Else the threshold is the higher of the frame's and the
/// one before; identifiers at or above it are in use, the new one among them, those below
/// are to be retired. More than the limit in use are refused.
pub proof fn law_new_cid_taken(p: PeerCids, new: CidView, threshold: u64, c: CidView, seq: u64)
    requires
        forall|i: int, j: int|
            0 <= i < j < p.active.len() ==> (#[trigger] p.active[i]).seq != (
            #[trigger] p.active[j]).seq,
        forall|i: int|
            0 <= i < p.active.len() ==> (#[trigger] p.active[i]).seq >= p.retire_prior_to,
    ensures
        ({
            let (q, r) = p.received(new, threshold);
            let clash = exists|i: int|
                0 <= i < p.active.len() && (#[trigger] p.active[i]).seq == new.seq && p.active[i]
                    != new;
            let bar = if threshold > p.retire_prior_to {
                threshold
            } else {
                p.retire_prior_to
            };
            let gone = exists|i: int|
                0 <= i < p.active.len() && (#[trigger] p.active[i]).seq == seq && seq < bar;
            &&& clash ==> q == p && r == Err::<(), ErrorView>(
                ErrorView::TransportError(
                    TransportErrorCode::ProtocolViolation,
                    Some(FrameType::NewConnectionId),
                    "sequence number reused for another connection ID"@,
                ),
            )
            &&& !clash ==> {
                &&& q.active.contains(c) <==> c.seq >= bar && (p.active.contains(c) || c == new)
                &&& q.pending_retire.contains(seq) <==> p.pending_retire.contains(seq) || gone || (
                seq == new.seq && new.seq < bar)
                &&& q.retire_prior_to == bar
                &&& q.limit == p.limit
                &&& q.active.len() <= p.limit ==> r is Ok
                &&& q.active.len() > p.limit ==> r == Err::<(), ErrorView>(
                    ErrorView::TransportError(
                        TransportErrorCode::ConnectionIdLimitError,
                        Some(FrameType::NewConnectionId),
                        "too many connection IDs"@,
                    ),
                )
            }
        }),
{
    broadcast use vstd::seq_lib::group_seq_properties;

    let at = index_of_seq(p.active, new.seq);
    lemma_index_found(p.active, new.seq);
    let keep = |x: CidView| x.seq >= threshold;
    let drop = |x: CidView| x.seq < threshold;
    let mid = p.with_threshold(threshold);
    lemma_filter_members(p.active, keep, c);
    assert forall|x: CidView| #[trigger] p.active.filter(drop).contains(x) <==> p.active.contains(x)
        && x.seq < threshold by {
        lemma_filter_members(p.active, drop, x);
    }
    let numbers = p.active.filter(drop).map_values(|x: CidView| x.seq);
    assert(numbers.contains(seq) <==> exists|i: int|
        0 <= i < p.active.len() && (#[trigger] p.active[i]).seq == seq && seq < threshold) by {
        if numbers.contains(seq) {
            let i = choose|i: int| 0 <= i < numbers.len() && numbers[i] == seq;
            let x = p.active.filter(drop)[i];
            assert(p.active.filter(drop).contains(x));
            let k = choose|k: int| 0 <= k < p.active.len() && p.active[k] == x;
            assert(p.active[k].seq == seq);
        }
        if exists|i: int|
            0 <= i < p.active.len() && (#[trigger] p.active[i]).seq == seq && seq < threshold {
            let i = choose|i: int|
                0 <= i < p.active.len() && (#[trigger] p.active[i]).seq == seq && seq < threshold;
            assert(p.active.contains(p.active[i]));
            assert(p.active.filter(drop).contains(p.active[i]));
            let k = choose|k: int|
                0 <= k < p.active.filter(drop).len() && p.active.filter(drop)[k] == p.active[i];
            assert(numbers[k] == seq);
        }
    }
    if p.active.contains(c) {
        let i = choose|i: int| 0 <= i < p.active.len() && p.active[i] == c;
        assert(p.active[i].seq >= p.retire_prior_to);
    }
    if p.conflicts(new) {
        assert(p.active[at].seq == new.seq);
    } else {
        assert forall|i: int|
            0 <= i < p.active.len() && (#[trigger] p.active[i]).seq == new.seq implies p.active[i]
            == new by {
            assert(i == at) by {
                if i < at {
                    assert(p.active[i].seq != p.active[at].seq);
                } else if at < i {
                    assert(p.active[at].seq != p.active[i].seq);
                }
            }
        }
        if p.knows(new) {
            assert(p.active.contains(new));
            assert(p.active[at].seq >= p.retire_prior_to);
        }
    }
}

/// The position found for a sequence number is the first that holds it, or the end.
pub(crate) proof fn lemma_index_found(cids: Seq<CidView>, seq: u64)
    ensures
        ({
            let i = index_of_seq(cids, seq);
            &&& 0 <= i <= cids.len()
            &&& i < cids.len() ==> cids[i].seq == seq
            &&& i == cids.len() ==> forall|j: int|
                0 <= j < cids.len() ==> (#[trigger] cids[j]).seq != seq
        }),
    decreases cids.len(),
{
    if cids.len() > 0 && cids[0].seq != seq {
        let rest = cids.drop_first();
        lemma_index_found(rest, seq);
        let i = index_of_seq(rest, seq);
        if i == rest.len() {
            assert forall|j: int| 0 <= j < cids.len() implies (#[trigger] cids[j]).seq != seq by {
                if j > 0 {
                    assert(rest[j - 1] == cids[j]);
                }
            }
        }
    }
}

/// Identifiers issued here count up from the one of the handshake, whose number is 0. One
/// is issued as long as fewer are in use than the peer keeps: eight of the bytes drawn are
/// the identifier, the other sixteen the token of its stateless reset.
pub proof fn law_issued_cids(l: LocalCids, cid: Seq<u8>, limit: u64, random: Seq<u8>)
    requires
        random.len() == 24,
        l.next_seq < u64::MAX,
    ensures
        ({
            let f = LocalCids::fresh(cid, limit);
            &&& f.active.len() == 1 && f.active[0].seq == 0 && f.active[0].cid == cid
            &&& f.next_seq == 1 && f.limit == limit && f.pending_new.len() == 0
        }),
        l.has_room() <==> l.active.len() < l.limit,
        ({
            let m = l.with_issued(random);
            let last = m.active.last();
            &&& m.active == l.active.push(last)
            &&& m.pending_new == l.pending_new.push(last)
            &&& last.seq == l.next_seq
            &&& last.cid.len() == 8 && last.token.len() == 16
            &&& last.cid + last.token == random
            &&& m.next_seq == l.next_seq + 1
            &&& m.limit == l.limit
        }),
{
    let m = l.with_issued(random);
    assert(m.active.last().cid + m.active.last().token =~= random);
}

/// Retiring a sequence number gives the identifier issued under it and takes it, and no
/// other, out of use; one that is not in use is ignored.
pub proof fn law_retirement_exact(l: LocalCids, k: int, seq: u64)
    requires
        forall|i: int, j: int|
            0 <= i < j < l.active.len() ==> (#[trigger] l.active[i]).seq != (
            #[trigger] l.active[j]).seq,
    ensures
        0 <= k < l.active.len() && l.active[k].seq == seq ==> l.retired(seq) == Some(
            l.active[k].cid,
        ) && l.after_retirement(seq).active == l.active.remove(k),
        (forall|i: int| 0 <= i < l.active.len() ==> (#[trigger] l.active[i]).seq != seq)
            ==> l.retired(seq) is None && l.after_retirement(seq) == l,
        l.after_retirement(seq).pending_new == l.pending_new,
        l.after_retirement(seq).next_seq == l.next_seq,
        l.after_retirement(seq).limit == l.limit,
{
    lemma_index_found(l.active, seq);
    let i = index_of_seq(l.active, seq);
    if 0 <= k < l.active.len() && l.active[k].seq == seq {
        if i < k {
            assert(l.active[i].seq != l.active[k].seq);
        } else if k < i && i < l.active.len() {
            assert(l.active[k].seq != l.active[i].seq);
        }
    }
}

/// A stateless reset is recognised by the token of an identifier in use, and by no other.
pub proof fn law_reset_recognised(p: PeerCids, token: Seq<u8>, k: int)
    ensures
        0 <= k < p.active.len() ==> p.matches_reset(p.active[k].token),
        (forall|i: int| 0 <= i < p.active.len() ==> (#[trigger] p.active[i]).token != token)
            ==> !p.matches_reset(token),
{
}

} // verus!
