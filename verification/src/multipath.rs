//! Multipath QUIC preview (draft-ietf-quic-multipath-08).
//!
//! This module provides the data structures for tracking multiple simultaneous
//! QUIC paths, following the emerging IETF draft (draft-ietf-quic-multipath)
//! and RFC 9000 Section 9 (path migration foundation).
//!
//! * [`PathState`] holds the per-path RTT, connection identifier, validation
//!   status and packet counts.
//! * [`MultipathState`] is the collection of known paths with an "active path"
//!   index.
//!
//! Full multipath packet scheduling (sending data across multiple simultaneous
//! paths), per-path ACK processing, and multipath stream mapping are deferred
//! pending stabilisation of the draft RFC.
use crate::error::{ConnectionFault, ErrorView, OxiQuicError};
use crate::time::Duration;
use crate::types::{ConnectionId, SocketAddr};
use vstd::prelude::*;

verus! {

/// The monotonic clock's readings, which say when a path was seen and used.
#[verifier::external_type_specification]
#[verifier::external_body]
pub struct ExStdInstant(std::time::Instant);

/// [`std::time::Instant::now`] reads the monotonic clock. Nothing is claimed of
/// the reading.
pub assume_specification[ std::time::Instant::now ]() -> std::time::Instant;

/// Validation state of a path.
#[derive(Debug, Clone, Copy, PartialEq, Eq, Structural)]
pub enum PathValidation {
    /// No PATH_CHALLENGE has been sent for this path yet.
    Unknown,
    /// PATH_CHALLENGE sent; waiting for PATH_RESPONSE.
    Pending,
    /// PATH_CHALLENGE acknowledged via PATH_RESPONSE.
    Validated,
    /// Path validation failed (no response within PTO budget).
    Failed,
}

impl PathValidation {
    /// The name of the state, for people.
    pub open spec fn spec_name(self) -> Seq<char> {
        match self {
            PathValidation::Unknown => "unknown"@,
            PathValidation::Pending => "pending"@,
            PathValidation::Validated => "validated"@,
            PathValidation::Failed => "failed"@,
        }
    }

    /// The name of the state, for people.
    pub fn name(&self) -> (name: &'static str)
        ensures
            name@ == self.spec_name(),
    {
        match self {
            PathValidation::Unknown => "unknown",
            PathValidation::Pending => "pending",
            PathValidation::Validated => "validated",
            PathValidation::Failed => "failed",
        }
    }
}

/// Per-path state for a QUIC connection.
///
/// Each path is identified by (local_addr, remote_addr). The connection
/// maintains one primary path and zero or more candidate / secondary paths.
/// Each path tracks its own RTT estimate, congestion window hint, and
/// validation status independently.
#[derive(Debug)]
pub struct PathState {
    /// The local socket address for this path.
    pub local_addr: Option<SocketAddr>,
    /// The remote peer address for this path.
    pub remote_addr: SocketAddr,
    /// The connection ID used on this path (RFC 9000 Section 9.5 requires using
    /// a fresh CID when migrating to prevent linkability).
    pub connection_id: Option<ConnectionId>,
    /// Validation state.
    pub validation: PathValidation,
    /// Smoothed RTT estimate for this path (None until at least one RTT sample).
    pub smoothed_rtt: Option<Duration>,
    /// Minimum RTT observed on this path.
    pub min_rtt: Option<Duration>,
    /// Estimated available bandwidth (bytes/s), updated by ACK events.
    pub bandwidth_estimate: Option<u64>,
    /// Number of packets sent on this path.
    pub packets_sent: u64,
    /// Number of packets received on this path.
    pub packets_received: u64,
    /// Wall-clock time this path was first seen.
    pub first_seen: std::time::Instant,
    /// Wall-clock time this path was last used for sending.
    pub last_sent: Option<std::time::Instant>,
}

/// Whole microseconds in `d`, as a 64-bit number.
pub open spec fn micros(d: Duration) -> u64 {
    (d.nanos / 1_000) as u64
}

/// Seven eighths of `prev` and one eighth of `sample`, in whole microseconds
/// (RFC 9002 Section 5.3).
pub open spec fn smoothed(prev: Duration, sample: Duration) -> Duration {
    Duration { nanos: ((micros(prev) * 7 + micros(sample)) / 8 * 1_000) as u128 }
}

impl PathState {
    /// Whether this is a path to `remote_addr` of which nothing is known yet but
    /// the connection identifier and the state of validation.
    pub open spec fn is_new(
        self,
        remote_addr: SocketAddr,
        cid: Option<ConnectionId>,
        validation: PathValidation,
    ) -> bool {
        &&& self.local_addr is None
        &&& self.remote_addr == remote_addr
        &&& self.connection_id == cid
        &&& self.validation == validation
        &&& self.smoothed_rtt is None
        &&& self.min_rtt is None
        &&& self.bandwidth_estimate is None
        &&& self.packets_sent == 0
        &&& self.packets_received == 0
        &&& self.last_sent is None
    }

    /// Create a new path state for `remote_addr`, first seen now.
    #[must_use]
    pub fn new(remote_addr: SocketAddr) -> (path: Self)
        ensures
            path.is_new(remote_addr, None, PathValidation::Unknown),
    {
        Self {
            local_addr: None,
            remote_addr,
            connection_id: None,
            validation: PathValidation::Unknown,
            smoothed_rtt: None,
            min_rtt: None,
            bandwidth_estimate: None,
            packets_sent: 0,
            packets_received: 0,
            first_seen: std::time::Instant::now(),
            last_sent: None,
        }
    }

    /// Whether this path may be promoted to the active (preferred) path.
    ///
    /// Only fully-validated paths are eligible for promotion. The initial path
    /// is created with [`PathValidation::Validated`] by [`MultipathState::new`].
    /// Candidate paths added via [`MultipathState::add_path`] start as
    /// [`PathValidation::Unknown`] and must be validated via PATH_CHALLENGE /
    /// PATH_RESPONSE before they can become the preferred path.
    #[must_use]
    pub fn is_usable(&self) -> (usable: bool)
        ensures
            usable == (self.validation == PathValidation::Validated),
    {
        self.validation == PathValidation::Validated
    }

    /// Update the RTT estimate with a new sample.
    ///
    /// Uses the RFC 9002 Section 5.3 formula:
    /// `smoothed_rtt = 7/8 * smoothed_rtt + 1/8 * sample`.
    pub fn update_rtt(&mut self, sample: Duration)
        requires
            old(self).smoothed_rtt matches Some(prev) ==> micros(prev) * 7 + micros(sample)
                <= u64::MAX,
        ensures
            *final(self) == (PathState {
                smoothed_rtt: Some(
                    match old(self).smoothed_rtt {
                        None => sample,
                        Some(prev) => smoothed(prev, sample),
                    },
                ),
                min_rtt: Some(
                    match old(self).min_rtt {
                        None => sample,
                        Some(m) => m.spec_min(sample),
                    },
                ),
                ..*old(self)
            }),
    {
        let updated = match self.smoothed_rtt {
            None => sample,
            Some(prev) => {
                // 7/8 * prev + 1/8 * sample (integer arithmetic, microseconds).
                let prev_us: u64 = #[verifier::truncate]
                (prev.as_micros() as u64);
                let sample_us: u64 = #[verifier::truncate]
                (sample.as_micros() as u64);
                let new_us: u64 = (prev_us * 7 + sample_us) / 8;
                Duration::from_micros(new_us)
            },
        };
        self.smoothed_rtt = Some(updated);
        self.min_rtt =
        Some(
            match self.min_rtt {
                None => sample,
                Some(m) => m.min(sample),
            },
        );
    }

    /// Record a packet sent on this path now.
    pub fn record_sent(&mut self)
        requires
            old(self).packets_sent < u64::MAX,
        ensures
            final(self).last_sent is Some,
            *final(self) == (PathState {
                packets_sent: (old(self).packets_sent + 1) as u64,
                last_sent: final(self).last_sent,
                ..*old(self)
            }),
    {
        self.packets_sent += 1;
        self.last_sent = Some(std::time::Instant::now());
    }

    /// Record a packet received on this path.
    pub fn record_received(&mut self)
        requires
            old(self).packets_received < u64::MAX,
        ensures
            *final(self) == (PathState {
                packets_received: (old(self).packets_received + 1) as u64,
                ..*old(self)
            }),
    {
        self.packets_received += 1;
    }
}

/// The most paths a connection keeps track of.
pub const MAX_PATHS: usize = 8;

/// The known paths and which of them is active.
#[verifier::ext_equal]
pub struct Paths {
    /// The paths in order of registration.
    pub paths: Seq<PathState>,
    /// The index of the active path.
    pub active: int,
}

impl Paths {
    /// One path is active, and no more than [`MAX_PATHS`] are known.
    pub open spec fn wf(self) -> bool {
        0 <= self.active < self.paths.len() <= MAX_PATHS
    }

    /// The active path.
    pub open spec fn active_path(self) -> PathState {
        self.paths[self.active]
    }

    /// Whether a path to `addr` is known.
    pub open spec fn knows(self, addr: SocketAddr) -> bool {
        exists|i: int| 0 <= i < self.paths.len() && (#[trigger] self.paths[i]).remote_addr == addr
    }

    /// Whether the first path to `addr` is the one of index `i`.
    pub open spec fn first_to(self, addr: SocketAddr, i: int) -> bool {
        &&& 0 <= i < self.paths.len()
        &&& self.paths[i].remote_addr == addr
        &&& forall|j: int| 0 <= j < i ==> (#[trigger] self.paths[j]).remote_addr != addr
    }

    /// Whether no two paths go to the same address.
    pub open spec fn distinct(self) -> bool {
        forall|i: int, j: int|
            0 <= i < j < self.paths.len() ==> (#[trigger] self.paths[i]).remote_addr != (
            #[trigger] self.paths[j]).remote_addr
    }

    /// After the path of index `index`, if there is one, was put in state `v`.
    pub open spec fn marked(self, index: int, v: PathValidation) -> Paths {
        if 0 <= index < self.paths.len() {
            Paths {
                paths: self.paths.update(
                    index,
                    PathState { validation: v, ..self.paths[index] },
                ),
                ..self
            }
        } else {
            self
        }
    }

    /// What [`MultipathState::add_path`] answers for `addr`, if not with an index.
    pub open spec fn add_fault(self, addr: SocketAddr) -> Option<ConnectionFault> {
        if self.knows(addr) {
            Some(ConnectionFault::PathKnown(addr))
        } else if self.paths.len() >= MAX_PATHS {
            Some(ConnectionFault::PathLimit(MAX_PATHS))
        } else {
            None
        }
    }

    /// What [`MultipathState::remove_path`] answers for `index`, if not success.
    pub open spec fn remove_fault(self, index: usize) -> Option<ConnectionFault> {
        if index >= self.paths.len() {
            Some(ConnectionFault::PathIndex(index))
        } else if index == self.active {
            Some(ConnectionFault::ActivePath)
        } else {
            None
        }
    }

    /// After the path of index `index` was removed: the paths behind it move up,
    /// and the same path stays active.
    pub open spec fn removed(self, index: int) -> Paths {
        Paths {
            paths: self.paths.remove(index),
            active: if self.active > index {
                self.active - 1
            } else {
                self.active
            },
        }
    }

    /// What [`MultipathState::set_preferred_path`] answers for `index`, if not
    /// success.
    pub open spec fn prefer_fault(self, index: usize) -> Option<ConnectionFault> {
        if index >= self.paths.len() {
            Some(ConnectionFault::PathIndex(index))
        } else if self.paths[index as int].validation != PathValidation::Validated {
            Some(ConnectionFault::PathNotUsable(index, self.paths[index as int].validation))
        } else {
            None
        }
    }
}

/// Collection of known paths for a QUIC connection.
///
/// At any given time, one path is designated the "active" path: all packets
/// are sent on this path unless a multipath scheduler chooses otherwise. The
/// initial path (index 0) is always the active path unless explicitly changed
/// via [`MultipathState::set_preferred_path`].
///
/// Capacity: up to 8 simultaneous paths (RFC 9000 Section 9 anti-amplification
/// considerations make more than 4-8 paths unusual in practice).
#[derive(Debug)]
pub struct MultipathState {
    /// Known paths, in order of registration.
    paths: Vec<PathState>,
    /// Index of the currently active (preferred) path in `paths`.
    active_index: usize,
}

impl View for MultipathState {
    type V = Paths;

    closed spec fn view(&self) -> Paths {
        Paths { paths: self.paths@, active: self.active_index as int }
    }
}

impl MultipathState {
    /// Create a new multipath state with one initial path.
    #[must_use]
    pub fn new(initial_remote: SocketAddr) -> (mp: Self)
        ensures
            mp@.wf(),
            mp@.active == 0,
            mp@.paths.len() == 1,
            mp@.paths[0].is_new(initial_remote, None, PathValidation::Validated),
    {
        let mut initial = PathState::new(initial_remote);
        // The initial path is implicitly validated by the handshake.
        initial.validation = PathValidation::Validated;
        let mut paths: Vec<PathState> = Vec::new();
        paths.push(initial);
        Self { paths, active_index: 0 }
    }

    /// The number of known paths (including candidates not yet validated).
    #[must_use]
    pub fn path_count(&self) -> (n: usize)
        ensures
            n == self@.paths.len(),
    {
        self.paths.len()
    }

    /// Immutable slice of all known paths.
    #[must_use]
    pub fn paths(&self) -> (paths: &[PathState])
        ensures
            paths@ == self@.paths,
    {
        self.paths.as_slice()
    }

    /// Mutable reference to the active path.
    #[must_use]
    pub fn active_path_mut(&mut self) -> (path: &mut PathState)
        requires
            old(self)@.wf(),
        ensures
            *path == old(self)@.active_path(),
            final(self)@ == (Paths {
                paths: old(self)@.paths.update(old(self)@.active, *final(path)),
                ..old(self)@
            }),
    {
        &mut self.paths[self.active_index]
    }

    /// Immutable reference to the active path.
    #[must_use]
    pub fn active_path(&self) -> (path: &PathState)
        requires
            self@.wf(),
        ensures
            *path == self@.active_path(),
    {
        &self.paths[self.active_index]
    }

    /// The index of the active path in `paths()`.
    #[must_use]
    pub fn active_index(&self) -> (index: usize)
        ensures
            index == self@.active,
    {
        self.active_index
    }

    /// The index of the first path to `addr`.
    fn position(&self, addr: SocketAddr) -> (index: Option<usize>)
        ensures
            match index {
                Some(i) => self@.first_to(addr, i as int),
                None => !self@.knows(addr),
            },
    {
        let mut i: usize = 0;
        while i < self.paths.len()
            invariant
                i <= self.paths.len(),
                forall|j: int| 0 <= j < i ==> (#[trigger] self@.paths[j]).remote_addr != addr,
            decreases self.paths.len() - i,
        {
            if self.paths[i].remote_addr == addr {
                return Some(i);
            }
            i = i + 1;
        }
        None
    }

    /// Register a new candidate path.
    ///
    /// Returns `Ok(path_index)` on success.  Returns `Err` if the path is
    /// already known (same `remote_addr`) or if the capacity limit is reached.
    pub fn add_path(&mut self, remote_addr: SocketAddr, cid: Option<ConnectionId>) -> (r: Result<
        usize,
        OxiQuicError,
    >)
        requires
            old(self)@.wf(),
        ensures
            final(self)@.wf(),
            match old(self)@.add_fault(remote_addr) {
                Some(fault) => {
                    &&& r matches Err(e) && e@ == ErrorView::Connection(fault)
                    &&& final(self)@ == old(self)@
                },
                None => {
                    let added = final(self)@.paths.last();
                    &&& r matches Ok(index) && index == old(self)@.paths.len()
                    &&& added.is_new(remote_addr, cid, PathValidation::Unknown)
                    &&& final(self)@ == (Paths {
                        paths: old(self)@.paths.push(added),
                        ..old(self)@
                    })
                },
            },
    {
        // Reject duplicates.
        if self.position(remote_addr).is_some() {
            return Err(OxiQuicError::Connection(ConnectionFault::PathKnown(remote_addr)));
        }
        if self.paths.len() >= MAX_PATHS {
            return Err(OxiQuicError::Connection(ConnectionFault::PathLimit(MAX_PATHS)));
        }
        let mut state = PathState::new(remote_addr);
        state.connection_id = cid;
        let idx: usize = self.paths.len();
        self.paths.push(state);
        Ok(idx)
    }

    /// Remove a path by index. The active path cannot be removed.
    pub fn remove_path(&mut self, index: usize) -> (r: Result<(), OxiQuicError>)
        requires
            old(self)@.wf(),
        ensures
            final(self)@.wf(),
            match old(self)@.remove_fault(index) {
                Some(fault) => {
                    &&& r matches Err(e) && e@ == ErrorView::Connection(fault)
                    &&& final(self)@ == old(self)@
                },
                None => r is Ok && final(self)@ == old(self)@.removed(index as int),
            },
    {
        if index >= self.paths.len() {
            return Err(OxiQuicError::Connection(ConnectionFault::PathIndex(index)));
        }
        if index == self.active_index {
            return Err(OxiQuicError::Connection(ConnectionFault::ActivePath));
        }
        self.paths.remove(index);
        // Adjust active index if necessary.
        if self.active_index > index {
            self.active_index -= 1;
        }
        Ok(())
    }

    /// Promote `index` to the active path.
    pub fn set_preferred_path(&mut self, index: usize) -> (r: Result<(), OxiQuicError>)
        requires
            old(self)@.wf(),
        ensures
            final(self)@.wf(),
            match old(self)@.prefer_fault(index) {
                Some(fault) => {
                    &&& r matches Err(e) && e@ == ErrorView::Connection(fault)
                    &&& final(self)@ == old(self)@
                },
                None => r is Ok && final(self)@ == (Paths { active: index as int, ..old(self)@ }),
            },
    {
        if index >= self.paths.len() {
            return Err(OxiQuicError::Connection(ConnectionFault::PathIndex(index)));
        }
        if !self.paths[index].is_usable() {
            return Err(
                OxiQuicError::Connection(
                    ConnectionFault::PathNotUsable(index, self.paths[index].validation),
                ),
            );
        }
        self.active_index = index;
        Ok(())
    }

    /// Look up a path by remote address. Returns `None` if not found.
    #[must_use]
    pub fn path_by_addr(&self, addr: SocketAddr) -> (found: Option<(usize, &PathState)>)
        ensures
            match found {
                Some((i, path)) => self@.first_to(addr, i as int) && *path == self@.paths[i as int],
                None => !self@.knows(addr),
            },
    {
        match self.position(addr) {
            Some(i) => Some((i, &self.paths[i])),
            None => None,
        }
    }

    /// Mutable lookup by remote address.
    #[must_use]
    pub fn path_by_addr_mut(&mut self, addr: SocketAddr) -> (found: Option<(usize, &mut PathState)>)
        ensures
            match found {
                Some((i, path)) => {
                    &&& old(self)@.first_to(addr, i as int)
                    &&& *path == old(self)@.paths[i as int]
                    &&& final(self)@ == (Paths {
                        paths: old(self)@.paths.update(i as int, *final(path)),
                        ..old(self)@
                    })
                },
                None => !old(self)@.knows(addr) && final(self)@ == old(self)@,
            },
    {
        match self.position(addr) {
            Some(i) => Some((i, &mut self.paths[i])),
            None => None,
        }
    }

    /// Puts the path at `index`, if there is one, in state `v`.
    fn mark(&mut self, index: usize, v: PathValidation)
        ensures
            final(self)@ == old(self)@.marked(index as int, v),
    {
        if index < self.paths.len() {
            let path = &mut self.paths[index];
            path.validation = v;
        }
        assert(self@ =~= old(self)@.marked(index as int, v));
    }

    /// Mark path at `index` as validated (PATH_CHALLENGE/PATH_RESPONSE complete).
    pub fn mark_validated(&mut self, index: usize)
        ensures
            final(self)@ == old(self)@.marked(index as int, PathValidation::Validated),
    {
        self.mark(index, PathValidation::Validated);
    }

    /// Mark path at `index` as pending (PATH_CHALLENGE sent, waiting for response).
    pub fn mark_pending(&mut self, index: usize)
        ensures
            final(self)@ == old(self)@.marked(index as int, PathValidation::Pending),
    {
        self.mark(index, PathValidation::Pending);
    }

    /// Mark path at `index` as failed (validation timed out).
    pub fn mark_failed(&mut self, index: usize)
        ensures
            final(self)@ == old(self)@.marked(index as int, PathValidation::Failed),
    {
        self.mark(index, PathValidation::Failed);
    }
}

/// Only a validated path can become the active one: a candidate is refused with
/// its state of validation until it has been marked validated, and then it becomes
/// active.
pub proof fn law_validate_before_prefer(p: Paths, index: usize)
    requires
        p.wf(),
        index < p.paths.len(),
    ensures
        p.paths[index as int].validation == PathValidation::Unknown ==> p.prefer_fault(index)
            == Some(ConnectionFault::PathNotUsable(index, PathValidation::Unknown)),
        p.marked(index as int, PathValidation::Pending).prefer_fault(index) is Some,
        p.marked(index as int, PathValidation::Failed).prefer_fault(index) is Some,
        p.marked(index as int, PathValidation::Validated).prefer_fault(index) is None,
        p.prefer_fault(index) is None ==> (Paths { active: index as int, ..p }).active_path()
            == p.paths[index as int] && p.paths[index as int].validation
            == PathValidation::Validated,
{
}

/// Removing a path leaves every other path, in order, and the active path active.
pub proof fn law_remove_keeps_active(p: Paths, index: usize)
    requires
        p.wf(),
        p.remove_fault(index) is None,
    ensures
        p.removed(index as int).wf(),
        p.removed(index as int).active_path() == p.active_path(),
        p.removed(index as int).paths.len() == p.paths.len() - 1,
        p.distinct() ==> p.removed(index as int).distinct(),
{
}

/// Registration keeps the addresses distinct, at most [`MAX_PATHS`] of them, so a
/// second registration of an address is refused.
pub proof fn law_add_keeps_distinct(p: Paths, addr: SocketAddr, added: PathState)
    requires
        p.wf(),
        p.distinct(),
        p.add_fault(addr) is None,
        added.remote_addr == addr,
    ensures
        (Paths { paths: p.paths.push(added), ..p }).wf(),
        (Paths { paths: p.paths.push(added), ..p }).distinct(),
        (Paths { paths: p.paths.push(added), ..p }).add_fault(addr) == Some(
            ConnectionFault::PathKnown(addr),
        ),
{
    let q = Paths { paths: p.paths.push(added), ..p };
    assert(q.paths[p.paths.len() as int].remote_addr == addr);
}

/// The smoothed RTT stays between the two spans it is made of, to the microsecond.
pub proof fn law_smoothed_between(prev: Duration, sample: Duration)
    requires
        micros(prev) * 7 + micros(sample) <= u64::MAX,
    ensures
        micros(prev) <= micros(sample) ==> micros(prev) * 1_000 <= smoothed(prev, sample).nanos
            <= micros(sample) * 1_000,
        micros(prev) >= micros(sample) ==> micros(sample) * 1_000 <= smoothed(prev, sample).nanos
            <= micros(prev) * 1_000,
{
}

/// When a path is refused and why: an address that is known, or a ninth path, is not added;
/// a path that is not there, or is active, is not removed; one that is not there, or is not
/// validated, is not preferred.
pub proof fn law_path_faults(p: Paths, addr: SocketAddr, index: usize, k: int)
    ensures
        0 <= k < p.paths.len() && p.paths[k].remote_addr == addr ==> p.add_fault(addr) == Some(
            ConnectionFault::PathKnown(addr),
        ),
        (forall|i: int| 0 <= i < p.paths.len() ==> (#[trigger] p.paths[i]).remote_addr != addr)
            ==> p.add_fault(addr) == if p.paths.len() < 8 {
            None
        } else {
            Some(ConnectionFault::PathLimit(8))
        },
        index >= p.paths.len() ==> p.remove_fault(index) == Some(ConnectionFault::PathIndex(index))
            && p.prefer_fault(index) == Some(ConnectionFault::PathIndex(index)),
        index < p.paths.len() ==> p.remove_fault(index) == if p.active == index {
            Some(ConnectionFault::ActivePath)
        } else {
            None
        },
        index < p.paths.len() ==> ({
            let v = p.paths[index as int].validation;
            p.prefer_fault(index) == if v == PathValidation::Validated {
                None
            } else {
                Some(ConnectionFault::PathNotUsable(index, v))
            }
        }),
{
}

/// Marking a path changes its state of validation and nothing else of it, nor any other
/// path; removing one moves those behind it up by one.
pub proof fn law_paths_changed(p: Paths, index: int, v: PathValidation, i: int)
    requires
        0 <= index < p.paths.len(),
    ensures
        ({
            let q = p.marked(index, v);
            &&& q.paths.len() == p.paths.len()
            &&& q.active == p.active
            &&& q.paths[index].validation == v
            &&& q.paths[index] == (PathState { validation: v, ..p.paths[index] })
            &&& 0 <= i < p.paths.len() && i != index ==> q.paths[i] == p.paths[i]
        }),
        ({
            let q = p.removed(index);
            &&& q.paths.len() == p.paths.len() - 1
            &&& 0 <= i < index ==> q.paths[i] == p.paths[i]
            &&& index <= i < q.paths.len() ==> q.paths[i] == p.paths[i + 1]
            &&& q.active == if index < p.active {
                p.active - 1
            } else {
                p.active
            }
        }),
        p.marked(p.paths.len() as int, v) == p,
{
}

/// The smoothed round-trip time of a path is seven parts of the last estimate and one of the
/// sample, in whole microseconds, rounded down.
pub proof fn law_smoothed_weights(prev: Duration, sample: Duration)
    requires
        prev.nanos < 1_000 * 0x1_0000_0000_0000_0000,
        sample.nanos < 1_000 * 0x1_0000_0000_0000_0000,
        prev.nanos / 1_000 * 7 + sample.nanos / 1_000 <= u64::MAX,
    ensures
        ({
            let s = smoothed(prev, sample).nanos;
            let sum = prev.nanos / 1_000 * 7 + sample.nanos / 1_000;
            &&& s % 1_000 == 0
            &&& 8 * (s / 1_000) <= sum < 8 * (s / 1_000) + 8
        }),
{
}

/// A path that was just registered has carried nothing and measured nothing.
pub proof fn law_new_path_is_blank(
    path: PathState,
    addr: SocketAddr,
    cid: Option<ConnectionId>,
    validation: PathValidation,
)
    requires
        path.is_new(addr, cid, validation),
    ensures
        path.remote_addr == addr,
        path.local_addr is None,
        path.connection_id == cid,
        path.validation == validation,
        path.packets_sent == 0 && path.packets_received == 0,
        path.smoothed_rtt is None && path.min_rtt is None && path.bandwidth_estimate is None,
        path.last_sent is None,
{
}

} // verus!
