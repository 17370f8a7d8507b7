//! Reassembly of an ordered byte stream from segments that arrive in any order.
use crate::types::copy_bytes;
use std::collections::BTreeMap;
use vstd::prelude::*;
use vstd::std_specs::btree::{axiom_btree_map_view_finite_dom, axiom_spec_keys_iter};

verus! {

/// Segments by the offset of their first byte.
pub type Segments = Map<u64, Seq<u8>>;

/// Whether `k` is the greatest start of a segment that is not beyond `at`.
pub open spec fn is_floor(pending: Segments, at: nat, k: u64) -> bool {
    &&& pending.contains_key(k)
    &&& k <= at
    &&& forall|j: u64| pending.contains_key(j) && j <= at ==> j <= k
}

/// Whether some segment holds the byte at offset `x`.
pub open spec fn covered(pending: Segments, x: nat) -> bool {
    exists|k: u64| #[trigger] pending.contains_key(k) && k <= x < k + pending[k].len()
}

/// Whether every segment holds bytes of the stream `f`.
pub open spec fn agrees(pending: Segments, f: spec_fn(int) -> u8) -> bool {
    forall|k: u64, i: int|
        #![trigger pending[k][i]]
        pending.contains_key(k) && 0 <= i < pending[k].len() ==> pending[k][i] == f(k + i)
}

/// What can be delivered from offset `at` on: the segment that starts last at or
/// before the delivery point is taken out, what it holds beyond that point is
/// delivered, and so on until every segment starts beyond the delivery point.
/// Gives the bytes delivered, the segments left and the delivery point reached.
pub open spec fn drained(pending: Segments, at: nat) -> (Seq<u8>, Segments, nat)
    decreases pending.dom().len(),
    when pending.dom().finite()
{
    if exists|k: u64| is_floor(pending, at, k) {
        let k = choose|k: u64| is_floor(pending, at, k);
        let segment = pending[k];
        let end = k as nat + segment.len();
        if end <= at {
            drained(pending.remove(k), at)
        } else {
            let (more, left, reached) = drained(pending.remove(k), end);
            (segment.skip(at - k) + more, left, reached)
        }
    } else {
        (Seq::empty(), pending, at)
    }
}

/// The state of a reassembly.
#[verifier::ext_equal]
pub struct Reassembly {
    /// Everything before this offset has been delivered.
    pub offset: nat,
    /// Segments that wait for what comes before them.
    pub pending: Segments,
}

impl Reassembly {
    /// Nothing received, nothing delivered.
    pub open spec fn fresh() -> Reassembly {
        Reassembly { offset: 0, pending: Map::empty() }
    }

    /// Segments that wait are not empty, lie beyond what has been delivered, and
    /// end within the range of offsets.
    pub open spec fn wf(self) -> bool {
        &&& self.offset <= u64::MAX
        &&& self.pending.dom().finite()
        &&& forall|k: u64| #[trigger]
            self.pending.contains_key(k) ==> self.offset < k && 0 < self.pending[k].len() && k
                + self.pending[k].len() <= u64::MAX
    }

    /// Where the part of a segment that has not been delivered yet starts.
    pub open spec fn new_start(self, offset: u64) -> nat {
        if offset < self.offset {
            self.offset
        } else {
            offset as nat
        }
    }

    /// The part of a segment that has not been delivered yet.
    pub open spec fn new_part(self, offset: u64, data: Seq<u8>) -> Seq<u8> {
        data.skip(self.new_start(offset) - offset)
    }

    /// Whether a segment that waits holds all that a segment would add at its start.
    pub open spec fn duplicate(self, offset: u64, data: Seq<u8>) -> bool {
        let start = self.new_start(offset) as u64;
        self.pending.contains_key(start) && self.pending[start].len() >= self.new_part(
            offset,
            data,
        ).len()
    }

    /// The segments that wait once a segment has come in. Of two that start at the same
    /// offset the longer one is kept: a duplicate is dropped.
    pub open spec fn with_segment(self, offset: u64, data: Seq<u8>) -> Segments {
        if data.len() == 0 || self.duplicate(offset, data) {
            self.pending
        } else {
            self.pending.insert(self.new_start(offset) as u64, self.new_part(offset, data))
        }
    }

    /// Takes in `data` at `offset`: the bytes delivered and the state after.
    /// Data delivered before or held already is dropped, a gap is waited for.
    pub open spec fn accepted(self, offset: u64, data: Seq<u8>) -> (Seq<u8>, Reassembly) {
        if offset + data.len() <= self.offset {
            (Seq::empty(), self)
        } else {
            let (bytes, pending, reached) = drained(self.with_segment(offset, data), self.offset);
            (bytes, Reassembly { offset: reached, pending })
        }
    }

    /// Whether the byte at offset `x` has been delivered or is held.
    pub open spec fn has(self, x: nat) -> bool {
        x < self.offset || covered(self.pending, x)
    }
}

/// Reassembles one byte stream.
#[derive(Debug)]
pub struct Reassembler {
    /// Next offset to deliver.
    offset: u64,
    /// Segments that arrived ahead of it, keyed by start offset.
    pending: BTreeMap<u64, Vec<u8>>,
}

/// The segments of a map of byte vectors.
pub open spec fn segments_of(m: Map<u64, Vec<u8>>) -> Segments {
    m.map_values(|v: Vec<u8>| v@)
}

impl View for Reassembler {
    type V = Reassembly;

    closed spec fn view(&self) -> Reassembly {
        Reassembly { offset: self.offset as nat, pending: segments_of(self.pending@) }
    }
}

impl Reassembler {
    /// A stream of which nothing has arrived.
    pub fn new() -> (r: Reassembler)
        ensures
            r@ == Reassembly::fresh(),
            r@.wf(),
    {
        let r = Reassembler { offset: 0, pending: BTreeMap::new() };
        assert(r@.pending =~= Map::empty());
        r
    }

    /// Everything before this offset has been delivered.
    pub fn offset(&self) -> (offset: u64)
        ensures
            offset == self@.offset,
    {
        self.offset
    }

    /// The greatest start of a waiting segment that is not beyond `at`.
    fn floor(&self, at: u64) -> (start: Option<u64>)
        ensures
            match start {
                Some(k) => is_floor(self@.pending, at as nat, k),
                None => forall|k: u64| self@.pending.contains_key(k) ==> k > at,
            },
    {
        broadcast use axiom_spec_keys_iter;

        let mut best: Option<u64> = None;
        for k in it: self.pending.keys()
            invariant
                it.seq().unref().to_set() == self.pending@.dom(),
                match best {
                    Some(b) => {
                        &&& self.pending@.contains_key(b)
                        &&& b <= at
                        &&& forall|i: int|
                            0 <= i < it.index() && *#[trigger] it.seq()[i] <= at ==> *it.seq()[i]
                                <= b
                    },
                    None => forall|i: int| 0 <= i < it.index() ==> *#[trigger] it.seq()[i] > at,
                },
        {
            assert(it.seq().unref()[it.index() as int] == *k);
            assert(it.seq().unref().to_set().contains(*k));
            if *k <= at {
                match best {
                    Some(b) => {
                        if *k > b {
                            best = Some(*k);
                        }
                    },
                    None => {
                        best = Some(*k);
                    },
                }
            }
        }
        assert forall|k: u64| self.pending@.contains_key(k) implies match best {
            Some(b) => k <= at ==> k <= b,
            None => k > at,
        } by {
            assert(self.pending@.dom().contains(k));
        }
        best
    }

    /// Takes in `data` at `offset` and gives the bytes that can now be delivered
    /// in order. Duplicated or already delivered data is dropped; what comes after a
    /// gap waits until the gap is filled.
    pub fn accept(&mut self, offset: u64, data: &[u8]) -> (delivered: Vec<u8>)
        requires
            old(self)@.wf(),
            offset + data@.len() <= u64::MAX,
        ensures
            final(self)@.wf(),
            (delivered@, final(self)@) == old(self)@.accepted(offset, data@),
    {
        let end: u64 = offset + data.len() as u64;
        if end <= self.offset {
            // Entirely old data.
            return Vec::new();
        }
        // Trim any prefix already delivered.

        let (start, fresh): (u64, Vec<u8>) = if offset < self.offset {
            let skip: usize = (self.offset - offset) as usize;
            let (_, back) = data.split_at(skip);
            (self.offset, copy_bytes(back))
        } else {
            (offset, copy_bytes(data))
        };
        assert(fresh@ =~= old(self)@.new_part(offset, data@));
        // A segment held at the same start is given up for a longer one only.
        let held: usize = match self.pending.get(&start) {
            Some(segment) => segment.len(),
            None => 0,
        };
        assert(old(self)@.duplicate(offset, data@) || data@.len() == 0 <==> held
            >= fresh@.len());
        if held < fresh.len() {
            self.pending.insert(start, fresh);
        }
        let ghost whole = old(self)@.with_segment(offset, data@);
        assert(self@.pending =~= whole);
        proof {
            axiom_btree_map_view_finite_dom(self.pending);
        }

        // Take out segments from the delivery point on.
        let mut delivered: Vec<u8> = Vec::new();
        loop
            invariant
                self@.pending.dom().finite(),
                self.offset <= u64::MAX,
                forall|k: u64| #[trigger]
                    self@.pending.contains_key(k) ==> 0 < self@.pending[k].len() && k
                        + self@.pending[k].len() <= u64::MAX,
                ({
                    let (more, left, reached) = drained(self@.pending, self@.offset);
                    (delivered@ + more, left, reached)
                }) == drained(whole, old(self)@.offset),
            ensures
                self@.wf(),
                (delivered@, self@.pending, self@.offset) == drained(whole, old(self)@.offset),
            decreases self@.pending.dom().len(),
        {
            let ghost before = self@.pending;
            let ghost at = self@.offset;
            let ghost got = delivered@;
            let start = match self.floor(self.offset) {
                Some(start) => start,
                None => {
                    assert(delivered@ + Seq::<u8>::empty() =~= delivered@);
                    break;
                },
            };
            proof {
                lemma_floor_unique(before, at, start);
            }
            let segment = match self.pending.remove(&start) {
                Some(segment) => segment,
                None => {
                    assert(false);
                    break;
                },
            };
            assert(self@.pending =~= before.remove(start));
            assert(segment@ == before[start]);
            let seg_end: u64 = start + segment.len() as u64;
            if seg_end <= self.offset {
                continue;
            }
            let skip: usize = (self.offset - start) as usize;
            let (_, back) = segment.as_slice().split_at(skip);
            delivered.extend_from_slice(back);
            self.offset = seg_end;
            proof {
                let (more, left, reached) = drained(before.remove(start), seg_end as nat);
                assert(back@ =~= before[start].skip(at - start));
                assert(delivered@ =~= got + back@);
                assert(got + (back@ + more) =~= delivered@ + more);
            }
        }
        delivered
    }
}

proof fn lemma_floor_unique(pending: Segments, at: nat, k: u64)
    requires
        is_floor(pending, at, k),
    ensures
        k == choose|j: u64| is_floor(pending, at, j),
{
    let j = choose|j: u64| is_floor(pending, at, j);
    assert(is_floor(pending, at, j));
}

/// Delivery reaches the first offset that no segment covers, delivers exactly the
/// bytes up to it, and leaves exactly the segments that start beyond it.
pub proof fn law_drained_exact(pending: Segments, at: nat)
    requires
        pending.dom().finite(),
    ensures
        ({
            let (bytes, left, reached) = drained(pending, at);
            &&& reached == at + bytes.len()
            &&& forall|x: nat| at <= x < reached ==> covered(pending, x)
            &&& !covered(pending, reached)
            &&& forall|k: u64| #[trigger]
                left.contains_key(k) <==> pending.contains_key(k) && k > reached
            &&& forall|k: u64| #[trigger] left.contains_key(k) ==> left[k] == pending[k]
        }),
    decreases pending.dom().len(),
{
    if exists|k: u64| is_floor(pending, at, k) {
        let k = choose|k: u64| is_floor(pending, at, k);
        assert(is_floor(pending, at, k));
        let rest = pending.remove(k);
        let end = k as nat + pending[k].len();
        let to = if end <= at {
            at
        } else {
            end
        };
        law_drained_exact(rest, to);
        assert(drained(pending, at).2 == drained(rest, to).2);
        assert(drained(pending, at).1 == drained(rest, to).1);
        let reached = drained(pending, at).2;
        assert forall|x: nat| at <= x < reached implies covered(pending, x) by {
            if x < to {
                assert(pending.contains_key(k));
            } else {
                assert(covered(rest, x));
                let j = choose|j: u64| #[trigger]
                    rest.contains_key(j) && j <= x < j + rest[j].len();
                assert(pending.contains_key(j));
            }
        }
        if covered(pending, reached) {
            let j = choose|j: u64| #[trigger]
                pending.contains_key(j) && j <= reached < j + pending[j].len();
            assert(rest.contains_key(j));
        }
    } else {
        // Below a bound, a finite set of numbers with no greatest member is empty.
        assert forall|k: u64| pending.contains_key(k) implies k > at by {
            if k <= at {
                lemma_floor_exists(pending, at, k);
            }
        }
    }
}

/// Where a segment starts at or before `at`, one starts last.
proof fn lemma_floor_exists(pending: Segments, at: nat, k: u64)
    requires
        pending.contains_key(k),
        k <= at,
    ensures
        exists|j: u64| is_floor(pending, at, j),
    decreases u64::MAX - k,
{
    if !is_floor(pending, at, k) {
        let j = choose|j: u64| pending.contains_key(j) && j <= at && j > k;
        lemma_floor_exists(pending, at, j);
    }
}

/// Where every segment holds bytes of one stream, what is delivered is that stream
/// from the delivery point on.
pub proof fn law_drained_agrees(pending: Segments, at: nat, f: spec_fn(int) -> u8)
    requires
        pending.dom().finite(),
        agrees(pending, f),
    ensures
        ({
            let (bytes, left, reached) = drained(pending, at);
            &&& bytes =~= Seq::new(bytes.len(), |i: int| f(at + i))
            &&& agrees(left, f)
        }),
    decreases pending.dom().len(),
{
    if exists|k: u64| is_floor(pending, at, k) {
        let k = choose|k: u64| is_floor(pending, at, k);
        let rest = pending.remove(k);
        let end = k as nat + pending[k].len();
        assert(agrees(rest, f)) by {
            assert forall|j: u64, i: int|
                #![trigger rest[j][i]]
                rest.contains_key(j) && 0 <= i < rest[j].len() implies rest[j][i] == f(j + i) by {
                assert(rest[j][i] == pending[j][i]);
            }
        }
        if end <= at {
            law_drained_agrees(rest, at, f);
        } else {
            law_drained_agrees(rest, end, f);
            let (more, left, reached) = drained(rest, end);
            let bytes = pending[k].skip(at - k) + more;
            assert(bytes == drained(pending, at).0);
            assert forall|i: int| 0 <= i < bytes.len() implies bytes[i] == f(at + i) by {
                if i < end - at {
                    assert(bytes[i] == pending[k][at - k + i]);
                } else {
                    assert(bytes[i] == more[i - (end - at)]);
                }
            }
        }
    }
}

/// The state after taking in data is well formed: what waits lies beyond what has
/// been delivered.
pub proof fn law_accept_keeps_wf(r: Reassembly, offset: u64, data: Seq<u8>)
    requires
        r.wf(),
        offset + data.len() <= u64::MAX,
    ensures
        r.accepted(offset, data).1.wf(),
{
    if offset + data.len() > r.offset {
        let whole = r.with_segment(offset, data);
        law_drained_exact(whole, r.offset);
        let (bytes, left, reached) = drained(whole, r.offset);
        assert(left.dom().subset_of(whole.dom()));
        vstd::set_lib::lemma_len_subset(left.dom(), whole.dom());
        if bytes.len() > 0 {
            let x = (reached - 1) as nat;
            assert(covered(whole, x));
        }
        assert forall|k: u64| #[trigger] left.contains_key(k) implies reached < k && 0
            < left[k].len() && k + left[k].len() <= u64::MAX by {
            assert(whole.contains_key(k));
        }
    }
}

/// The delivery point moves on by exactly the bytes delivered, and never back.
pub proof fn law_delivery_contiguous(r: Reassembly, offset: u64, data: Seq<u8>)
    requires
        r.wf(),
        offset + data.len() <= u64::MAX,
    ensures
        r.accepted(offset, data).1.offset == r.offset + r.accepted(offset, data).0.len(),
{
    if offset + data.len() > r.offset {
        law_drained_exact(r.with_segment(offset, data), r.offset);
    }
}

/// What is delivered is the stream: if all that waits and all that comes in holds
/// bytes of `f`, the bytes delivered are those of `f` from the delivery point on,
/// whatever the order, overlap or repetition of the segments.
pub proof fn law_delivers_the_stream(
    r: Reassembly,
    offset: u64,
    data: Seq<u8>,
    f: spec_fn(int) -> u8,
)
    requires
        r.wf(),
        offset + data.len() <= u64::MAX,
        agrees(r.pending, f),
        forall|i: int| 0 <= i < data.len() ==> data[i] == f(offset + i),
    ensures
        r.accepted(offset, data).0 =~= Seq::new(
            r.accepted(offset, data).0.len(),
            |i: int| f(r.offset + i),
        ),
        agrees(r.accepted(offset, data).1.pending, f),
{
    if offset + data.len() > r.offset {
        let whole = r.with_segment(offset, data);
        assert(agrees(whole, f)) by {
            assert forall|j: u64, i: int|
                #![trigger whole[j][i]]
                whole.contains_key(j) && 0 <= i < whole[j].len() implies whole[j][i] == f(j + i) by {
                if data.len() > 0 && !r.duplicate(offset, data) && j == r.new_start(offset) {
                    assert(whole[j][i] == data[r.new_start(offset) - offset + i]);
                } else {
                    assert(whole[j][i] == r.pending[j][i]);
                }
            }
        }
        law_drained_agrees(whole, r.offset, f);
    }
}

/// Data that has all been delivered before changes nothing and delivers nothing.
pub proof fn law_old_data_dropped(r: Reassembly, offset: u64, data: Seq<u8>)
    requires
        offset + data.len() <= r.offset,
    ensures
        r.accepted(offset, data) == (Seq::<u8>::empty(), r),
{
}

/// Nothing that arrived is lost: the bytes delivered or held after taking in data
/// are those of before and those that came in.
pub proof fn law_nothing_lost(r: Reassembly, offset: u64, data: Seq<u8>)
    requires
        r.wf(),
        offset + data.len() <= u64::MAX,
    ensures
        forall|x: nat|
            #![trigger r.accepted(offset, data).1.has(x)]
            r.accepted(offset, data).1.has(x) <==> r.has(x) || offset <= x < offset + data.len(),
{
    let after = r.accepted(offset, data).1;
    if offset + data.len() > r.offset {
        let whole = r.with_segment(offset, data);
        let start = r.new_start(offset);
        law_drained_exact(whole, r.offset);
        assert forall|x: nat| after.has(x) <==> r.has(x) || offset <= x < offset + data.len() by {
            if after.has(x) && x >= r.offset {
                if x < after.offset {
                    assert(covered(whole, x));
                } else {
                    let k = choose|k: u64| #[trigger]
                        after.pending.contains_key(k) && k <= x < k + after.pending[k].len();
                    assert(whole.contains_key(k));
                }
                let k = choose|k: u64| #[trigger]
                    whole.contains_key(k) && k <= x < k + whole[k].len();
                if !(data.len() > 0 && k == start) {
                    assert(r.pending.contains_key(k));
                }
            }
            if (r.has(x) || offset <= x < offset + data.len()) && x >= after.offset {
                let k: u64 = if offset <= x < offset + data.len() {
                    start as u64
                } else {
                    choose|k: u64| #[trigger]
                        r.pending.contains_key(k) && k <= x < k + r.pending[k].len()
                };
                assert(whole.contains_key(k));
                assert(k <= x < k + whole[k].len());
                if k <= after.offset {
                    assert(whole.contains_key(k) && k <= after.offset < k + whole[k].len());
                    assert(covered(whole, after.offset));
                }
                assert(after.pending.contains_key(k));
            }
        }
    }
}

/// What has been delivered of several segments taken in one after the other, and the
/// state after them.
pub open spec fn accepted_all(r: Reassembly, segments: Seq<(u64, Seq<u8>)>) -> (
    Seq<u8>,
    Reassembly,
)
    decreases segments.len(),
{
    if segments.len() == 0 {
        (Seq::empty(), r)
    } else {
        let (before, at) = accepted_all(r, segments.drop_last());
        let (bytes, after) = at.accepted(segments.last().0, segments.last().1);
        (before + bytes, after)
    }
}

/// Whatever segments of a stream come in, and however often and in whatever order,
/// what has been delivered is the front of the stream, every byte once and in place.
pub proof fn law_stream_in_order(segments: Seq<(u64, Seq<u8>)>, f: spec_fn(int) -> u8)
    requires
        forall|j: int|
            0 <= j < segments.len() ==> (#[trigger] segments[j]).0 + segments[j].1.len()
                <= u64::MAX,
        forall|j: int, i: int|
            #![trigger segments[j].1[i]]
            0 <= j < segments.len() && 0 <= i < segments[j].1.len() ==> segments[j].1[i] == f(
                segments[j].0 + i,
            ),
    ensures
        ({
            let (bytes, after) = accepted_all(Reassembly::fresh(), segments);
            &&& after.wf()
            &&& agrees(after.pending, f)
            &&& bytes == Seq::new(after.offset, |i: int| f(i))
        }),
    decreases segments.len(),
{
    let (bytes, after) = accepted_all(Reassembly::fresh(), segments);
    if segments.len() == 0 {
        assert(bytes =~= Seq::new(after.offset, |i: int| f(i)));
    } else {
        let front = segments.drop_last();
        let (offset, data) = segments.last();
        assert forall|j: int, i: int|
            #![trigger front[j].1[i]]
            0 <= j < front.len() && 0 <= i < front[j].1.len() implies front[j].1[i] == f(
            front[j].0 + i,
        ) by {
            assert(front[j] == segments[j]);
            assert(segments[j].1[i] == f(segments[j].0 + i));
        }
        law_stream_in_order(front, f);
        let (before, at) = accepted_all(Reassembly::fresh(), front);
        let last = segments.len() - 1;
        assert forall|i: int| 0 <= i < data.len() implies data[i] == f(offset + i) by {
            assert(segments[last].1[i] == f(segments[last].0 + i));
        }
        law_accept_keeps_wf(at, offset, data);
        law_delivery_contiguous(at, offset, data);
        law_delivers_the_stream(at, offset, data, f);
        assert(bytes =~= Seq::new(after.offset, |i: int| f(i)));
    }
}

/// Whether one of the segments holds the byte at offset `x`.
pub open spec fn arrived(segments: Seq<(u64, Seq<u8>)>, x: nat) -> bool {
    exists|j: int|
        0 <= j < segments.len() && (#[trigger] segments[j]).0 <= x < segments[j].0
            + segments[j].1.len()
}

/// A byte is delivered or held exactly if one of the segments taken in holds it.
proof fn lemma_has_what_arrived(segments: Seq<(u64, Seq<u8>)>, x: nat)
    requires
        forall|j: int|
            0 <= j < segments.len() ==> (#[trigger] segments[j]).0 + segments[j].1.len()
                <= u64::MAX,
    ensures
        accepted_all(Reassembly::fresh(), segments).1.wf(),
        accepted_all(Reassembly::fresh(), segments).1.has(x) <==> arrived(segments, x),
    decreases segments.len(),
{
    if segments.len() > 0 {
        let front = segments.drop_last();
        let (offset, data) = segments.last();
        lemma_has_what_arrived(front, x);
        let at = accepted_all(Reassembly::fresh(), front).1;
        law_accept_keeps_wf(at, offset, data);
        law_nothing_lost(at, offset, data);
        assert(at.accepted(offset, data).1.has(x) <==> at.has(x) || offset <= x < offset
            + data.len());
        if arrived(front, x) {
            let j = choose|j: int|
                0 <= j < front.len() && (#[trigger] front[j]).0 <= x < front[j].0
                    + front[j].1.len();
            assert(segments[j] == front[j]);
        }
        if offset <= x < offset + data.len() {
            assert(segments[segments.len() - 1] == (offset, data));
        }
        if arrived(segments, x) {
            let j = choose|j: int|
                0 <= j < segments.len() && (#[trigger] segments[j]).0 <= x < segments[j].0
                    + segments[j].1.len();
            if j < front.len() {
                assert(front[j] == segments[j]);
            }
        }
    }
}

/// Delivery waits for missing bytes only: whatever segments came in, and in whatever
/// order, all bytes before the first one that is still missing have been delivered.
pub proof fn law_delivered_up_to_first_gap(segments: Seq<(u64, Seq<u8>)>)
    requires
        forall|j: int|
            0 <= j < segments.len() ==> (#[trigger] segments[j]).0 + segments[j].1.len()
                <= u64::MAX,
    ensures
        ({
            let reached = accepted_all(Reassembly::fresh(), segments).1.offset;
            &&& forall|x: nat| x < reached ==> #[trigger] arrived(segments, x)
            &&& !arrived(segments, reached)
        }),
{
    let after = accepted_all(Reassembly::fresh(), segments).1;
    assert forall|x: nat| x < after.offset implies #[trigger] arrived(segments, x) by {
        lemma_has_what_arrived(segments, x);
    }
    lemma_has_what_arrived(segments, after.offset);
}

} // verus!
