//! CRYPTO-stream buffering for the TLS handshake (RFC 9000 Section 7.5, 19.6).
//!
//! Each packet-number space carries its own ordered byte stream of `CRYPTO`
//! frame data feeding the TLS session. [`CryptoStream`] reassembles
//! out-of-order `CRYPTO` frames into the contiguous prefix that can be delivered
//! to TLS, and buffers outgoing handshake bytes so they can be chunked into
//! `CRYPTO` frames as space permits.
use crate::reassembly::{Reassembler, Reassembly};
use std::collections::VecDeque;
use vstd::prelude::*;

verus! {

/// A CRYPTO segment awaiting retransmission after its carrying packet was lost
/// (RFC 9002 Section 6.2): resent at its original offset.
#[derive(Debug)]
struct ResendSegment {
    offset: u64,
    data: Vec<u8>,
}

/// Bytes with the offset of the first of them.
pub type Segment = (u64, Seq<u8>);

/// The bytes of a segment, each with its offset.
pub open spec fn tagged(segment: Segment) -> Seq<(int, u8)> {
    Seq::new(segment.1.len(), |i: int| (segment.0 + i, segment.1[i]))
}

/// The bytes of several segments in turn, each with its offset.
pub open spec fn all_tagged(segments: Seq<Segment>) -> Seq<(int, u8)>
    decreases segments.len(),
{
    if segments.len() == 0 {
        Seq::empty()
    } else {
        tagged(segments[0]) + all_tagged(segments.drop_first())
    }
}

/// The state of a CRYPTO stream.
#[verifier::ext_equal]
pub struct CryptoState {
    /// The receiving side.
    pub recv: Reassembly,
    /// Lost segments in the order in which they go out again.
    pub resend: Seq<Segment>,
    /// Bytes not sent yet.
    pub send_buf: Seq<u8>,
    /// The offset of the first byte not sent yet.
    pub send_base: u64,
}

impl CryptoState {
    /// Nothing received, nothing to send.
    pub open spec fn fresh() -> CryptoState {
        CryptoState {
            recv: Reassembly::fresh(),
            resend: Seq::empty(),
            send_buf: Seq::empty(),
            send_base: 0,
        }
    }

    /// Every byte has an offset within range.
    pub open spec fn wf(self) -> bool {
        &&& self.recv.wf()
        &&& self.send_base + self.send_buf.len() <= u64::MAX
        &&& forall|i: int|
            0 <= i < self.resend.len() ==> (#[trigger] self.resend[i]).0 + self.resend[i].1.len()
                <= u64::MAX
    }

    /// How many more bytes have an offset within range.
    pub open spec fn room(self) -> int {
        u64::MAX - self.send_base - self.send_buf.len()
    }

    /// After more bytes to send.
    pub open spec fn enqueued(self, data: Seq<u8>) -> CryptoState {
        CryptoState { send_buf: self.send_buf + data, ..self }
    }

    /// After a segment was lost.
    pub open spec fn requeued(self, segment: Segment) -> CryptoState {
        CryptoState { resend: self.resend.push(segment), ..self }
    }

    /// Whether anything waits to be sent.
    pub open spec fn has_send_data(self) -> bool {
        self.resend.len() > 0 || self.send_buf.len() > 0
    }

    /// The next segment of at most `max` bytes: the front of what was lost first,
    /// else of what is new.
    pub open spec fn next_segment(self, max: nat) -> Option<Segment> {
        if max == 0 || !self.has_send_data() {
            None
        } else if self.resend.len() > 0 {
            if self.resend[0].1.len() <= max {
                Some(self.resend[0])
            } else {
                Some((self.resend[0].0, self.resend[0].1.take(max as int)))
            }
        } else if self.send_buf.len() <= max {
            Some((self.send_base, self.send_buf))
        } else {
            Some((self.send_base, self.send_buf.take(max as int)))
        }
    }

    /// After the next segment was taken.
    pub open spec fn after_next_segment(self, max: nat) -> CryptoState {
        if max == 0 || !self.has_send_data() {
            self
        } else if self.resend.len() > 0 {
            let front = self.resend[0];
            if front.1.len() <= max {
                CryptoState { resend: self.resend.drop_first(), ..self }
            } else {
                CryptoState {
                    resend: self.resend.update(
                        0,
                        ((front.0 + max) as u64, front.1.skip(max as int)),
                    ),
                    ..self
                }
            }
        } else {
            let n = if self.send_buf.len() <= max {
                self.send_buf.len()
            } else {
                max
            };
            CryptoState {
                send_buf: self.send_buf.skip(n as int),
                send_base: (self.send_base + n) as u64,
                ..self
            }
        }
    }

    /// Every byte that waits to be sent, with its offset, in the order of sending.
    pub open spec fn outgoing(self) -> Seq<(int, u8)> {
        all_tagged(self.resend) + tagged((self.send_base, self.send_buf))
    }
}

/// Ordered reassembly + send buffering for one space's CRYPTO stream.
#[derive(Debug)]
pub struct CryptoStream {
    /// Received segments and the offset delivered to TLS.
    recv: Reassembler,
    /// Outbound handshake bytes not yet sent in a CRYPTO frame.
    send_buf: Vec<u8>,
    /// Absolute offset of the first byte currently in `send_buf`.
    send_base: u64,
    /// Lost CRYPTO segments to retransmit ahead of fresh data (RFC 9002 6.2).
    resend: VecDeque<ResendSegment>,
}

spec fn segments_of(resend: Seq<ResendSegment>) -> Seq<Segment> {
    resend.map_values(|s: ResendSegment| (s.offset, s.data@))
}

impl View for CryptoStream {
    type V = CryptoState;

    closed spec fn view(&self) -> CryptoState {
        CryptoState {
            recv: self.recv@,
            resend: segments_of(self.resend@),
            send_buf: self.send_buf@,
            send_base: self.send_base,
        }
    }
}

impl Default for CryptoStream {
    fn default() -> (s: CryptoStream)
        ensures
            s@ == CryptoState::fresh(),
            s@.wf(),
    {
        let s = CryptoStream {
            recv: Reassembler::new(),
            send_buf: Vec::new(),
            send_base: 0,
            resend: VecDeque::new(),
        };
        assert(s@.resend =~= Seq::empty());
        s
    }
}

impl CryptoStream {
    /// Create an empty CRYPTO stream.
    #[must_use]
    pub fn new() -> (s: Self)
        ensures
            s@ == CryptoState::fresh(),
            s@.wf(),
    {
        Self::default()
    }

    /// Accept a received `CRYPTO` frame at `offset`, returning the newly
    /// contiguous bytes (if any) to hand to TLS.
    ///
    /// Duplicated or already-delivered data is dropped; gaps are buffered until
    /// the missing prefix arrives.
    #[must_use]
    pub fn recv(&mut self, offset: u64, data: &[u8]) -> (bytes: Option<Vec<u8>>)
        requires
            old(self)@.wf(),
            offset + data@.len() <= u64::MAX,
        ensures
            final(self)@.wf(),
            final(self)@ == (CryptoState {
                recv: old(self)@.recv.accepted(offset, data@).1,
                ..old(self)@
            }),
            match bytes {
                Some(b) => b@.len() > 0 && b@ == old(self)@.recv.accepted(offset, data@).0,
                None => old(self)@.recv.accepted(offset, data@).0.len() == 0,
            },
    {
        let delivered = self.recv.accept(offset, data);
        if delivered.is_empty() {
            None
        } else {
            Some(delivered)
        }
    }

    /// How many more bytes can be queued.
    pub fn room(&self) -> (n: u64)
        requires
            self@.wf(),
        ensures
            n == self@.room(),
    {
        u64::MAX - self.send_base - self.send_buf.len() as u64
    }

    /// Queue outbound handshake bytes.
    pub fn enqueue_send(&mut self, data: &[u8])
        requires
            old(self)@.wf(),
            data@.len() <= old(self)@.room(),
        ensures
            final(self)@.wf(),
            final(self)@ == old(self)@.enqueued(data@),
    {
        self.send_buf.extend_from_slice(data);
        assert(self@ =~= old(self)@.enqueued(data@));
    }

    /// Whether there are outbound CRYPTO bytes awaiting transmission, including
    /// segments queued for retransmission.
    #[must_use]
    pub fn has_send_data(&self) -> (has: bool)
        ensures
            has == self@.has_send_data(),
    {
        self.resend.len() != 0 || !self.send_buf.is_empty()
    }

    /// Re-queue a lost CRYPTO segment for retransmission at `offset` (RFC 9002
    /// Section 6.2). Retransmitted data is emitted before fresh send data.
    pub fn requeue(&mut self, offset: u64, data: Vec<u8>)
        requires
            old(self)@.wf(),
            offset + data@.len() <= u64::MAX,
        ensures
            final(self)@.wf(),
            final(self)@ == old(self)@.requeued((offset, data@)),
    {
        self.resend.push_back(ResendSegment { offset, data });
        assert(self@.resend =~= old(self)@.resend.push((offset, data@)));
    }

    /// Take up to `max` bytes of outbound data as the next CRYPTO frame body,
    /// returning `(offset, bytes)`. Retransmittable segments are emitted first
    /// at their original offset; otherwise fresh buffered data is chunked,
    /// advancing the send cursor.
    #[must_use]
    pub fn take_send(&mut self, max: usize) -> (segment: Option<(u64, Vec<u8>)>)
        requires
            old(self)@.wf(),
        ensures
            final(self)@.wf(),
            final(self)@ == old(self)@.after_next_segment(max as nat),
            match segment {
                Some((offset, bytes)) => old(self)@.next_segment(max as nat) == Some(
                    (offset, bytes@),
                ),
                None => old(self)@.next_segment(max as nat) is None,
            },
    {
        if max == 0 {
            return None;
        }
        // Retransmit lost segments first, splitting if larger than `max`.

        let ghost before = self.resend@;
        match self.resend.pop_front() {
            Some(front) => {
                assert(old(self)@.resend[0] == (front.offset, front.data@));
                let offset: u64 = front.offset;
                let mut chunk = front.data;
                if chunk.len() <= max {
                    assert(self@.resend =~= old(self)@.resend.drop_first());
                    return Some((offset, chunk));
                }
                let rest = chunk.split_off(max);
                let ghost rest_bytes = rest@;
                self.resend.push_front(ResendSegment { offset: offset + max as u64, data: rest });
                assert(self@.resend =~= old(self)@.resend.update(
                    0,
                    ((offset + max) as u64, rest_bytes),
                ));
                return Some((offset, chunk));
            },
            None => {},
        }
        if self.send_buf.is_empty() {
            return None;
        }
        let take: usize = if max <= self.send_buf.len() {
            max
        } else {
            self.send_buf.len()
        };
        let mut chunk = self.send_buf.split_off(take);
        std::mem::swap(&mut chunk, &mut self.send_buf);
        let offset: u64 = self.send_base;
        self.send_base = self.send_base + take as u64;
        assert(chunk@ =~= old(self)@.next_segment(max as nat)->Some_0.1);
        assert(self@ =~= old(self)@.after_next_segment(max as nat));
        Some((offset, chunk))
    }
}

/// A segment cut in two is sent as the two parts.
proof fn lemma_tagged_cut(segment: Segment, n: nat)
    requires
        n <= segment.1.len(),
        segment.0 + segment.1.len() <= u64::MAX,
    ensures
        tagged(segment) =~= tagged((segment.0, segment.1.take(n as int))) + tagged(
            ((segment.0 + n) as u64, segment.1.skip(n as int)),
        ),
{
}

/// Sending is lossless and in order: the segment taken is the front of all that
/// waits to be sent, byte by byte and offset by offset, and what waits afterwards
/// is the rest. It holds no more than `max` bytes, and one is taken whenever
/// anything waits.
pub proof fn law_take_send_in_order(s: CryptoState, max: nat)
    requires
        s.wf(),
        max > 0,
    ensures
        s.next_segment(max) is Some <==> s.has_send_data(),
        s.next_segment(max) is None ==> s.outgoing().len() == 0,
        s.next_segment(max) matches Some(segment) ==> {
            &&& segment.1.len() <= max
            &&& s.outgoing() =~= tagged(segment) + s.after_next_segment(max).outgoing()
        },
        s.after_next_segment(max).wf(),
{
    if s.resend.len() > 0 {
        let front = s.resend[0];
        if front.1.len() > max {
            lemma_tagged_cut(front, max);
            let after = s.after_next_segment(max).resend;
            assert(after.drop_first() =~= s.resend.drop_first());
        }
    } else if s.send_buf.len() > 0 {
        let n = if s.send_buf.len() <= max {
            s.send_buf.len()
        } else {
            max
        };
        lemma_tagged_cut((s.send_base, s.send_buf), n);
        assert(s.send_buf.take(s.send_buf.len() as int) =~= s.send_buf);
    }
}

/// Lost data goes out before fresh data: as long as a lost segment waits, bytes to
/// send that are queued meanwhile do not change what is taken.
pub proof fn law_resend_before_fresh(s: CryptoState, data: Seq<u8>, max: nat)
    requires
        s.resend.len() > 0,
        s.send_base + s.send_buf.len() + data.len() <= u64::MAX,
    ensures
        s.enqueued(data).next_segment(max) == s.next_segment(max),
        s.enqueued(data).outgoing() =~= s.outgoing() + tagged(
            ((s.send_base + s.send_buf.len()) as u64, data),
        ),
{
}

/// Handshake bytes form one stream: queueing them in two parts is queueing them at once,
/// queueing nothing changes nothing, and what has been received does not matter to it.
pub proof fn law_enqueue_joins(c: CryptoState, a: Seq<u8>, b: Seq<u8>)
    ensures
        c.enqueued(a).enqueued(b) == c.enqueued(a + b),
        c.enqueued(Seq::empty()) == c,
        c.enqueued(a).recv == c.recv,
        c.enqueued(a).resend == c.resend,
{
    assert(c.send_buf + a + b =~= c.send_buf + (a + b));
    assert(c.send_buf + Seq::<u8>::empty() =~= c.send_buf);
}

} // verus!
