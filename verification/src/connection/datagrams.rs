//! Unreliable datagrams received (RFC 9221).
use crate::error::{
    append_decimal, decimal, transport_error, ErrorView, OxiQuicError, TransportErrorCode,
};
use crate::types::copy_bytes;
use std::collections::VecDeque;
use vstd::prelude::*;
use vstd::string::StringExecFns;

verus! {

/// The bytes of these datagrams together.
pub open spec fn total_len(queue: Seq<Seq<u8>>) -> nat
    decreases queue.len(),
{
    if queue.len() == 0 {
        0
    } else {
        total_len(queue.drop_last()) + queue.last().len()
    }
}

/// Datagrams received and not handed out yet.
#[verifier::ext_equal]
pub struct DatagramState {
    /// The largest datagram that is taken, zero for none.
    pub local_max: u64,
    /// How many bytes are kept.
    pub limit: usize,
    /// The datagrams, oldest first.
    pub queue: Seq<Seq<u8>>,
}

impl DatagramState {
    /// Why a datagram is refused.
    pub open spec fn fault(self, len: nat) -> Option<ErrorView> {
        if self.local_max == 0 {
            Some(
                ErrorView::TransportError(
                    TransportErrorCode::ProtocolViolation,
                    None,
                    "received DATAGRAM but local max_datagram_frame_size is 0"@,
                ),
            )
        } else if len > self.local_max {
            Some(
                ErrorView::TransportError(
                    TransportErrorCode::ProtocolViolation,
                    None,
                    "DATAGRAM "@ + decimal(len) + " bytes exceeds local max "@ + decimal(
                        self.local_max as nat,
                    ),
                ),
            )
        } else {
            None
        }
    }

    /// Whether `len` more bytes are too many to keep with what is there.
    pub open spec fn overfull(self, len: nat) -> bool {
        total_len(self.queue) + len > self.limit
    }

    /// After a datagram that is not refused: the oldest one makes room if needed.
    pub open spec fn with_datagram(self, data: Seq<u8>) -> DatagramState {
        DatagramState {
            queue: if self.overfull(data.len()) && self.queue.len() > 0 {
                self.queue.drop_first().push(data)
            } else {
                self.queue.push(data)
            },
            ..self
        }
    }
}

/// Datagrams received and not handed out yet.
#[derive(Debug)]
pub struct DatagramQueue {
    local_max: u64,
    limit: usize,
    queue: VecDeque<Vec<u8>>,
}

spec fn queue_views(queue: Seq<Vec<u8>>) -> Seq<Seq<u8>> {
    queue.map_values(|d: Vec<u8>| d@)
}

impl View for DatagramQueue {
    type V = DatagramState;

    closed spec fn view(&self) -> DatagramState {
        DatagramState {
            local_max: self.local_max,
            limit: self.limit,
            queue: queue_views(self.queue@),
        }
    }
}

proof fn lemma_total_len_take(queue: Seq<Seq<u8>>, n: int)
    requires
        0 <= n <= queue.len(),
    ensures
        total_len(queue.take(n)) <= total_len(queue),
    decreases queue.len(),
{
    if n < queue.len() {
        lemma_total_len_take(queue.drop_last(), n);
        assert(queue.drop_last().take(n) =~= queue.take(n));
    } else {
        assert(queue.take(n) =~= queue);
    }
}

impl DatagramQueue {
    /// Datagrams of up to `local_max` bytes are taken, and about `limit` bytes kept.
    pub fn new(local_max: u64, limit: usize) -> (q: DatagramQueue)
        ensures
            q@ == (DatagramState { local_max, limit, queue: Seq::empty() }),
    {
        let q = DatagramQueue { local_max, limit, queue: VecDeque::new() };
        assert(q@.queue =~= Seq::empty());
        q
    }

    /// Whether `len` more bytes are too many to keep with what is there.
    fn overfull(&self, len: usize) -> (over: bool)
        ensures
            over == self@.overfull(len as nat),
    {
        if len > self.limit {
            return true;
        }
        let mut room: usize = self.limit - len;
        let ghost all = self@.queue;
        let mut i: usize = 0;
        assert(all.take(0) =~= Seq::empty());
        while i < self.queue.len()
            invariant
                i <= self.queue@.len(),
                all == queue_views(self.queue@),
                all == self@.queue,
                total_len(all.take(i as int)) + room + len == self.limit,
            decreases self.queue@.len() - i,
        {
            proof {
                assert(all.take(i + 1).drop_last() =~= all.take(i as int));
                assert(all[i as int] == self.queue@[i as int]@);
                lemma_total_len_take(all, i + 1);
            }
            let n: usize = self.queue[i].len();
            if n > room {
                return true;
            }
            room = room - n;
            i = i + 1;
        }
        assert(all.take(all.len() as int) =~= all);
        false
    }

    /// Takes in a datagram; the oldest one makes room if the buffer is full.
    ///
    /// # Errors
    /// PROTOCOL_VIOLATION if no datagrams are taken (RFC 9221 Section 3), or none as
    /// large as this one.
    pub fn recv(&mut self, data: &[u8]) -> (r: Result<(), OxiQuicError>)
        ensures
            match old(self)@.fault(data@.len()) {
                Some(error) => r matches Err(e) && e@ == error && final(self)@ == old(self)@,
                None => r is Ok && final(self)@ == old(self)@.with_datagram(data@),
            },
    {
        if self.local_max == 0 {
            return Err(
                transport_error(
                    TransportErrorCode::ProtocolViolation,
                    "received DATAGRAM but local max_datagram_frame_size is 0",
                ),
            );
        }
        if data.len() as u64 > self.local_max {
            let mut reason = String::from_str("DATAGRAM ");
            append_decimal(&mut reason, data.len() as u64);
            reason.append(" bytes exceeds local max ");
            append_decimal(&mut reason, self.local_max);
            return Err(
                OxiQuicError::TransportError {
                    code: TransportErrorCode::ProtocolViolation,
                    frame_type: None,
                    reason,
                },
            );
        }
        // Enqueue, evicting the oldest datagram if the buffer is full.

        if self.overfull(data.len()) {
            let _ = self.queue.pop_front();
        }
        self.queue.push_back(copy_bytes(data));
        assert(self@.queue =~= old(self)@.with_datagram(data@).queue);
        Ok(())
    }

    /// The oldest datagram.
    pub fn pop(&mut self) -> (data: Option<Vec<u8>>)
        ensures
            match data {
                Some(d) => {
                    &&& old(self)@.queue.len() > 0
                    &&& d@ == old(self)@.queue[0]
                    &&& final(self)@ == (DatagramState {
                        queue: old(self)@.queue.drop_first(),
                        ..old(self)@
                    })
                },
                None => old(self)@.queue.len() == 0 && final(self)@ == old(self)@,
            },
    {
        let data = self.queue.pop_front();
        assert(old(self)@.queue.len() > 0 ==> self@.queue =~= old(self)@.queue.drop_first());
        data
    }
}

/// A datagram that is taken is the newest in the queue, the others stay in order,
/// and at most the oldest is dropped for it.
pub proof fn law_newest_kept(d: DatagramState, data: Seq<u8>)
    ensures
        d.with_datagram(data).queue.last() == data,
        d.with_datagram(data).queue.len() >= d.queue.len(),
        !d.overfull(data.len()) ==> d.with_datagram(data).queue == d.queue.push(data),
{
}

} // verus!
