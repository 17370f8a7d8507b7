//! The two sides of a stream (RFC 9000 Sections 2 and 3).
use crate::reassembly::{
    agrees, law_delivers_the_stream, law_delivery_contiguous, Reassembler, Reassembly,
};
use std::collections::VecDeque;
use vstd::prelude::*;

verus! {

/// Why stream data is refused.
#[derive(Clone, Copy, Debug, PartialEq, Eq, Structural)]
pub enum StreamError {
    /// The data contradicts the final size of the stream (RFC 9000 Section 4.5).
    FinalSize,
}

/// The receiving side of a stream.
#[verifier::ext_equal]
pub struct RecvState {
    /// What has arrived.
    pub inbound: Reassembly,
    /// Bytes in order that the application has not read yet.
    pub unread: Seq<u8>,
    /// The end of the data that has arrived furthest on.
    pub highest: u64,
    /// The size of the whole stream, once known.
    pub final_size: Option<u64>,
    /// The code with which the peer reset the stream.
    pub reset: Option<u64>,
}

impl RecvState {
    /// Nothing received.
    pub open spec fn fresh() -> RecvState {
        RecvState {
            inbound: Reassembly::fresh(),
            unread: Seq::empty(),
            highest: 0,
            final_size: None,
            reset: None,
        }
    }

    /// What has arrived is kept in order.
    pub open spec fn wf(self) -> bool {
        self.inbound.wf()
    }

    /// Whether data up to `end`, with the stream ending there if `fin`, contradicts
    /// what is known of the final size: it must not lie beyond it, must not change
    /// it, and must not fix it below data that has arrived.
    pub open spec fn contradicts(self, end: u64, fin: bool) -> bool {
        match self.final_size {
            Some(size) => end > size || (fin && end != size),
            None => fin && end < self.highest,
        }
    }

    /// Whether all of the stream has been put in order.
    pub open spec fn complete(self) -> bool {
        self.final_size matches Some(size) && self.inbound.offset == size
    }

    /// After `data` at `offset`, ending the stream if `fin`.
    pub open spec fn with_data(self, offset: u64, data: Seq<u8>, fin: bool) -> RecvState {
        let end = (offset + data.len()) as u64;
        let (bytes, inbound) = self.inbound.accepted(offset, data);
        RecvState {
            inbound,
            unread: self.unread + bytes,
            highest: if end > self.highest {
                end
            } else {
                self.highest
            },
            final_size: if fin {
                Some(end)
            } else {
                self.final_size
            },
            ..self
        }
    }

    /// Whether `data` at `offset` gives the application something to read: bytes,
    /// or the end of the stream.
    pub open spec fn news(self, offset: u64, data: Seq<u8>, fin: bool) -> bool {
        let after = self.with_data(offset, data, fin);
        after.unread.len() > self.unread.len() || (after.complete() && !self.complete())
    }
}

/// The receiving side of a stream.
#[derive(Debug)]
pub struct RecvStream {
    inbound: Reassembler,
    unread: Vec<u8>,
    highest: u64,
    final_size: Option<u64>,
    reset: Option<u64>,
}

impl View for RecvStream {
    type V = RecvState;

    closed spec fn view(&self) -> RecvState {
        RecvState {
            inbound: self.inbound@,
            unread: self.unread@,
            highest: self.highest,
            final_size: self.final_size,
            reset: self.reset,
        }
    }
}

impl RecvStream {
    /// Nothing received.
    pub fn new() -> (s: RecvStream)
        ensures
            s@ == RecvState::fresh(),
            s@.wf(),
    {
        RecvStream {
            inbound: Reassembler::new(),
            unread: Vec::new(),
            highest: 0,
            final_size: None,
            reset: None,
        }
    }

    /// Whether the peer has reset the stream.
    pub fn is_reset(&self) -> (r: bool)
        ensures
            r == (self@.reset is Some),
    {
        self.reset.is_some()
    }

    /// The code with which the peer reset the stream.
    pub fn reset_code(&self) -> (code: Option<u64>)
        ensures
            code == self@.reset,
    {
        self.reset
    }

    /// Takes in `data` at `offset`, with the stream ending there if `fin`. Says
    /// whether the application has something new to read.
    ///
    /// # Errors
    /// [`StreamError::FinalSize`] where the data contradicts the final size; the
    /// stream is then unchanged.
    pub fn recv(&mut self, offset: u64, data: &[u8], fin: bool) -> (r: Result<bool, StreamError>)
        requires
            old(self)@.wf(),
            offset + data@.len() <= u64::MAX,
        ensures
            final(self)@.wf(),
            if old(self)@.contradicts((offset + data@.len()) as u64, fin) {
                r == Err::<bool, StreamError>(StreamError::FinalSize) && final(self)@ == old(self)@
            } else {
                &&& r == Ok::<bool, StreamError>(old(self)@.news(offset, data@, fin))
                &&& final(self)@ == old(self)@.with_data(offset, data@, fin)
            },
    {
        let end: u64 = offset + data.len() as u64;
        match self.final_size {
            Some(size) => {
                if end > size || (fin && end != size) {
                    return Err(StreamError::FinalSize);
                }
            },
            None => {
                if fin && end < self.highest {
                    return Err(StreamError::FinalSize);
                }
            },
        }
        let was_complete: bool = match self.final_size {
            Some(size) => self.inbound.offset() == size,
            None => false,
        };
        let bytes = self.inbound.accept(offset, data);
        self.unread.extend_from_slice(bytes.as_slice());
        assert(self.unread@ =~= old(self)@.unread + bytes@);
        if end > self.highest {
            self.highest = end;
        }
        if fin {
            self.final_size = Some(end);
        }
        let is_complete: bool = match self.final_size {
            Some(size) => self.inbound.offset() == size,
            None => false,
        };
        Ok(bytes.len() > 0 || (is_complete && !was_complete))
    }

    /// The peer reset the stream with `code`.
    pub fn apply_reset(&mut self, code: u64)
        ensures
            final(self)@ == (RecvState { reset: Some(code), ..old(self)@ }),
    {
        self.reset = Some(code);
    }

    /// Hands the bytes out that are in order and unread, and says whether the
    /// stream ends with them.
    pub fn read(&mut self) -> (r: (Vec<u8>, bool))
        ensures
            r.0@ == old(self)@.unread,
            r.1 == old(self)@.complete(),
            final(self)@ == (RecvState { unread: Seq::empty(), ..old(self)@ }),
    {
        let fin: bool = match self.final_size {
            Some(size) => self.inbound.offset() == size,
            None => false,
        };
        let mut bytes: Vec<u8> = Vec::new();
        std::mem::swap(&mut bytes, &mut self.unread);
        (bytes, fin)
    }
}

/// Stream data that goes out again after its packet was lost.
#[derive(Debug)]
pub struct StreamResend {
    /// The offset of the data.
    pub offset: u64,
    /// The data.
    pub data: Vec<u8>,
    /// Whether the stream ends with the data.
    pub fin: bool,
}

/// The sending side of a stream, as loss recovery and the peer's wishes see it.
#[verifier::ext_equal]
pub struct SendState {
    /// How many bytes the application has written.
    pub written: u64,
    /// Lost data in the order in which it goes out again: offset, data, end of the
    /// stream.
    pub resend: Seq<(u64, Seq<u8>, bool)>,
    /// The code with which the stream was reset.
    pub reset: Option<u64>,
}

impl SendState {
    /// Nothing written.
    pub open spec fn fresh() -> SendState {
        SendState { written: 0, resend: Seq::empty(), reset: None }
    }
}

/// The sending side of a stream.
#[derive(Debug)]
pub struct SendStream {
    written: u64,
    resend: VecDeque<StreamResend>,
    reset: Option<u64>,
}

spec fn resend_views(resend: Seq<StreamResend>) -> Seq<(u64, Seq<u8>, bool)> {
    resend.map_values(|s: StreamResend| (s.offset, s.data@, s.fin))
}

impl View for SendStream {
    type V = SendState;

    closed spec fn view(&self) -> SendState {
        SendState { written: self.written, resend: resend_views(self.resend@), reset: self.reset }
    }
}

impl SendStream {
    /// Nothing written.
    pub fn new() -> (s: SendStream)
        ensures
            s@ == SendState::fresh(),
    {
        let s = SendStream { written: 0, resend: VecDeque::new(), reset: None };
        assert(s@.resend =~= Seq::empty());
        s
    }

    /// The application wrote `n` more bytes.
    pub fn on_written(&mut self, n: u64)
        requires
            old(self)@.written + n <= u64::MAX,
        ensures
            final(self)@ == (SendState { written: (old(self)@.written + n) as u64, ..old(self)@ }),
    {
        self.written = self.written + n;
    }

    /// Queues lost data to go out again.
    pub fn requeue(&mut self, offset: u64, data: Vec<u8>, fin: bool)
        ensures
            final(self)@ == (SendState {
                resend: old(self)@.resend.push((offset, data@, fin)),
                ..old(self)@
            }),
    {
        self.resend.push_back(StreamResend { offset, data, fin });
        assert(self@.resend =~= old(self)@.resend.push((offset, data@, fin)));
    }

    /// The lost data that goes out again next.
    pub fn take_resend(&mut self) -> (r: Option<StreamResend>)
        ensures
            match r {
                Some(s) => {
                    &&& old(self)@.resend.len() > 0
                    &&& (s.offset, s.data@, s.fin) == old(self)@.resend[0]
                    &&& final(self)@ == (SendState {
                        resend: old(self)@.resend.drop_first(),
                        ..old(self)@
                    })
                },
                None => old(self)@.resend.len() == 0 && final(self)@ == old(self)@,
            },
    {
        let r = self.resend.pop_front();
        assert(old(self)@.resend.len() > 0 ==> self@.resend =~= old(self)@.resend.drop_first());
        r
    }

    /// Whether the stream was reset.
    pub fn is_reset(&self) -> (r: bool)
        ensures
            r == (self@.reset is Some),
    {
        self.reset.is_some()
    }

    /// The code with which the stream was reset.
    pub fn reset_code(&self) -> (code: Option<u64>)
        ensures
            code == self@.reset,
    {
        self.reset
    }

    /// The size of the stream if it ended now.
    pub fn final_size(&self) -> (n: u64)
        ensures
            n == self@.written,
    {
        self.written
    }

    /// Resets the stream: nothing more goes out on it.
    pub fn reset(&mut self, code: u64)
        ensures
            final(self)@ == (SendState {
                reset: Some(code),
                resend: Seq::empty(),
                ..old(self)@
            }),
    {
        self.reset = Some(code);
        self.resend.clear();
        assert(self@.resend =~= Seq::empty());
    }
}

/// The final size of a stream never changes once it is known, and no data beyond it
/// is taken in.
pub proof fn law_final_size_fixed(s: RecvState, offset: u64, data: Seq<u8>, fin: bool)
    requires
        s.final_size is Some,
        offset + data.len() <= u64::MAX,
        !s.contradicts((offset + data.len()) as u64, fin),
    ensures
        s.with_data(offset, data, fin).final_size == s.final_size,
        offset + data.len() <= s.final_size->Some_0,
{
}

/// The application reads the stream: if what waits and what comes in holds bytes of
/// `f`, the bytes added to those it can read are those of `f` from the delivery point
/// on, and the delivery point moves past them.
pub proof fn law_reads_the_stream(
    s: RecvState,
    offset: u64,
    data: Seq<u8>,
    fin: bool,
    f: spec_fn(int) -> u8,
)
    requires
        s.wf(),
        offset + data.len() <= u64::MAX,
        agrees(s.inbound.pending, f),
        forall|i: int| 0 <= i < data.len() ==> data[i] == f(offset + i),
    ensures
        ({
            let after = s.with_data(offset, data, fin);
            let n = after.inbound.offset - s.inbound.offset;
            &&& n >= 0
            &&& after.unread == s.unread + Seq::new(
                n as nat,
                |i: int| f(s.inbound.offset + i),
            )
            &&& agrees(after.inbound.pending, f)
        }),
{
    law_delivers_the_stream(s.inbound, offset, data, f);
    law_delivery_contiguous(s.inbound, offset, data);
    let after = s.with_data(offset, data, fin);
    let n = after.inbound.offset - s.inbound.offset;
    assert(after.unread =~= s.unread + Seq::new(n as nat, |i: int| f(s.inbound.offset + i)));
}

} // verus!
