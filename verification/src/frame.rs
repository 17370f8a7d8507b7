//! Frames: what QUIC packets carry (RFC 9000 Section 19, RFC 9221 Section 4).
use crate::coding::{
    lemma_take_bytes, lemma_take_varint, put_bytes, put_varint, take_bytes, take_u8, take_varint,
    varint_bytes, Buf, VARINT_LIMIT,
};
use crate::error::TransportErrorCode;
use crate::types::{copy_bytes, ConnectionId, Direction};
use vstd::prelude::*;

verus! {

/// The most streams of one kind that can ever be opened (RFC 9000 Section 4.6).
pub const MAX_STREAM_COUNT: u64 = 0x1000_0000_0000_0000;

/// The longest connection identifier (RFC 9000 Section 17.2).
pub const MAX_CID_LEN: usize = 20;

/// One further range of an ACK frame (RFC 9000 Section 19.3.1).
#[derive(Clone, Copy, Debug, PartialEq, Eq, Structural)]
pub struct AckRange {
    /// Unacknowledged packets before the range, less one.
    pub gap: u64,
    /// Acknowledged packets in the range, less one.
    pub range: u64,
}

/// A frame that borrows its data from the packet it was read from.
#[derive(Debug)]
#[allow(inconsistent_fields)]
pub enum Frame<'a> {
    /// 0x00: as many bytes of padding.
    Padding(usize),
    /// 0x01
    Ping,
    /// 0x02, 0x03
    Ack {
        /// The largest packet number acknowledged.
        largest: u64,
        /// The delay of the acknowledgement, scaled down by the sender's exponent.
        delay: u64,
        /// Packets acknowledged before the largest without a gap.
        first_range: u64,
        /// Further ranges, downwards.
        ranges: Vec<AckRange>,
    },
    /// 0x04
    ResetStream {
        /// The stream that is abandoned.
        stream_id: u64,
        /// The application's reason.
        error_code: u64,
        /// How many bytes were sent on the stream.
        final_size: u64,
    },
    /// 0x05
    StopSending {
        /// The stream whose data is no longer read.
        stream_id: u64,
        /// The application's reason.
        error_code: u64,
    },
    /// 0x06
    Crypto {
        /// The offset of the data in the handshake stream.
        offset: u64,
        /// Handshake data.
        data: &'a [u8],
    },
    /// 0x07
    NewToken(&'a [u8]),
    /// 0x08 to 0x0f
    Stream {
        /// The stream.
        id: u64,
        /// The offset of the data in the stream.
        offset: u64,
        /// Whether the stream ends with this data.
        fin: bool,
        /// Stream data.
        data: &'a [u8],
    },
    /// 0x10
    MaxData(u64),
    /// 0x11
    MaxStreamData {
        /// The stream.
        id: u64,
        /// The new limit.
        max: u64,
    },
    /// 0x12, 0x13
    MaxStreams {
        /// The kind of streams.
        dir: Direction,
        /// The new limit.
        max: u64,
    },
    /// 0x14
    DataBlocked(u64),
    /// 0x15
    StreamDataBlocked {
        /// The stream.
        id: u64,
        /// The limit at which the peer is blocked.
        limit: u64,
    },
    /// 0x16, 0x17
    StreamsBlocked {
        /// The kind of streams.
        dir: Direction,
        /// The limit at which the peer is blocked.
        limit: u64,
    },
    /// 0x18
    NewConnectionId {
        /// The sequence number of the identifier.
        seq: u64,
        /// Identifiers with a lower sequence number are to be retired.
        retire_prior_to: u64,
        /// The identifier.
        cid: ConnectionId,
        /// What a stateless reset of this identifier ends with.
        stateless_reset_token: [u8; 16],
    },
    /// 0x19
    RetireConnectionId {
        /// The sequence number of the identifier that is no longer used.
        seq: u64,
    },
    /// 0x1a
    PathChallenge([u8; 8]),
    /// 0x1b
    PathResponse([u8; 8]),
    /// 0x1c, 0x1d
    ConnectionClose {
        /// The error code.
        error_code: u64,
        /// Whether the application closed the connection.
        application: bool,
        /// The type of the frame at fault, zero if unknown; always zero for the
        /// application.
        frame_type: u64,
        /// The reason, for people.
        reason: Vec<u8>,
    },
    /// 0x1e
    HandshakeDone,
    /// 0x30, 0x31
    Datagram(&'a [u8]),
    /// A frame of an extension that this endpoint does not act on. Never decoded:
    /// the length of such a frame is not known.
    Unsupported(u64),
}

/// A frame with its data as sequences.
#[verifier::ext_equal]
#[allow(inconsistent_fields)]
pub enum FrameView {
    /// See [`Frame::Padding`].
    Padding(nat),
    /// See [`Frame::Ping`].
    Ping,
    /// See [`Frame::Ack`].
    Ack { largest: u64, delay: u64, first_range: u64, ranges: Seq<AckRange> },
    /// See [`Frame::ResetStream`].
    ResetStream { stream_id: u64, error_code: u64, final_size: u64 },
    /// See [`Frame::StopSending`].
    StopSending { stream_id: u64, error_code: u64 },
    /// See [`Frame::Crypto`].
    Crypto { offset: u64, data: Seq<u8> },
    /// See [`Frame::NewToken`].
    NewToken(Seq<u8>),
    /// See [`Frame::Stream`].
    Stream { id: u64, offset: u64, fin: bool, data: Seq<u8> },
    /// See [`Frame::MaxData`].
    MaxData(u64),
    /// See [`Frame::MaxStreamData`].
    MaxStreamData { id: u64, max: u64 },
    /// See [`Frame::MaxStreams`].
    MaxStreams { dir: Direction, max: u64 },
    /// See [`Frame::DataBlocked`].
    DataBlocked(u64),
    /// See [`Frame::StreamDataBlocked`].
    StreamDataBlocked { id: u64, limit: u64 },
    /// See [`Frame::StreamsBlocked`].
    StreamsBlocked { dir: Direction, limit: u64 },
    /// See [`Frame::NewConnectionId`].
    NewConnectionId { seq: u64, retire_prior_to: u64, cid: Seq<u8>, token: Seq<u8> },
    /// See [`Frame::RetireConnectionId`].
    RetireConnectionId { seq: u64 },
    /// See [`Frame::PathChallenge`].
    PathChallenge(Seq<u8>),
    /// See [`Frame::PathResponse`].
    PathResponse(Seq<u8>),
    /// See [`Frame::ConnectionClose`].
    ConnectionClose { error_code: u64, application: bool, frame_type: u64, reason: Seq<u8> },
    /// See [`Frame::HandshakeDone`].
    HandshakeDone,
    /// See [`Frame::Datagram`].
    Datagram(Seq<u8>),
    /// See [`Frame::Unsupported`].
    Unsupported(u64),
}

impl<'a> View for Frame<'a> {
    type V = FrameView;

    open spec fn view(&self) -> FrameView {
        match *self {
            Frame::Padding(n) => FrameView::Padding(n as nat),
            Frame::Ping => FrameView::Ping,
            Frame::Ack { largest, delay, first_range, ranges } => FrameView::Ack {
                largest,
                delay,
                first_range,
                ranges: ranges@,
            },
            Frame::ResetStream { stream_id, error_code, final_size } => FrameView::ResetStream {
                stream_id,
                error_code,
                final_size,
            },
            Frame::StopSending { stream_id, error_code } => FrameView::StopSending {
                stream_id,
                error_code,
            },
            Frame::Crypto { offset, data } => FrameView::Crypto { offset, data: data@ },
            Frame::NewToken(token) => FrameView::NewToken(token@),
            Frame::Stream { id, offset, fin, data } => FrameView::Stream {
                id,
                offset,
                fin,
                data: data@,
            },
            Frame::MaxData(max) => FrameView::MaxData(max),
            Frame::MaxStreamData { id, max } => FrameView::MaxStreamData { id, max },
            Frame::MaxStreams { dir, max } => FrameView::MaxStreams { dir, max },
            Frame::DataBlocked(limit) => FrameView::DataBlocked(limit),
            Frame::StreamDataBlocked { id, limit } => FrameView::StreamDataBlocked { id, limit },
            Frame::StreamsBlocked { dir, limit } => FrameView::StreamsBlocked { dir, limit },
            Frame::NewConnectionId {
                seq,
                retire_prior_to,
                cid,
                stateless_reset_token,
            } => FrameView::NewConnectionId {
                seq,
                retire_prior_to,
                cid: cid@,
                token: stateless_reset_token@,
            },
            Frame::RetireConnectionId { seq } => FrameView::RetireConnectionId { seq },
            Frame::PathChallenge(data) => FrameView::PathChallenge(data@),
            Frame::PathResponse(data) => FrameView::PathResponse(data@),
            Frame::ConnectionClose {
                error_code,
                application,
                frame_type,
                reason,
            } => FrameView::ConnectionClose { error_code, application, frame_type, reason: reason@ },
            Frame::HandshakeDone => FrameView::HandshakeDone,
            Frame::Datagram(data) => FrameView::Datagram(data@),
            Frame::Unsupported(ty) => FrameView::Unsupported(ty),
        }
    }
}

/// A payload that does not hold well-formed frames.
#[derive(Clone, Copy, Debug)]
pub struct FrameError {
    /// The error the connection is closed with.
    pub code: TransportErrorCode,
    /// What was wrong.
    pub detail: &'static str,
}

/// The FRAME_ENCODING_ERROR with this detail.
fn encoding_error(detail: &'static str) -> (e: FrameError)
    ensures
        e.code == TransportErrorCode::FrameEncodingError,
        e.detail@ == detail@,
{
    FrameError { code: TransportErrorCode::FrameEncodingError, detail }
}

/// What decoding gives: a frame and what follows it, or what is wrong.
pub type Decoded = Result<(FrameView, Seq<u8>), Seq<char>>;

/// `parsed`, or the frame was cut short.
pub open spec fn or_truncated(parsed: Option<(FrameView, Seq<u8>)>) -> Decoded {
    match parsed {
        Some(p) => Ok(p),
        None => Err("truncated frame"@),
    }
}

/// How many zero bytes `s` starts with.
pub open spec fn zeros(s: Seq<u8>) -> nat
    decreases s.len(),
{
    if s.len() > 0 && s[0] == 0 {
        1 + zeros(s.skip(1))
    } else {
        0
    }
}

/// Splits two variable-length integers off.
pub open spec fn take_two(s: Seq<u8>) -> Option<(u64, u64, Seq<u8>)> {
    match take_varint(s) {
        None => None,
        Some((a, s1)) => match take_varint(s1) {
            None => None,
            Some((b, s2)) => Some((a, b, s2)),
        },
    }
}

/// Splits three variable-length integers off.
pub open spec fn take_three(s: Seq<u8>) -> Option<(u64, u64, u64, Seq<u8>)> {
    match take_two(s) {
        None => None,
        Some((a, b, s1)) => match take_varint(s1) {
            None => None,
            Some((c, s2)) => Some((a, b, c, s2)),
        },
    }
}

/// Splits a byte string off that is preceded by its length.
pub open spec fn take_counted(s: Seq<u8>) -> Option<(Seq<u8>, Seq<u8>)> {
    match take_varint(s) {
        None => None,
        Some((n, s1)) => take_bytes(s1, n),
    }
}

/// Splits `count` ACK ranges off.
pub open spec fn take_ranges(s: Seq<u8>, count: nat) -> Option<(Seq<AckRange>, Seq<u8>)>
    decreases count,
{
    if count == 0 {
        Some((Seq::empty(), s))
    } else {
        match take_ranges(s, (count - 1) as nat) {
            None => None,
            Some((ranges, s1)) => match take_two(s1) {
                None => None,
                Some((gap, range, s2)) => Some((ranges.push(AckRange { gap, range }), s2)),
            },
        }
    }
}

/// The smallest packet number of the first `1 + n` ranges of an acknowledgement,
/// below zero where the ranges reach too far.
pub open spec fn ack_low(largest: u64, first_range: u64, ranges: Seq<AckRange>, n: int) -> int
    decreases n,
{
    if n <= 0 {
        largest - first_range
    } else {
        ack_low(largest, first_range, ranges, n - 1) - ranges[n - 1].gap - 2 - ranges[n - 1].range
    }
}

/// The body of an ACK frame; with `ecn` the three counts that follow are skipped.
pub open spec fn ack_at(s: Seq<u8>, ecn: bool) -> Decoded {
    match take_three(s) {
        None => or_truncated(None),
        Some((largest, delay, count, s1)) => match take_varint(s1) {
            None => or_truncated(None),
            Some((first_range, s2)) => match take_ranges(s2, count as nat) {
                None => or_truncated(None),
                Some((ranges, s3)) => {
                    if ack_low(largest, first_range, ranges, ranges.len() as int) < 0 {
                        Err("ACK range below packet number zero"@)
                    } else {
                        let frame = FrameView::Ack { largest, delay, first_range, ranges };
                        if ecn {
                            match take_three(s3) {
                                None => or_truncated(None),
                                Some((_, _, _, s4)) => Ok((frame, s4)),
                            }
                        } else {
                            Ok((frame, s3))
                        }
                    }
                },
            },
        },
    }
}

/// The body of a CRYPTO frame.
pub open spec fn crypto_at(s: Seq<u8>) -> Decoded {
    match take_varint(s) {
        None => or_truncated(None),
        Some((offset, s1)) => match take_counted(s1) {
            None => or_truncated(None),
            Some((data, s2)) => if offset + data.len() >= VARINT_LIMIT {
                Err("CRYPTO data beyond the largest offset"@)
            } else {
                Ok((FrameView::Crypto { offset, data }, s2))
            },
        },
    }
}

/// The body of a NEW_TOKEN frame.
pub open spec fn new_token_at(s: Seq<u8>) -> Decoded {
    match take_counted(s) {
        None => or_truncated(None),
        Some((token, s1)) => if token.len() == 0 {
            Err("empty NEW_TOKEN"@)
        } else {
            Ok((FrameView::NewToken(token), s1))
        },
    }
}

/// The body of a STREAM frame with these flags: whether an offset and a length are
/// given, and whether the stream ends.
pub open spec fn stream_at(s: Seq<u8>, has_offset: bool, has_len: bool, fin: bool) -> Decoded {
    match take_varint(s) {
        None => or_truncated(None),
        Some((id, s1)) => match if has_offset {
            take_varint(s1)
        } else {
            Some((0, s1))
        } {
            None => or_truncated(None),
            Some((offset, s2)) => match if has_len {
                take_counted(s2)
            } else {
                Some((s2, Seq::empty()))
            } {
                None => or_truncated(None),
                Some((data, s3)) => if offset + data.len() >= VARINT_LIMIT {
                    Err("STREAM data beyond the largest offset"@)
                } else {
                    Ok((FrameView::Stream { id, offset, fin, data }, s3))
                },
            },
        },
    }
}

/// The body of a MAX_STREAMS or STREAMS_BLOCKED frame for `dir`.
pub open spec fn stream_count_at(s: Seq<u8>, dir: Direction, blocked: bool) -> Decoded {
    match take_varint(s) {
        None => or_truncated(None),
        Some((count, s1)) => if count > MAX_STREAM_COUNT {
            Err("stream count beyond the largest stream"@)
        } else if blocked {
            Ok((FrameView::StreamsBlocked { dir, limit: count }, s1))
        } else {
            Ok((FrameView::MaxStreams { dir, max: count }, s1))
        },
    }
}

/// The body of a NEW_CONNECTION_ID frame.
pub open spec fn new_cid_at(s: Seq<u8>) -> Decoded {
    match take_two(s) {
        None => or_truncated(None),
        Some((seq, retire_prior_to, s1)) => match take_u8(s1) {
            None => or_truncated(None),
            Some((len, s2)) => match take_bytes(s2, len as u64) {
                None => or_truncated(None),
                Some((cid, s3)) => match take_bytes(s3, 16) {
                    None => or_truncated(None),
                    Some((token, s4)) => if len < 1 || len > MAX_CID_LEN {
                        Err("connection ID of a length that is not allowed"@)
                    } else if retire_prior_to > seq {
                        Err("retire_prior_to above the sequence number"@)
                    } else {
                        Ok((FrameView::NewConnectionId { seq, retire_prior_to, cid, token }, s4))
                    },
                },
            },
        },
    }
}

/// The body of a CONNECTION_CLOSE frame.
pub open spec fn close_at(s: Seq<u8>, application: bool) -> Option<(FrameView, Seq<u8>)> {
    match take_varint(s) {
        None => None,
        Some((error_code, s1)) => match if application {
            Some((0, s1))
        } else {
            take_varint(s1)
        } {
            None => None,
            Some((frame_type, s2)) => match take_counted(s2) {
                None => None,
                Some((reason, s3)) => Some(
                    (
                        FrameView::ConnectionClose { error_code, application, frame_type, reason },
                        s3,
                    ),
                ),
            },
        },
    }
}

/// A body of one integer.
pub open spec fn one_at(s: Seq<u8>, make: spec_fn(u64) -> FrameView) -> Option<
    (FrameView, Seq<u8>),
> {
    match take_varint(s) {
        None => None,
        Some((a, rest)) => Some((make(a), rest)),
    }
}

/// A body of two integers.
pub open spec fn two_at(s: Seq<u8>, make: spec_fn(u64, u64) -> FrameView) -> Option<
    (FrameView, Seq<u8>),
> {
    match take_two(s) {
        None => None,
        Some((a, b, rest)) => Some((make(a, b), rest)),
    }
}

/// The body of a frame of type `ty`.
#[verifier::opaque]
pub open spec fn body_at(ty: u64, s: Seq<u8>) -> Decoded {
    if ty == 0x00 {
        Ok((FrameView::Padding(1 + zeros(s)), s.skip(zeros(s) as int)))
    } else if ty == 0x01 {
        Ok((FrameView::Ping, s))
    } else if ty == 0x02 || ty == 0x03 {
        ack_at(s, ty == 0x03)
    } else if ty == 0x04 {
        match take_three(s) {
            None => or_truncated(None),
            Some((stream_id, error_code, final_size, rest)) => Ok(
                (FrameView::ResetStream { stream_id, error_code, final_size }, rest),
            ),
        }
    } else if ty == 0x05 {
        or_truncated(
            two_at(s, |a: u64, b: u64| FrameView::StopSending { stream_id: a, error_code: b }),
        )
    } else if ty == 0x06 {
        crypto_at(s)
    } else if ty == 0x07 {
        new_token_at(s)
    } else if 0x08 <= ty <= 0x0f {
        stream_at(s, (ty / 4) % 2 == 1, (ty / 2) % 2 == 1, ty % 2 == 1)
    } else if ty == 0x10 {
        or_truncated(one_at(s, |a: u64| FrameView::MaxData(a)))
    } else if ty == 0x11 {
        or_truncated(two_at(s, |a: u64, b: u64| FrameView::MaxStreamData { id: a, max: b }))
    } else if ty == 0x12 {
        stream_count_at(s, Direction::Bidirectional, false)
    } else if ty == 0x13 {
        stream_count_at(s, Direction::Unidirectional, false)
    } else if ty == 0x14 {
        or_truncated(one_at(s, |a: u64| FrameView::DataBlocked(a)))
    } else if ty == 0x15 {
        or_truncated(two_at(s, |a: u64, b: u64| FrameView::StreamDataBlocked { id: a, limit: b }))
    } else if ty == 0x16 {
        stream_count_at(s, Direction::Bidirectional, true)
    } else if ty == 0x17 {
        stream_count_at(s, Direction::Unidirectional, true)
    } else if ty == 0x18 {
        new_cid_at(s)
    } else if ty == 0x19 {
        or_truncated(one_at(s, |a: u64| FrameView::RetireConnectionId { seq: a }))
    } else if ty == 0x1a {
        match take_bytes(s, 8) {
            None => or_truncated(None),
            Some((data, rest)) => Ok((FrameView::PathChallenge(data), rest)),
        }
    } else if ty == 0x1b {
        match take_bytes(s, 8) {
            None => or_truncated(None),
            Some((data, rest)) => Ok((FrameView::PathResponse(data), rest)),
        }
    } else if ty == 0x1c || ty == 0x1d {
        or_truncated(close_at(s, ty == 0x1d))
    } else if ty == 0x1e {
        Ok((FrameView::HandshakeDone, s))
    } else if ty == 0x30 {
        Ok((FrameView::Datagram(s), Seq::empty()))
    } else if ty == 0x31 {
        match take_counted(s) {
            None => or_truncated(None),
            Some((data, rest)) => Ok((FrameView::Datagram(data), rest)),
        }
    } else {
        Err("unknown frame type"@)
    }
}

/// The frame at the front of `s`.
pub open spec fn frame_at(s: Seq<u8>) -> Decoded {
    match take_varint(s) {
        None => or_truncated(None),
        Some((ty, body)) => body_at(ty, body),
    }
}

/// The eight bytes of a slice.
pub(crate) fn array8(b: &[u8]) -> (a: [u8; 8])
    requires
        b@.len() == 8,
    ensures
        a@ == b@,
{
    let a = [b[0], b[1], b[2], b[3], b[4], b[5], b[6], b[7]];
    assert(a@ =~= b@);
    a
}

/// The sixteen bytes of a slice.
pub(crate) fn array16(b: &[u8]) -> (a: [u8; 16])
    requires
        b@.len() == 16,
    ensures
        a@ == b@,
{
    let a = [
        b[0],
        b[1],
        b[2],
        b[3],
        b[4],
        b[5],
        b[6],
        b[7],
        b[8],
        b[9],
        b[10],
        b[11],
        b[12],
        b[13],
        b[14],
        b[15],
    ];
    assert(a@ =~= b@);
    a
}

/// Whether decoding gave what `want` says.
pub open spec fn decodes_to(r: Result<Frame<'_>, FrameError>, rest: Seq<u8>, want: Decoded) -> bool {
    match want {
        Ok((frame, left)) => r matches Ok(f) && f@ == frame && rest == left,
        Err(detail) => r matches Err(e) && e.code == TransportErrorCode::FrameEncodingError
            && e.detail@ == detail,
    }
}

/// `parsed`, or the frame was cut short.
fn ok_or_truncated<'a>(parsed: Option<Frame<'a>>) -> (r: Result<Frame<'a>, FrameError>)
    ensures
        match parsed {
            Some(f) => r == Ok::<Frame<'a>, FrameError>(f),
            None => r matches Err(e) && e.code == TransportErrorCode::FrameEncodingError
                && e.detail@ == "truncated frame"@,
        },
{
    match parsed {
        Some(f) => Ok(f),
        None => Err(encoding_error("truncated frame")),
    }
}

fn next_two(buf: &mut Buf<'_>) -> (r: Option<(u64, u64)>)
    ensures
        match take_two(old(buf)@) {
            Some((a, b, rest)) => r == Some((a, b)) && final(buf)@ == rest && a < VARINT_LIMIT && b
                < VARINT_LIMIT && rest.len() < old(buf)@.len(),
            None => r is None,
        },
{
    let a = buf.next_varint()?;
    let b = buf.next_varint()?;
    Some((a, b))
}

fn next_three(buf: &mut Buf<'_>) -> (r: Option<(u64, u64, u64)>)
    ensures
        match take_three(old(buf)@) {
            Some((a, b, c, rest)) => r == Some((a, b, c)) && final(buf)@ == rest && a < VARINT_LIMIT
                && b < VARINT_LIMIT && c < VARINT_LIMIT,
            None => r is None,
        },
{
    let (a, b) = next_two(buf)?;
    let c = buf.next_varint()?;
    Some((a, b, c))
}

fn next_counted<'a>(buf: &mut Buf<'a>) -> (r: Option<&'a [u8]>)
    ensures
        match take_counted(old(buf)@) {
            Some((b, rest)) => r matches Some(bytes) && bytes@ == b && final(buf)@ == rest,
            None => r is None,
        },
{
    let n = buf.next_varint()?;
    buf.next_bytes(n)
}

proof fn lemma_take_ranges_none(s: Seq<u8>, n: nat, count: nat)
    requires
        n <= count,
        take_ranges(s, n) is None,
    ensures
        take_ranges(s, count) is None,
    decreases count,
{
    if n < count {
        lemma_take_ranges_none(s, n, (count - 1) as nat);
    }
}

fn next_ranges(buf: &mut Buf<'_>, count: u64) -> (r: Option<Vec<AckRange>>)
    ensures
        match take_ranges(old(buf)@, count as nat) {
            Some((ranges, rest)) => r matches Some(v) && v@ == ranges && final(buf)@ == rest,
            None => r is None,
        },
{
    let mut ranges: Vec<AckRange> = Vec::new();
    let mut i: u64 = 0;
    while i < count
        invariant
            i <= count,
            take_ranges(old(buf)@, i as nat) == Some((ranges@, buf@)),
        decreases count - i,
    {
        match next_two(buf) {
            Some((gap, range)) => {
                ranges.push(AckRange { gap, range });
            },
            None => {
                proof {
                    lemma_take_ranges_none(old(buf)@, (i + 1) as nat, count as nat);
                }
                return None;
            },
        }
        i = i + 1;
    }
    Some(ranges)
}

/// Ranges only reach further down.
proof fn lemma_ack_low_decreases(
    largest: u64,
    first_range: u64,
    ranges: Seq<AckRange>,
    n: int,
    m: int,
)
    requires
        0 <= n <= m,
    ensures
        ack_low(largest, first_range, ranges, m) <= ack_low(largest, first_range, ranges, n),
    decreases m,
{
    if n < m {
        lemma_ack_low_decreases(largest, first_range, ranges, n, m - 1);
    }
}

/// Whether all ranges lie at or above packet number zero.
fn ranges_fit(largest: u64, first_range: u64, ranges: &Vec<AckRange>) -> (fit: bool)
    requires
        forall|i: int|
            0 <= i < ranges@.len() ==> (#[trigger] ranges@[i]).gap < VARINT_LIMIT && ranges@[i].range
                < VARINT_LIMIT,
    ensures
        fit == (ack_low(largest, first_range, ranges@, ranges@.len() as int) >= 0),
{
    if first_range > largest {
        proof {
            lemma_ack_low_decreases(largest, first_range, ranges@, 0, ranges@.len() as int);
        }
        return false;
    }
    let mut low: u64 = largest - first_range;
    let mut i: usize = 0;
    while i < ranges.len()
        invariant
            i <= ranges@.len(),
            low == ack_low(largest, first_range, ranges@, i as int),
            forall|i: int|
                0 <= i < ranges@.len() ==> (#[trigger] ranges@[i]).gap < VARINT_LIMIT
                    && ranges@[i].range < VARINT_LIMIT,
        decreases ranges@.len() - i,
    {
        let down: u64 = ranges[i].gap + 2 + ranges[i].range;
        assert(ack_low(largest, first_range, ranges@, i + 1) == low - down);
        if down > low {
            proof {
                lemma_ack_low_decreases(largest, first_range, ranges@, i + 1, ranges@.len() as int);
            }
            return false;
        }
        low = low - down;
        i = i + 1;
    }
    true
}

proof fn lemma_take_ranges_bounds(s: Seq<u8>, count: nat)
    ensures
        take_ranges(s, count) matches Some((ranges, rest)) ==> ranges.len() == count && forall|
            i: int,
        |
            0 <= i < ranges.len() ==> (#[trigger] ranges[i]).gap < VARINT_LIMIT && ranges[i].range
                < VARINT_LIMIT,
    decreases count,
{
    if count > 0 {
        lemma_take_ranges_bounds(s, (count - 1) as nat);
        if let Some((ranges, s1)) = take_ranges(s, (count - 1) as nat) {
            crate::coding::lemma_take_varint_bounds(s1);
            if let Some((gap, s2)) = take_varint(s1) {
                crate::coding::lemma_take_varint_bounds(s2);
            }
        }
    }
}

fn decode_ack<'a>(buf: &mut Buf<'a>, ecn: bool) -> (r: Result<Frame<'a>, FrameError>)
    ensures
        decodes_to(r, final(buf)@, ack_at(old(buf)@, ecn)),
{
    let (largest, delay, count) = match next_three(buf) {
        Some(t) => t,
        None => return ok_or_truncated(None),
    };
    let first_range = match buf.next_varint() {
        Some(v) => v,
        None => return ok_or_truncated(None),
    };
    proof {
        lemma_take_ranges_bounds(buf@, count as nat);
    }
    let ranges = match next_ranges(buf, count) {
        Some(v) => v,
        None => return ok_or_truncated(None),
    };
    if !ranges_fit(largest, first_range, &ranges) {
        return Err(encoding_error("ACK range below packet number zero"));
    }
    if ecn {
        match next_three(buf) {
            Some(_) => {},
            None => return ok_or_truncated(None),
        }
    }
    Ok(Frame::Ack { largest, delay, first_range, ranges })
}

fn decode_crypto<'a>(buf: &mut Buf<'a>) -> (r: Result<Frame<'a>, FrameError>)
    ensures
        decodes_to(r, final(buf)@, crypto_at(old(buf)@)),
{
    let offset = match buf.next_varint() {
        Some(v) => v,
        None => return ok_or_truncated(None),
    };
    let data = match next_counted(buf) {
        Some(v) => v,
        None => return ok_or_truncated(None),
    };
    if data.len() as u64 >= VARINT_LIMIT - offset {
        return Err(encoding_error("CRYPTO data beyond the largest offset"));
    }
    Ok(Frame::Crypto { offset, data })
}

fn decode_new_token<'a>(buf: &mut Buf<'a>) -> (r: Result<Frame<'a>, FrameError>)
    ensures
        decodes_to(r, final(buf)@, new_token_at(old(buf)@)),
{
    match next_counted(buf) {
        Some(token) => {
            if token.len() == 0 {
                Err(encoding_error("empty NEW_TOKEN"))
            } else {
                Ok(Frame::NewToken(token))
            }
        },
        None => ok_or_truncated(None),
    }
}

fn decode_stream<'a>(buf: &mut Buf<'a>, has_offset: bool, has_len: bool, fin: bool) -> (r: Result<
    Frame<'a>,
    FrameError,
>)
    ensures
        decodes_to(r, final(buf)@, stream_at(old(buf)@, has_offset, has_len, fin)),
{
    let id = match buf.next_varint() {
        Some(v) => v,
        None => return ok_or_truncated(None),
    };
    let mut offset: u64 = 0;
    if has_offset {
        match buf.next_varint() {
            Some(v) => {
                offset = v;
            },
            None => return ok_or_truncated(None),
        }
    }
    let data: &'a [u8] = if has_len {
        match next_counted(buf) {
            Some(v) => v,
            None => return ok_or_truncated(None),
        }
    } else {
        let n: usize = buf.remaining();
        let ghost all = buf@;
        match buf.next_bytes(n as u64) {
            Some(v) => {
                assert(v@ =~= all);
                assert(buf@ =~= Seq::empty());
                v
            },
            None => return ok_or_truncated(None),
        }
    };
    if data.len() as u64 >= VARINT_LIMIT - offset {
        return Err(encoding_error("STREAM data beyond the largest offset"));
    }
    Ok(Frame::Stream { id, offset, fin, data })
}

fn decode_stream_count<'a>(buf: &mut Buf<'a>, dir: Direction, blocked: bool) -> (r: Result<
    Frame<'a>,
    FrameError,
>)
    ensures
        decodes_to(r, final(buf)@, stream_count_at(old(buf)@, dir, blocked)),
{
    match buf.next_varint() {
        Some(count) => {
            if count > MAX_STREAM_COUNT {
                Err(encoding_error("stream count beyond the largest stream"))
            } else if blocked {
                Ok(Frame::StreamsBlocked { dir, limit: count })
            } else {
                Ok(Frame::MaxStreams { dir, max: count })
            }
        },
        None => ok_or_truncated(None),
    }
}

fn decode_new_cid<'a>(buf: &mut Buf<'a>) -> (r: Result<Frame<'a>, FrameError>)
    ensures
        decodes_to(r, final(buf)@, new_cid_at(old(buf)@)),
{
    let (seq, retire_prior_to) = match next_two(buf) {
        Some(t) => t,
        None => return ok_or_truncated(None),
    };
    let len = match buf.next_u8() {
        Some(v) => v,
        None => return ok_or_truncated(None),
    };
    let cid = match buf.next_bytes(len as u64) {
        Some(v) => v,
        None => return ok_or_truncated(None),
    };
    let token = match buf.next_bytes(16) {
        Some(v) => v,
        None => return ok_or_truncated(None),
    };
    if len < 1 || len as usize > MAX_CID_LEN {
        return Err(encoding_error("connection ID of a length that is not allowed"));
    }
    if retire_prior_to > seq {
        return Err(encoding_error("retire_prior_to above the sequence number"));
    }
    Ok(
        Frame::NewConnectionId {
            seq,
            retire_prior_to,
            cid: ConnectionId::new(copy_bytes(cid)),
            stateless_reset_token: array16(token),
        },
    )
}

fn decode_close<'a>(buf: &mut Buf<'a>, application: bool) -> (r: Option<Frame<'a>>)
    ensures
        match close_at(old(buf)@, application) {
            Some((frame, rest)) => r matches Some(f) && f@ == frame && final(buf)@ == rest,
            None => r is None,
        },
{
    let error_code = buf.next_varint()?;
    let mut frame_type: u64 = 0;
    if !application {
        match buf.next_varint() {
            Some(v) => {
                frame_type = v;
            },
            None => return None,
        }
    }
    let reason = next_counted(buf)?;
    Some(Frame::ConnectionClose { error_code, application, frame_type, reason: copy_bytes(reason) })
}

/// Skips zero bytes and counts them.
fn skip_zeros(buf: &mut Buf<'_>) -> (n: usize)
    ensures
        n == zeros(old(buf)@),
        n <= old(buf)@.len(),
        final(buf)@ == old(buf)@.skip(n as int),
{
    let s = buf.rest();
    let mut n: usize = 0;
    assert(s@.skip(0) =~= s@);
    while n < s.len() && s[n] == 0
        invariant
            n <= s@.len(),
            zeros(s@) == n + zeros(s@.skip(n as int)),
        decreases s@.len() - n,
    {
        assert(s@.skip(n as int).skip(1) =~= s@.skip(n + 1));
        n = n + 1;
    }
    let _ = buf.get_bytes(n);
    n
}

/// Reads the frame at the front of `buf`.
///
/// # Errors
/// FRAME_ENCODING_ERROR for a frame that is cut short, is of a type that is not
/// known, or holds a value that is not allowed.
pub fn decode_frame<'a>(buf: &mut Buf<'a>) -> (r: Result<Frame<'a>, FrameError>)
    ensures
        decodes_to(r, final(buf)@, frame_at(old(buf)@)),
{
    proof {
        reveal(body_at);
        buf.lemma_fits();
    }
    let ty = match buf.next_varint() {
        Some(v) => v,
        None => return ok_or_truncated(None),
    };
    match ty {
        0x00 => {
            let n = skip_zeros(buf);
            Ok(Frame::Padding(1 + n))
        },
        0x01 => Ok(Frame::Ping),
        0x02 => decode_ack(buf, false),
        0x03 => decode_ack(buf, true),
        0x04 => ok_or_truncated(
            match next_three(buf) {
                Some((stream_id, error_code, final_size)) => Some(
                    Frame::ResetStream { stream_id, error_code, final_size },
                ),
                None => None,
            },
        ),
        0x05 => ok_or_truncated(
            match next_two(buf) {
                Some((stream_id, error_code)) => Some(Frame::StopSending { stream_id, error_code }),
                None => None,
            },
        ),
        0x06 => decode_crypto(buf),
        0x07 => decode_new_token(buf),
        0x08 | 0x09 | 0x0a | 0x0b | 0x0c | 0x0d | 0x0e | 0x0f => decode_stream(
            buf,
            (ty / 4) % 2 == 1,
            (ty / 2) % 2 == 1,
            ty % 2 == 1,
        ),
        0x10 => ok_or_truncated(
            match buf.next_varint() {
                Some(max) => Some(Frame::MaxData(max)),
                None => None,
            },
        ),
        0x11 => ok_or_truncated(
            match next_two(buf) {
                Some((id, max)) => Some(Frame::MaxStreamData { id, max }),
                None => None,
            },
        ),
        0x12 => decode_stream_count(buf, Direction::Bidirectional, false),
        0x13 => decode_stream_count(buf, Direction::Unidirectional, false),
        0x14 => ok_or_truncated(
            match buf.next_varint() {
                Some(limit) => Some(Frame::DataBlocked(limit)),
                None => None,
            },
        ),
        0x15 => ok_or_truncated(
            match next_two(buf) {
                Some((id, limit)) => Some(Frame::StreamDataBlocked { id, limit }),
                None => None,
            },
        ),
        0x16 => decode_stream_count(buf, Direction::Bidirectional, true),
        0x17 => decode_stream_count(buf, Direction::Unidirectional, true),
        0x18 => decode_new_cid(buf),
        0x19 => ok_or_truncated(
            match buf.next_varint() {
                Some(seq) => Some(Frame::RetireConnectionId { seq }),
                None => None,
            },
        ),
        0x1a => ok_or_truncated(
            match buf.next_bytes(8) {
                Some(data) => Some(Frame::PathChallenge(array8(data))),
                None => None,
            },
        ),
        0x1b => ok_or_truncated(
            match buf.next_bytes(8) {
                Some(data) => Some(Frame::PathResponse(array8(data))),
                None => None,
            },
        ),
        0x1c => ok_or_truncated(decode_close(buf, false)),
        0x1d => ok_or_truncated(decode_close(buf, true)),
        0x1e => Ok(Frame::HandshakeDone),
        0x30 => {
            let ghost all = buf@;
            let n: usize = buf.remaining();
            match buf.next_bytes(n as u64) {
                Some(data) => {
                    assert(data@ =~= all);
                    assert(buf@ =~= Seq::empty());
                    Ok(Frame::Datagram(data))
                },
                None => ok_or_truncated(None),
            }
        },
        0x31 => ok_or_truncated(
            match next_counted(buf) {
                Some(data) => Some(Frame::Datagram(data)),
                None => None,
            },
        ),
        _ => Err(encoding_error("unknown frame type")),
    }
}

/// The bytes of the further ranges of an ACK frame.
pub open spec fn ranges_bytes(ranges: Seq<AckRange>) -> Seq<u8>
    decreases ranges.len(),
{
    if ranges.len() == 0 {
        Seq::empty()
    } else {
        ranges_bytes(ranges.drop_last()) + varint_bytes(ranges.last().gap) + varint_bytes(
            ranges.last().range,
        )
    }
}

/// A byte string preceded by its length.
pub open spec fn counted_bytes(b: Seq<u8>) -> Seq<u8> {
    varint_bytes(b.len() as u64) + b
}

impl FrameView {
    /// Whether the frame can be written: every integer fits, and every rule that a
    /// reader holds the frame to is kept.
    pub open spec fn encodable(self) -> bool {
        match self {
            FrameView::Padding(n) => true,
            FrameView::Ping => true,
            FrameView::Ack { largest, delay, first_range, ranges } => {
                &&& largest < VARINT_LIMIT
                &&& delay < VARINT_LIMIT
                &&& first_range < VARINT_LIMIT
                &&& ranges.len() < VARINT_LIMIT
                &&& forall|i: int|
                    0 <= i < ranges.len() ==> (#[trigger] ranges[i]).gap < VARINT_LIMIT
                        && ranges[i].range < VARINT_LIMIT
                &&& ack_low(largest, first_range, ranges, ranges.len() as int) >= 0
            },
            FrameView::ResetStream { stream_id, error_code, final_size } => stream_id < VARINT_LIMIT
                && error_code < VARINT_LIMIT && final_size < VARINT_LIMIT,
            FrameView::StopSending { stream_id, error_code } => stream_id < VARINT_LIMIT
                && error_code < VARINT_LIMIT,
            FrameView::Crypto { offset, data } => offset + data.len() < VARINT_LIMIT,
            FrameView::NewToken(token) => 0 < token.len() < VARINT_LIMIT,
            FrameView::Stream { id, offset, fin, data } => id < VARINT_LIMIT && offset + data.len()
                < VARINT_LIMIT,
            FrameView::MaxData(max) => max < VARINT_LIMIT,
            FrameView::MaxStreamData { id, max } => id < VARINT_LIMIT && max < VARINT_LIMIT,
            FrameView::MaxStreams { dir, max } => max <= MAX_STREAM_COUNT,
            FrameView::DataBlocked(limit) => limit < VARINT_LIMIT,
            FrameView::StreamDataBlocked { id, limit } => id < VARINT_LIMIT && limit < VARINT_LIMIT,
            FrameView::StreamsBlocked { dir, limit } => limit <= MAX_STREAM_COUNT,
            FrameView::NewConnectionId { seq, retire_prior_to, cid, token } => seq < VARINT_LIMIT
                && retire_prior_to <= seq && 1 <= cid.len() <= MAX_CID_LEN && token.len() == 16,
            FrameView::RetireConnectionId { seq } => seq < VARINT_LIMIT,
            FrameView::PathChallenge(data) => data.len() == 8,
            FrameView::PathResponse(data) => data.len() == 8,
            FrameView::ConnectionClose { error_code, application, frame_type, reason } => error_code
                < VARINT_LIMIT && frame_type < VARINT_LIMIT && reason.len() < VARINT_LIMIT && (
            application ==> frame_type == 0),
            FrameView::HandshakeDone => true,
            FrameView::Datagram(data) => data.len() < VARINT_LIMIT,
            FrameView::Unsupported(_) => false,
        }
    }

    /// The bytes of the frame.
    pub open spec fn bytes(self) -> Seq<u8> {
        match self {
            FrameView::Padding(n) => Seq::new(n, |i: int| 0u8),
            FrameView::Ping => varint_bytes(0x01),
            FrameView::Ack { largest, delay, first_range, ranges } => varint_bytes(0x02)
                + varint_bytes(largest) + varint_bytes(delay) + varint_bytes(ranges.len() as u64)
                + varint_bytes(first_range) + ranges_bytes(ranges),
            FrameView::ResetStream { stream_id, error_code, final_size } => varint_bytes(0x04)
                + varint_bytes(stream_id) + varint_bytes(error_code) + varint_bytes(final_size),
            FrameView::StopSending { stream_id, error_code } => varint_bytes(0x05) + varint_bytes(
                stream_id,
            ) + varint_bytes(error_code),
            FrameView::Crypto { offset, data } => varint_bytes(0x06) + varint_bytes(offset)
                + counted_bytes(data),
            FrameView::NewToken(token) => varint_bytes(0x07) + counted_bytes(token),
            FrameView::Stream { id, offset, fin, data } => varint_bytes(
                if fin {
                    0x0f
                } else {
                    0x0e
                },
            ) + varint_bytes(id) + varint_bytes(offset) + counted_bytes(data),
            FrameView::MaxData(max) => varint_bytes(0x10) + varint_bytes(max),
            FrameView::MaxStreamData { id, max } => varint_bytes(0x11) + varint_bytes(id)
                + varint_bytes(max),
            FrameView::MaxStreams { dir, max } => varint_bytes(
                match dir {
                    Direction::Bidirectional => 0x12,
                    Direction::Unidirectional => 0x13,
                },
            ) + varint_bytes(max),
            FrameView::DataBlocked(limit) => varint_bytes(0x14) + varint_bytes(limit),
            FrameView::StreamDataBlocked { id, limit } => varint_bytes(0x15) + varint_bytes(id)
                + varint_bytes(limit),
            FrameView::StreamsBlocked { dir, limit } => varint_bytes(
                match dir {
                    Direction::Bidirectional => 0x16,
                    Direction::Unidirectional => 0x17,
                },
            ) + varint_bytes(limit),
            FrameView::NewConnectionId { seq, retire_prior_to, cid, token } => varint_bytes(0x18)
                + varint_bytes(seq) + varint_bytes(retire_prior_to) + seq![cid.len() as u8] + cid
                + token,
            FrameView::RetireConnectionId { seq } => varint_bytes(0x19) + varint_bytes(seq),
            FrameView::PathChallenge(data) => varint_bytes(0x1a) + data,
            FrameView::PathResponse(data) => varint_bytes(0x1b) + data,
            FrameView::ConnectionClose {
                error_code,
                application,
                frame_type,
                reason,
            } => if application {
                varint_bytes(0x1d) + varint_bytes(error_code) + counted_bytes(reason)
            } else {
                varint_bytes(0x1c) + varint_bytes(error_code) + varint_bytes(frame_type)
                    + counted_bytes(reason)
            },
            FrameView::HandshakeDone => varint_bytes(0x1e),
            FrameView::Datagram(data) => varint_bytes(0x31) + counted_bytes(data),
            FrameView::Unsupported(_) => Seq::empty(),
        }
    }

    /// Whether the peer must acknowledge a packet for carrying this frame
    /// (RFC 9002 Section 2): all but ACK, PADDING and CONNECTION_CLOSE.
    pub open spec fn ack_eliciting(self) -> bool {
        !(self is Padding) && !(self is Ack) && !(self is ConnectionClose)
    }
}

/// Writes a byte string preceded by its length.
fn put_counted(out: &mut Vec<u8>, b: &[u8])
    requires
        b@.len() < VARINT_LIMIT,
    ensures
        final(out)@ == old(out)@ + counted_bytes(b@),
{
    put_varint(out, b.len() as u64);
    put_bytes(out, b);
    assert(out@ =~= old(out)@ + counted_bytes(b@));
}

/// Writes the further ranges of an ACK frame.
fn put_ranges(out: &mut Vec<u8>, ranges: &Vec<AckRange>)
    requires
        forall|i: int|
            0 <= i < ranges@.len() ==> (#[trigger] ranges@[i]).gap < VARINT_LIMIT && ranges@[i].range
                < VARINT_LIMIT,
    ensures
        final(out)@ == old(out)@ + ranges_bytes(ranges@),
{
    let mut i: usize = 0;
    assert(out@ =~= old(out)@ + ranges_bytes(ranges@.take(0)));
    while i < ranges.len()
        invariant
            i <= ranges@.len(),
            out@ == old(out)@ + ranges_bytes(ranges@.take(i as int)),
            forall|i: int|
                0 <= i < ranges@.len() ==> (#[trigger] ranges@[i]).gap < VARINT_LIMIT
                    && ranges@[i].range < VARINT_LIMIT,
        decreases ranges@.len() - i,
    {
        put_varint(out, ranges[i].gap);
        put_varint(out, ranges[i].range);
        assert(ranges@.take(i + 1).drop_last() =~= ranges@.take(i as int));
        assert(out@ =~= old(out)@ + ranges_bytes(ranges@.take(i + 1)));
        i = i + 1;
    }
    assert(ranges@.take(ranges@.len() as int) =~= ranges@);
}

impl<'a> Frame<'a> {
    /// Whether the peer must acknowledge a packet for carrying this frame.
    pub fn is_ack_eliciting(&self) -> (eliciting: bool)
        ensures
            eliciting == self@.ack_eliciting(),
    {
        match self {
            Frame::Padding(_) | Frame::Ack { .. } | Frame::ConnectionClose { .. } => false,
            _ => true,
        }
    }

    /// Writes the frame at the end of `out`. Data carries its length, so that
    /// further frames can follow.
    pub fn encode(&self, out: &mut Vec<u8>)
        requires
            self@.encodable(),
        ensures
            final(out)@ == old(out)@ + self@.bytes(),
    {
        match self {
            Frame::Padding(n) => {
                let mut i: usize = 0;
                while i < *n
                    invariant
                        i <= *n,
                        out@ =~= old(out)@ + Seq::new(i as nat, |k: int| 0u8),
                    decreases *n - i,
                {
                    out.push(0);
                    i = i + 1;
                }
            },
            Frame::Ping => put_varint(out, 0x01),
            Frame::Ack { largest, delay, first_range, ranges } => {
                put_varint(out, 0x02);
                put_varint(out, *largest);
                put_varint(out, *delay);
                put_varint(out, ranges.len() as u64);
                put_varint(out, *first_range);
                put_ranges(out, ranges);
            },
            Frame::ResetStream { stream_id, error_code, final_size } => {
                put_varint(out, 0x04);
                put_varint(out, *stream_id);
                put_varint(out, *error_code);
                put_varint(out, *final_size);
            },
            Frame::StopSending { stream_id, error_code } => {
                put_varint(out, 0x05);
                put_varint(out, *stream_id);
                put_varint(out, *error_code);
            },
            Frame::Crypto { offset, data } => {
                put_varint(out, 0x06);
                put_varint(out, *offset);
                put_counted(out, data);
            },
            Frame::NewToken(token) => {
                put_varint(out, 0x07);
                put_counted(out, token);
            },
            Frame::Stream { id, offset, fin, data } => {
                put_varint(
                    out,
                    if *fin {
                        0x0f
                    } else {
                        0x0e
                    },
                );
                put_varint(out, *id);
                put_varint(out, *offset);
                put_counted(out, data);
            },
            Frame::MaxData(max) => {
                put_varint(out, 0x10);
                put_varint(out, *max);
            },
            Frame::MaxStreamData { id, max } => {
                put_varint(out, 0x11);
                put_varint(out, *id);
                put_varint(out, *max);
            },
            Frame::MaxStreams { dir, max } => {
                put_varint(
                    out,
                    match dir {
                        Direction::Bidirectional => 0x12,
                        Direction::Unidirectional => 0x13,
                    },
                );
                put_varint(out, *max);
            },
            Frame::DataBlocked(limit) => {
                put_varint(out, 0x14);
                put_varint(out, *limit);
            },
            Frame::StreamDataBlocked { id, limit } => {
                put_varint(out, 0x15);
                put_varint(out, *id);
                put_varint(out, *limit);
            },
            Frame::StreamsBlocked { dir, limit } => {
                put_varint(
                    out,
                    match dir {
                        Direction::Bidirectional => 0x16,
                        Direction::Unidirectional => 0x17,
                    },
                );
                put_varint(out, *limit);
            },
            Frame::NewConnectionId { seq, retire_prior_to, cid, stateless_reset_token } => {
                put_varint(out, 0x18);
                put_varint(out, *seq);
                put_varint(out, *retire_prior_to);
                out.push(cid.as_bytes().len() as u8);
                put_bytes(out, cid.as_bytes());
                put_bytes(out, stateless_reset_token.as_slice());
            },
            Frame::RetireConnectionId { seq } => {
                put_varint(out, 0x19);
                put_varint(out, *seq);
            },
            Frame::PathChallenge(data) => {
                put_varint(out, 0x1a);
                put_bytes(out, data.as_slice());
            },
            Frame::PathResponse(data) => {
                put_varint(out, 0x1b);
                put_bytes(out, data.as_slice());
            },
            Frame::ConnectionClose { error_code, application, frame_type, reason } => {
                if *application {
                    put_varint(out, 0x1d);
                    put_varint(out, *error_code);
                } else {
                    put_varint(out, 0x1c);
                    put_varint(out, *error_code);
                    put_varint(out, *frame_type);
                }
                put_counted(out, reason.as_slice());
            },
            Frame::HandshakeDone => put_varint(out, 0x1e),
            Frame::Datagram(data) => {
                put_varint(out, 0x31);
                put_counted(out, data);
            },
            Frame::Unsupported(_) => {},
        }
        assert(out@ =~= old(out)@ + self@.bytes());
    }
}

proof fn lemma_two(a: u64, b: u64, rest: Seq<u8>)
    requires
        a < VARINT_LIMIT,
        b < VARINT_LIMIT,
    ensures
        take_two(varint_bytes(a) + varint_bytes(b) + rest) == Some((a, b, rest)),
{
    lemma_take_varint(a, varint_bytes(b) + rest);
    lemma_take_varint(b, rest);
    assert(varint_bytes(a) + varint_bytes(b) + rest =~= varint_bytes(a) + (varint_bytes(b) + rest));
}

proof fn lemma_three(a: u64, b: u64, c: u64, rest: Seq<u8>)
    requires
        a < VARINT_LIMIT,
        b < VARINT_LIMIT,
        c < VARINT_LIMIT,
    ensures
        take_three(varint_bytes(a) + varint_bytes(b) + varint_bytes(c) + rest) == Some(
            (a, b, c, rest),
        ),
{
    lemma_two(a, b, varint_bytes(c) + rest);
    lemma_take_varint(c, rest);
    assert(varint_bytes(a) + varint_bytes(b) + varint_bytes(c) + rest =~= varint_bytes(a)
        + varint_bytes(b) + (varint_bytes(c) + rest));
}

proof fn lemma_counted(b: Seq<u8>, rest: Seq<u8>)
    requires
        b.len() < VARINT_LIMIT,
    ensures
        take_counted(counted_bytes(b) + rest) == Some((b, rest)),
{
    lemma_take_varint(b.len() as u64, b + rest);
    lemma_take_bytes(b, rest);
    assert(counted_bytes(b) + rest =~= varint_bytes(b.len() as u64) + (b + rest));
}

proof fn lemma_ranges(ranges: Seq<AckRange>, rest: Seq<u8>)
    requires
        forall|i: int|
            0 <= i < ranges.len() ==> (#[trigger] ranges[i]).gap < VARINT_LIMIT && ranges[i].range
                < VARINT_LIMIT,
    ensures
        take_ranges(ranges_bytes(ranges) + rest, ranges.len()) == Some((ranges, rest)),
    decreases ranges.len(),
{
    if ranges.len() == 0 {
        assert(ranges_bytes(ranges) + rest =~= rest);
        assert(ranges =~= Seq::empty());
    } else {
        let last = ranges.last();
        let tail = varint_bytes(last.gap) + varint_bytes(last.range) + rest;
        lemma_ranges(ranges.drop_last(), tail);
        lemma_two(last.gap, last.range, rest);
        assert(ranges_bytes(ranges) + rest =~= ranges_bytes(ranges.drop_last()) + tail);
        assert(ranges.drop_last().push(AckRange { gap: last.gap, range: last.range }) =~= ranges);
    }
}

proof fn lemma_ack_round_trip(
    largest: u64,
    delay: u64,
    first_range: u64,
    ranges: Seq<AckRange>,
    rest: Seq<u8>,
)
    requires
        (FrameView::Ack { largest, delay, first_range, ranges }).encodable(),
    ensures
        frame_at((FrameView::Ack { largest, delay, first_range, ranges }).bytes() + rest) == Ok::<
            (FrameView, Seq<u8>),
            Seq<char>,
        >((FrameView::Ack { largest, delay, first_range, ranges }, rest)),
{
    reveal(body_at);
    let f = FrameView::Ack { largest, delay, first_range, ranges };
    let n = ranges.len() as u64;
    let s3 = ranges_bytes(ranges) + rest;
    let s2 = varint_bytes(first_range) + s3;
    let s1 = varint_bytes(largest) + varint_bytes(delay) + varint_bytes(n) + s2;
    lemma_ranges(ranges, rest);
    lemma_take_varint(first_range, s3);
    lemma_three(largest, delay, n, s2);
    lemma_take_varint(0x02, s1);
    assert(f.bytes() + rest =~= varint_bytes(0x02) + s1);
}

proof fn lemma_new_cid_round_trip(
    seq: u64,
    retire_prior_to: u64,
    cid: Seq<u8>,
    token: Seq<u8>,
    rest: Seq<u8>,
)
    requires
        (FrameView::NewConnectionId { seq, retire_prior_to, cid, token }).encodable(),
    ensures
        frame_at((FrameView::NewConnectionId { seq, retire_prior_to, cid, token }).bytes() + rest)
            == Ok::<(FrameView, Seq<u8>), Seq<char>>(
            (FrameView::NewConnectionId { seq, retire_prior_to, cid, token }, rest),
        ),
{
    reveal(body_at);
    let f = FrameView::NewConnectionId { seq, retire_prior_to, cid, token };
    let s4 = token + rest;
    let s3 = cid + s4;
    let s2 = seq![cid.len() as u8] + s3;
    let s1 = varint_bytes(seq) + varint_bytes(retire_prior_to) + s2;
    lemma_take_bytes(token, rest);
    lemma_take_bytes(cid, s4);
    assert(s2.skip(1) =~= s3);
    lemma_two(seq, retire_prior_to, s2);
    lemma_take_varint(0x18, s1);
    assert(f.bytes() + rest =~= varint_bytes(0x18) + s1);
}

/// Reading back a frame that was written gives the frame, and leaves what was
/// written after it. Padding is the exception: it runs on into zero bytes that
/// follow.
#[verifier::rlimit(60)]
pub proof fn law_frame_round_trip(f: FrameView, rest: Seq<u8>)
    requires
        f.encodable(),
        !(f is Padding),
    ensures
        frame_at(f.bytes() + rest) == Ok::<(FrameView, Seq<u8>), Seq<char>>((f, rest)),
{
    reveal(body_at);
    let b = f.bytes() + rest;
    match f {
        FrameView::Ping => lemma_take_varint(0x01, rest),
        FrameView::HandshakeDone => lemma_take_varint(0x1e, rest),
        FrameView::Ack { largest, delay, first_range, ranges } => lemma_ack_round_trip(
            largest,
            delay,
            first_range,
            ranges,
            rest,
        ),
        FrameView::ResetStream { stream_id, error_code, final_size } => {
            let s1 = varint_bytes(stream_id) + varint_bytes(error_code) + varint_bytes(final_size)
                + rest;
            lemma_three(stream_id, error_code, final_size, rest);
            lemma_take_varint(0x04, s1);
            assert(b =~= varint_bytes(0x04) + s1);
        },
        FrameView::StopSending { stream_id, error_code } => {
            let s1 = varint_bytes(stream_id) + varint_bytes(error_code) + rest;
            lemma_two(stream_id, error_code, rest);
            lemma_take_varint(0x05, s1);
            assert(b =~= varint_bytes(0x05) + s1);
        },
        FrameView::Crypto { offset, data } => {
            let s2 = counted_bytes(data) + rest;
            let s1 = varint_bytes(offset) + s2;
            lemma_counted(data, rest);
            lemma_take_varint(offset, s2);
            lemma_take_varint(0x06, s1);
            assert(b =~= varint_bytes(0x06) + s1);
        },
        FrameView::NewToken(token) => {
            let s1 = counted_bytes(token) + rest;
            lemma_counted(token, rest);
            lemma_take_varint(0x07, s1);
            assert(b =~= varint_bytes(0x07) + s1);
        },
        FrameView::Stream { id, offset, fin, data } => {
            let ty: u64 = if fin {
                0x0f
            } else {
                0x0e
            };
            let s3 = counted_bytes(data) + rest;
            let s2 = varint_bytes(offset) + s3;
            let s1 = varint_bytes(id) + s2;
            lemma_counted(data, rest);
            lemma_take_varint(offset, s3);
            lemma_take_varint(id, s2);
            lemma_take_varint(ty, s1);
            assert(b =~= varint_bytes(ty) + s1);
        },
        FrameView::MaxData(max) => {
            lemma_take_varint(max, rest);
            lemma_take_varint(0x10, varint_bytes(max) + rest);
            assert(b =~= varint_bytes(0x10) + (varint_bytes(max) + rest));
        },
        FrameView::MaxStreamData { id, max } => {
            let s1 = varint_bytes(id) + varint_bytes(max) + rest;
            lemma_two(id, max, rest);
            lemma_take_varint(0x11, s1);
            assert(b =~= varint_bytes(0x11) + s1);
        },
        FrameView::MaxStreams { dir, max } => {
            let ty: u64 = match dir {
                Direction::Bidirectional => 0x12,
                Direction::Unidirectional => 0x13,
            };
            lemma_take_varint(max, rest);
            lemma_take_varint(ty, varint_bytes(max) + rest);
            assert(b =~= varint_bytes(ty) + (varint_bytes(max) + rest));
        },
        FrameView::DataBlocked(limit) => {
            lemma_take_varint(limit, rest);
            lemma_take_varint(0x14, varint_bytes(limit) + rest);
            assert(b =~= varint_bytes(0x14) + (varint_bytes(limit) + rest));
        },
        FrameView::StreamDataBlocked { id, limit } => {
            let s1 = varint_bytes(id) + varint_bytes(limit) + rest;
            lemma_two(id, limit, rest);
            lemma_take_varint(0x15, s1);
            assert(b =~= varint_bytes(0x15) + s1);
        },
        FrameView::StreamsBlocked { dir, limit } => {
            let ty: u64 = match dir {
                Direction::Bidirectional => 0x16,
                Direction::Unidirectional => 0x17,
            };
            lemma_take_varint(limit, rest);
            lemma_take_varint(ty, varint_bytes(limit) + rest);
            assert(b =~= varint_bytes(ty) + (varint_bytes(limit) + rest));
        },
        FrameView::NewConnectionId { seq, retire_prior_to, cid, token } => lemma_new_cid_round_trip(
            seq,
            retire_prior_to,
            cid,
            token,
            rest,
        ),
        FrameView::RetireConnectionId { seq } => {
            lemma_take_varint(seq, rest);
            lemma_take_varint(0x19, varint_bytes(seq) + rest);
            assert(b =~= varint_bytes(0x19) + (varint_bytes(seq) + rest));
        },
        FrameView::PathChallenge(data) => {
            lemma_take_bytes(data, rest);
            lemma_take_varint(0x1a, data + rest);
            assert(b =~= varint_bytes(0x1a) + (data + rest));
        },
        FrameView::PathResponse(data) => {
            lemma_take_bytes(data, rest);
            lemma_take_varint(0x1b, data + rest);
            assert(b =~= varint_bytes(0x1b) + (data + rest));
        },
        FrameView::ConnectionClose { error_code, application, frame_type, reason } => {
            let s2 = counted_bytes(reason) + rest;
            lemma_counted(reason, rest);
            if application {
                let s1 = varint_bytes(error_code) + s2;
                lemma_take_varint(error_code, s2);
                lemma_take_varint(0x1d, s1);
                assert(b =~= varint_bytes(0x1d) + s1);
            } else {
                let s3 = varint_bytes(frame_type) + s2;
                let s1 = varint_bytes(error_code) + s3;
                lemma_take_varint(frame_type, s2);
                lemma_take_varint(error_code, s3);
                lemma_take_varint(0x1c, s1);
                assert(b =~= varint_bytes(0x1c) + s1);
            }
        },
        FrameView::Datagram(data) => {
            let s1 = counted_bytes(data) + rest;
            lemma_counted(data, rest);
            lemma_take_varint(0x31, s1);
            assert(b =~= varint_bytes(0x31) + s1);
        },
        FrameView::Padding(_) => {},
        FrameView::Unsupported(_) => {},
    }
}

/// Padding is read back as one frame of as many bytes, where what follows does not
/// start with a zero byte.
pub proof fn law_padding_round_trip(n: nat, rest: Seq<u8>)
    requires
        n > 0,
        rest.len() == 0 || rest[0] != 0,
    ensures
        frame_at(FrameView::Padding(n).bytes() + rest) == Ok::<(FrameView, Seq<u8>), Seq<char>>(
            (FrameView::Padding(n), rest),
        ),
{
    reveal(body_at);
    let b = FrameView::Padding(n).bytes() + rest;
    lemma_zeros((n - 1) as nat, rest);
    let tail = FrameView::Padding((n - 1) as nat).bytes() + rest;
    assert(varint_bytes(0) =~= seq![0u8]) by {
        reveal(varint_bytes);
    }
    lemma_take_varint(0, tail);
    assert(b =~= varint_bytes(0) + tail);
    assert(tail.skip((n - 1) as int) =~= rest);
}

proof fn lemma_zeros(n: nat, rest: Seq<u8>)
    requires
        rest.len() == 0 || rest[0] != 0,
    ensures
        zeros(FrameView::Padding(n).bytes() + rest) == n,
    decreases n,
{
    let b = FrameView::Padding(n).bytes() + rest;
    if n == 0 {
        assert(b =~= rest);
    } else {
        lemma_zeros((n - 1) as nat, rest);
        assert(b.skip(1) =~= FrameView::Padding((n - 1) as nat).bytes() + rest);
    }
}

/// What is decoded takes at least one byte, so that reading frame after frame
/// comes to an end.
pub proof fn law_frame_progress(s: Seq<u8>)
    ensures
        frame_at(s) matches Ok((f, rest)) ==> rest.len() < s.len(),
{
    crate::coding::lemma_take_varint_bounds(s);
    if let Some((ty, body)) = take_varint(s) {
        lemma_body_shrinks(ty, body);
    }
}

proof fn lemma_body_shrinks(ty: u64, s: Seq<u8>)
    ensures
        body_at(ty, s) matches Ok((f, rest)) ==> rest.len() <= s.len(),
{
    reveal(body_at);
    lemma_zeros_bound(s);
    lemma_takes_shrink(s);
    if ty == 0x02 || ty == 0x03 {
        if let Some((largest, delay, count, s1)) = take_three(s) {
            crate::coding::lemma_take_varint_bounds(s1);
            if let Some((first_range, s2)) = take_varint(s1) {
                lemma_ranges_shrink(s2, count as nat);
                if let Some((ranges, s3)) = take_ranges(s2, count as nat) {
                    lemma_takes_shrink(s3);
                }
            }
        }
    } else {
        if let Some((a, s1)) = take_varint(s) {
            lemma_takes_shrink(s1);
            if let Some((c, s2)) = take_varint(s1) {
                lemma_takes_shrink(s2);
            }
        }
    }
}

proof fn lemma_zeros_bound(s: Seq<u8>)
    ensures
        zeros(s) <= s.len(),
    decreases s.len(),
{
    if s.len() > 0 && s[0] == 0 {
        lemma_zeros_bound(s.skip(1));
    }
}

proof fn lemma_takes_shrink(s: Seq<u8>)
    ensures
        take_varint(s) matches Some((a, rest)) ==> rest.len() < s.len(),
        take_two(s) matches Some((a, b, rest)) ==> rest.len() < s.len(),
        take_three(s) matches Some((a, b, c, rest)) ==> rest.len() < s.len(),
        take_counted(s) matches Some((b, rest)) ==> rest.len() < s.len(),
{
    crate::coding::lemma_take_varint_bounds(s);
    if let Some((a, s1)) = take_varint(s) {
        crate::coding::lemma_take_varint_bounds(s1);
        if let Some((b, s2)) = take_varint(s1) {
            crate::coding::lemma_take_varint_bounds(s2);
        }
    }
}

proof fn lemma_ranges_shrink(s: Seq<u8>, count: nat)
    ensures
        take_ranges(s, count) matches Some((r, rest)) ==> rest.len() <= s.len(),
    decreases count,
{
    if count > 0 {
        lemma_ranges_shrink(s, (count - 1) as nat);
        if let Some((ranges, s1)) = take_ranges(s, (count - 1) as nat) {
            lemma_takes_shrink(s1);
        }
    }
}

/// The type that each frame starts with, and the order of its fields (RFC 9000
/// Section 19, RFC 9221 Section 4).
pub proof fn law_frame_layout(a: u64, b: u64, c: u64, x: Seq<u8>, y: Seq<u8>)
    requires
        x.len() < 0x4000_0000_0000_0000,
    ensures
        FrameView::Ping.bytes() == seq![0x01u8],
        (FrameView::ResetStream { stream_id: a, error_code: b, final_size: c }).bytes()
            == seq![0x04u8] + varint_bytes(a) + varint_bytes(b) + varint_bytes(c),
        (FrameView::StopSending { stream_id: a, error_code: b }).bytes() == seq![0x05u8]
            + varint_bytes(a) + varint_bytes(b),
        (FrameView::Crypto { offset: a, data: x }).bytes() == seq![0x06u8] + varint_bytes(a)
            + varint_bytes(x.len() as u64) + x,
        FrameView::NewToken(x).bytes() == seq![0x07u8] + varint_bytes(x.len() as u64) + x,
        (FrameView::Stream { id: a, offset: b, fin: false, data: x }).bytes() == seq![0x0eu8]
            + varint_bytes(a) + varint_bytes(b) + varint_bytes(x.len() as u64) + x,
        (FrameView::Stream { id: a, offset: b, fin: true, data: x }).bytes() == seq![0x0fu8]
            + varint_bytes(a) + varint_bytes(b) + varint_bytes(x.len() as u64) + x,
        FrameView::MaxData(a).bytes() == seq![0x10u8] + varint_bytes(a),
        (FrameView::MaxStreamData { id: a, max: b }).bytes() == seq![0x11u8] + varint_bytes(a)
            + varint_bytes(b),
        (FrameView::MaxStreams { dir: Direction::Bidirectional, max: a }).bytes() == seq![0x12u8]
            + varint_bytes(a),
        (FrameView::MaxStreams { dir: Direction::Unidirectional, max: a }).bytes() == seq![0x13u8]
            + varint_bytes(a),
        FrameView::DataBlocked(a).bytes() == seq![0x14u8] + varint_bytes(a),
        (FrameView::StreamDataBlocked { id: a, limit: b }).bytes() == seq![0x15u8] + varint_bytes(a)
            + varint_bytes(b),
        (FrameView::StreamsBlocked { dir: Direction::Bidirectional, limit: a }).bytes()
            == seq![0x16u8] + varint_bytes(a),
        (FrameView::StreamsBlocked { dir: Direction::Unidirectional, limit: a }).bytes()
            == seq![0x17u8] + varint_bytes(a),
        (FrameView::NewConnectionId { seq: a, retire_prior_to: b, cid: x, token: y }).bytes()
            == seq![0x18u8] + varint_bytes(a) + varint_bytes(b) + seq![x.len() as u8] + x + y,
        (FrameView::RetireConnectionId { seq: a }).bytes() == seq![0x19u8] + varint_bytes(a),
        FrameView::PathChallenge(x).bytes() == seq![0x1au8] + x,
        FrameView::PathResponse(x).bytes() == seq![0x1bu8] + x,
        (FrameView::ConnectionClose {
            error_code: a,
            application: false,
            frame_type: b,
            reason: x,
        }).bytes() == seq![0x1cu8] + varint_bytes(a) + varint_bytes(b) + varint_bytes(
            x.len() as u64,
        ) + x,
        (FrameView::ConnectionClose {
            error_code: a,
            application: true,
            frame_type: b,
            reason: x,
        }).bytes() == seq![0x1du8] + varint_bytes(a) + varint_bytes(x.len() as u64) + x,
        FrameView::HandshakeDone.bytes() == seq![0x1eu8],
        FrameView::Datagram(x).bytes() == seq![0x31u8] + varint_bytes(x.len() as u64) + x,
{
    reveal(varint_bytes);
}

/// The bytes of an ACK frame: type 2, the largest number, the delay, how many further
/// ranges there are, the first range, then the gap and the length of each of the others.
pub proof fn law_ack_layout(
    largest: u64,
    delay: u64,
    first_range: u64,
    ranges: Seq<AckRange>,
    next: AckRange,
)
    ensures
        (FrameView::Ack { largest, delay, first_range, ranges: Seq::empty() }).bytes()
            == seq![0x02u8] + varint_bytes(largest) + varint_bytes(delay) + varint_bytes(0)
            + varint_bytes(first_range),
        (FrameView::Ack { largest, delay, first_range, ranges }).bytes() == seq![0x02u8]
            + varint_bytes(largest) + varint_bytes(delay) + varint_bytes(ranges.len() as u64)
            + varint_bytes(first_range) + ranges_bytes(ranges),
        ranges_bytes(ranges.push(next)) == ranges_bytes(ranges) + varint_bytes(next.gap)
            + varint_bytes(next.range),
{
    assert(varint_bytes(0x02) =~= seq![0x02u8]) by {
        reveal(varint_bytes);
    }
    assert(ranges.push(next).drop_last() =~= ranges);
    assert(ranges_bytes(Seq::<AckRange>::empty()) =~= Seq::empty());
}

/// What the three low bits of a STREAM frame's type say: the frame ends the stream, its
/// data is preceded by its length and otherwise reaches to the end of the packet, and an
/// offset is given and is otherwise zero.
pub proof fn law_stream_flags(id: u64, offset: u64, x: Seq<u8>, rest: Seq<u8>)
    requires
        id < 0x4000_0000_0000_0000,
        offset + x.len() + rest.len() < 0x4000_0000_0000_0000,
    ensures
        ({
            let len = varint_bytes(x.len() as u64);
            let (i, o) = (varint_bytes(id), varint_bytes(offset));
            let none = Seq::<u8>::empty();
            &&& frame_at(seq![0x08u8] + i + x) == Ok::<(FrameView, Seq<u8>), Seq<char>>(
                (FrameView::Stream { id, offset: 0, fin: false, data: x }, none),
            )
            &&& frame_at(seq![0x09u8] + i + x) == Ok::<(FrameView, Seq<u8>), Seq<char>>(
                (FrameView::Stream { id, offset: 0, fin: true, data: x }, none),
            )
            &&& frame_at(seq![0x0au8] + i + len + x + rest) == Ok::<
                (FrameView, Seq<u8>),
                Seq<char>,
            >((FrameView::Stream { id, offset: 0, fin: false, data: x }, rest))
            &&& frame_at(seq![0x0bu8] + i + len + x + rest) == Ok::<
                (FrameView, Seq<u8>),
                Seq<char>,
            >((FrameView::Stream { id, offset: 0, fin: true, data: x }, rest))
            &&& frame_at(seq![0x0cu8] + i + o + x) == Ok::<(FrameView, Seq<u8>), Seq<char>>(
                (FrameView::Stream { id, offset, fin: false, data: x }, none),
            )
            &&& frame_at(seq![0x0du8] + i + o + x) == Ok::<(FrameView, Seq<u8>), Seq<char>>(
                (FrameView::Stream { id, offset, fin: true, data: x }, none),
            )
        }),
{
    lemma_stream_to_end(0x08, id, x);
    lemma_stream_to_end(0x09, id, x);
    lemma_stream_counted(0x0a, id, x, rest);
    lemma_stream_counted(0x0b, id, x, rest);
    lemma_stream_at_offset(0x0c, id, offset, x);
    lemma_stream_at_offset(0x0d, id, offset, x);
}

/// The types of STREAM frames.
proof fn lemma_stream_type(ty: u8, body: Seq<u8>)
    requires
        0x08 <= ty <= 0x0f,
    ensures
        frame_at(seq![ty] + body) == stream_at(
            body,
            (ty / 4) % 2 == 1,
            (ty / 2) % 2 == 1,
            ty % 2 == 1,
        ),
{
    reveal(body_at);
    lemma_small_type(ty, body);
}

proof fn lemma_stream_to_end(ty: u8, id: u64, x: Seq<u8>)
    requires
        ty == 0x08 || ty == 0x09,
        id < VARINT_LIMIT,
        x.len() < VARINT_LIMIT,
    ensures
        frame_at(seq![ty] + varint_bytes(id) + x) == Ok::<(FrameView, Seq<u8>), Seq<char>>(
            (
                FrameView::Stream { id, offset: 0, fin: ty == 0x09, data: x },
                Seq::<u8>::empty(),
            ),
        ),
{
    let body = varint_bytes(id) + x;
    assert(seq![ty] + varint_bytes(id) + x =~= seq![ty] + body);
    lemma_stream_type(ty, body);
    lemma_take_varint(id, x);
}

proof fn lemma_stream_counted(ty: u8, id: u64, x: Seq<u8>, rest: Seq<u8>)
    requires
        ty == 0x0a || ty == 0x0b,
        id < VARINT_LIMIT,
        x.len() < VARINT_LIMIT,
    ensures
        frame_at(seq![ty] + varint_bytes(id) + varint_bytes(x.len() as u64) + x + rest) == Ok::<
            (FrameView, Seq<u8>),
            Seq<char>,
        >((FrameView::Stream { id, offset: 0, fin: ty == 0x0b, data: x }, rest)),
{
    let len = varint_bytes(x.len() as u64);
    let tail = len + (x + rest);
    let body = varint_bytes(id) + tail;
    assert(seq![ty] + varint_bytes(id) + len + x + rest =~= seq![ty] + body);
    lemma_stream_type(ty, body);
    lemma_take_varint(id, tail);
    lemma_take_varint(x.len() as u64, x + rest);
    crate::coding::lemma_take_bytes(x, rest);
}

proof fn lemma_stream_at_offset(ty: u8, id: u64, offset: u64, x: Seq<u8>)
    requires
        ty == 0x0c || ty == 0x0d,
        id < VARINT_LIMIT,
        offset + x.len() < VARINT_LIMIT,
    ensures
        frame_at(seq![ty] + varint_bytes(id) + varint_bytes(offset) + x) == Ok::<
            (FrameView, Seq<u8>),
            Seq<char>,
        >((FrameView::Stream { id, offset, fin: ty == 0x0d, data: x }, Seq::<u8>::empty())),
{
    let tail = varint_bytes(offset) + x;
    let body = varint_bytes(id) + tail;
    assert(seq![ty] + varint_bytes(id) + varint_bytes(offset) + x =~= seq![ty] + body);
    lemma_stream_type(ty, body);
    lemma_take_varint(id, tail);
    lemma_take_varint(offset, x);
}

/// A type below 64 is its own byte.
proof fn lemma_small_type(ty: u8, body: Seq<u8>)
    requires
        ty < 64,
    ensures
        frame_at(seq![ty] + body) == body_at(ty as u64, body),
{
    lemma_take_varint(ty as u64, body);
    assert(varint_bytes(ty as u64) =~= seq![ty]) by {
        reveal(varint_bytes);
    }
}

/// A DATAGRAM frame of type 0x30 has no length and reaches to the end of the packet; types
/// that are not known are refused.
pub proof fn law_other_types(x: Seq<u8>, ty: u8)
    requires
        0x1e < ty < 0x40,
        ty != 0x30 && ty != 0x31,
    ensures
        frame_at(seq![0x30u8] + x) == Ok::<(FrameView, Seq<u8>), Seq<char>>(
            (FrameView::Datagram(x), Seq::empty()),
        ),
        frame_at(seq![ty] + x) == Err::<(FrameView, Seq<u8>), Seq<char>>("unknown frame type"@),
        frame_at(Seq::empty()) == Err::<(FrameView, Seq<u8>), Seq<char>>("truncated frame"@),
{
    reveal(body_at);
    lemma_small_type(0x30, x);
    lemma_small_type(ty, x);
    assert(crate::coding::varint_at(Seq::<u8>::empty()) is None) by {
        reveal(crate::coding::varint_at);
    }
}

/// Every frame but PADDING, ACK and CONNECTION_CLOSE makes the peer owe an acknowledgement
/// (RFC 9002 Section 2).
pub proof fn law_ack_eliciting_frames(f: FrameView)
    ensures
        f is Padding || f is Ack || f is ConnectionClose ==> !f.ack_eliciting(),
        f is Ping || f is ResetStream || f is StopSending || f is Crypto || f is NewToken
            || f is Stream || f is MaxData || f is MaxStreamData || f is MaxStreams
            || f is DataBlocked || f is StreamDataBlocked || f is StreamsBlocked
            || f is NewConnectionId || f is RetireConnectionId || f is PathChallenge
            || f is PathResponse || f is HandshakeDone || f is Datagram ==> f.ack_eliciting(),
{
}

/// Frames that break a rule are refused (RFC 9000 Section 19): an ACK that reaches below
/// packet 0, data beyond the largest offset, an empty token, more streams than there can be.
pub proof fn law_faulty_frames_refused(
    largest: u64,
    delay: u64,
    first_range: u64,
    offset: u64,
    x: Seq<u8>,
    id: u64,
    count: u64,
    rest: Seq<u8>,
)
    requires
        largest < first_range < 0x4000_0000_0000_0000,
        delay < 0x4000_0000_0000_0000,
        offset < 0x4000_0000_0000_0000,
        id < 0x4000_0000_0000_0000,
        x.len() < 0x4000_0000_0000_0000,
        offset + x.len() >= 0x4000_0000_0000_0000,
        0x1000_0000_0000_0000 < count < 0x4000_0000_0000_0000,
    ensures
        frame_at(
            seq![0x02u8] + (varint_bytes(largest) + (varint_bytes(delay) + (varint_bytes(0) + (
            varint_bytes(first_range) + rest)))),
        ) == Err::<(FrameView, Seq<u8>), Seq<char>>("ACK range below packet number zero"@),
        frame_at(
            seq![0x06u8] + (varint_bytes(offset) + (varint_bytes(x.len() as u64) + (x + rest))),
        ) == Err::<(FrameView, Seq<u8>), Seq<char>>("CRYPTO data beyond the largest offset"@),
        frame_at(seq![0x07u8] + (varint_bytes(0) + rest)) == Err::<(FrameView, Seq<u8>), Seq<char>>(
            "empty NEW_TOKEN"@,
        ),
        frame_at(seq![0x0cu8] + (varint_bytes(id) + (varint_bytes(offset) + x))) == Err::<
            (FrameView, Seq<u8>),
            Seq<char>,
        >("STREAM data beyond the largest offset"@),
        frame_at(seq![0x12u8] + (varint_bytes(count) + rest)) == Err::<
            (FrameView, Seq<u8>),
            Seq<char>,
        >("stream count beyond the largest stream"@),
        frame_at(seq![0x13u8] + (varint_bytes(count) + rest)) == Err::<
            (FrameView, Seq<u8>),
            Seq<char>,
        >("stream count beyond the largest stream"@),
        frame_at(seq![0x16u8] + (varint_bytes(count) + rest)) == Err::<
            (FrameView, Seq<u8>),
            Seq<char>,
        >("stream count beyond the largest stream"@),
        frame_at(seq![0x17u8] + (varint_bytes(count) + rest)) == Err::<
            (FrameView, Seq<u8>),
            Seq<char>,
        >("stream count beyond the largest stream"@),
{
    lemma_ack_refused(largest, delay, first_range, rest);
    lemma_crypto_refused(offset, x, rest);
    lemma_token_refused(rest);
    lemma_stream_type(0x0c, varint_bytes(id) + (varint_bytes(offset) + x));
    lemma_take_varint(id, varint_bytes(offset) + x);
    lemma_take_varint(offset, x);
    lemma_count_refused(0x12, count, rest);
    lemma_count_refused(0x13, count, rest);
    lemma_count_refused(0x16, count, rest);
    lemma_count_refused(0x17, count, rest);
}

proof fn lemma_ack_refused(largest: u64, delay: u64, first_range: u64, rest: Seq<u8>)
    requires
        largest < first_range < VARINT_LIMIT,
        delay < VARINT_LIMIT,
    ensures
        frame_at(
            seq![0x02u8] + (varint_bytes(largest) + (varint_bytes(delay) + (varint_bytes(0) + (
            varint_bytes(first_range) + rest)))),
        ) == Err::<(FrameView, Seq<u8>), Seq<char>>("ACK range below packet number zero"@),
{
    reveal(body_at);
    let s4 = varint_bytes(first_range) + rest;
    let s3 = varint_bytes(0) + s4;
    let s2 = varint_bytes(delay) + s3;
    let s1 = varint_bytes(largest) + s2;
    lemma_small_type(0x02, s1);
    lemma_take_varint(largest, s2);
    lemma_take_varint(delay, s3);
    lemma_take_varint(0, s4);
    lemma_take_varint(first_range, rest);
}

proof fn lemma_crypto_refused(offset: u64, x: Seq<u8>, rest: Seq<u8>)
    requires
        offset < VARINT_LIMIT,
        x.len() < VARINT_LIMIT,
        offset + x.len() >= VARINT_LIMIT,
    ensures
        frame_at(
            seq![0x06u8] + (varint_bytes(offset) + (varint_bytes(x.len() as u64) + (x + rest))),
        ) == Err::<(FrameView, Seq<u8>), Seq<char>>("CRYPTO data beyond the largest offset"@),
{
    reveal(body_at);
    let s2 = varint_bytes(x.len() as u64) + (x + rest);
    lemma_small_type(0x06, varint_bytes(offset) + s2);
    lemma_take_varint(offset, s2);
    lemma_take_varint(x.len() as u64, x + rest);
    crate::coding::lemma_take_bytes(x, rest);
}

proof fn lemma_token_refused(rest: Seq<u8>)
    ensures
        frame_at(seq![0x07u8] + (varint_bytes(0) + rest)) == Err::<(FrameView, Seq<u8>), Seq<char>>(
            "empty NEW_TOKEN"@,
        ),
{
    reveal(body_at);
    lemma_small_type(0x07, varint_bytes(0) + rest);
    lemma_take_varint(0, rest);
}

proof fn lemma_count_refused(ty: u8, count: u64, rest: Seq<u8>)
    requires
        ty == 0x12 || ty == 0x13 || ty == 0x16 || ty == 0x17,
        MAX_STREAM_COUNT < count < VARINT_LIMIT,
    ensures
        frame_at(seq![ty] + (varint_bytes(count) + rest)) == Err::<
            (FrameView, Seq<u8>),
            Seq<char>,
        >("stream count beyond the largest stream"@),
{
    reveal(body_at);
    lemma_small_type(ty, varint_bytes(count) + rest);
    lemma_take_varint(count, rest);
}

/// A NEW_CONNECTION_ID frame is refused if its identifier has no byte or more than twenty, or
/// if it retires the identifier that it brings.
pub proof fn law_faulty_cids_refused(
    seq_no: u64,
    before: u64,
    cid: Seq<u8>,
    token: Seq<u8>,
    rest: Seq<u8>,
)
    requires
        seq_no < 0x4000_0000_0000_0000,
        before < 0x4000_0000_0000_0000,
        cid.len() <= 255,
        token.len() == 16,
    ensures
        ({
            let s = seq![0x18u8] + (varint_bytes(seq_no) + (varint_bytes(before)
                + (seq![cid.len() as u8] + (cid + (token + rest)))));
            &&& cid.len() == 0 || cid.len() > 20 ==> frame_at(s) == Err::<
                (FrameView, Seq<u8>),
                Seq<char>,
            >("connection ID of a length that is not allowed"@)
            &&& 1 <= cid.len() <= 20 && before > seq_no ==> frame_at(s) == Err::<
                (FrameView, Seq<u8>),
                Seq<char>,
            >("retire_prior_to above the sequence number"@)
            &&& 1 <= cid.len() <= 20 && before <= seq_no ==> frame_at(s) == Ok::<
                (FrameView, Seq<u8>),
                Seq<char>,
            >((FrameView::NewConnectionId { seq: seq_no, retire_prior_to: before, cid, token }, rest))
        }),
{
    reveal(body_at);
    let s4 = cid + (token + rest);
    let s3 = seq![cid.len() as u8] + s4;
    let s2 = varint_bytes(before) + s3;
    let s1 = varint_bytes(seq_no) + s2;
    lemma_small_type(0x18, s1);
    lemma_take_varint(seq_no, s2);
    lemma_take_varint(before, s3);
    assert(s3.skip(1) =~= s4);
    crate::coding::lemma_take_bytes(cid, token + rest);
    crate::coding::lemma_take_bytes(token, rest);
}

} // verus!
