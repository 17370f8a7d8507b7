//! Errors of the protocol core.
use crate::multipath::PathValidation;
use crate::types::SocketAddr;
use vstd::prelude::*;
use vstd::string::StringExecFns;

verus! {

/// Transport error codes (RFC 9000 Section 20.1).
#[derive(Clone, Copy, Debug, PartialEq, Eq, Structural)]
pub enum TransportErrorCode {
    /// 0x00
    NoError,
    /// 0x01
    InternalError,
    /// 0x02
    ConnectionRefused,
    /// 0x03
    FlowControlError,
    /// 0x04
    StreamLimitError,
    /// 0x05
    StreamStateError,
    /// 0x06
    FinalSizeError,
    /// 0x07
    FrameEncodingError,
    /// 0x08
    TransportParameterError,
    /// 0x09
    ConnectionIdLimitError,
    /// 0x0a
    ProtocolViolation,
    /// 0x0b
    InvalidToken,
    /// 0x0c
    ApplicationError,
    /// 0x0d
    CryptoBufferExceeded,
    /// 0x0e
    KeyUpdateError,
    /// 0x0f
    AeadLimitReached,
    /// 0x10
    NoViablePath,
    /// 0x0100 to 0x01ff: the TLS alert of that low byte.
    CryptoError(u8),
    /// Any other code.
    Unknown(u64),
}

impl TransportErrorCode {
    /// The meaning of a code on the wire.
    pub open spec fn spec_from_u64(code: u64) -> TransportErrorCode {
        if code == 0x00 {
            TransportErrorCode::NoError
        } else if code == 0x01 {
            TransportErrorCode::InternalError
        } else if code == 0x02 {
            TransportErrorCode::ConnectionRefused
        } else if code == 0x03 {
            TransportErrorCode::FlowControlError
        } else if code == 0x04 {
            TransportErrorCode::StreamLimitError
        } else if code == 0x05 {
            TransportErrorCode::StreamStateError
        } else if code == 0x06 {
            TransportErrorCode::FinalSizeError
        } else if code == 0x07 {
            TransportErrorCode::FrameEncodingError
        } else if code == 0x08 {
            TransportErrorCode::TransportParameterError
        } else if code == 0x09 {
            TransportErrorCode::ConnectionIdLimitError
        } else if code == 0x0a {
            TransportErrorCode::ProtocolViolation
        } else if code == 0x0b {
            TransportErrorCode::InvalidToken
        } else if code == 0x0c {
            TransportErrorCode::ApplicationError
        } else if code == 0x0d {
            TransportErrorCode::CryptoBufferExceeded
        } else if code == 0x0e {
            TransportErrorCode::KeyUpdateError
        } else if code == 0x0f {
            TransportErrorCode::AeadLimitReached
        } else if code == 0x10 {
            TransportErrorCode::NoViablePath
        } else if 0x100 <= code <= 0x1ff {
            TransportErrorCode::CryptoError((code - 0x100) as u8)
        } else {
            TransportErrorCode::Unknown(code)
        }
    }

    /// The meaning of a code on the wire.
    pub fn from_u64(code: u64) -> (c: TransportErrorCode)
        ensures
            c == TransportErrorCode::spec_from_u64(code),
    {
        match code {
            0x00 => TransportErrorCode::NoError,
            0x01 => TransportErrorCode::InternalError,
            0x02 => TransportErrorCode::ConnectionRefused,
            0x03 => TransportErrorCode::FlowControlError,
            0x04 => TransportErrorCode::StreamLimitError,
            0x05 => TransportErrorCode::StreamStateError,
            0x06 => TransportErrorCode::FinalSizeError,
            0x07 => TransportErrorCode::FrameEncodingError,
            0x08 => TransportErrorCode::TransportParameterError,
            0x09 => TransportErrorCode::ConnectionIdLimitError,
            0x0a => TransportErrorCode::ProtocolViolation,
            0x0b => TransportErrorCode::InvalidToken,
            0x0c => TransportErrorCode::ApplicationError,
            0x0d => TransportErrorCode::CryptoBufferExceeded,
            0x0e => TransportErrorCode::KeyUpdateError,
            0x0f => TransportErrorCode::AeadLimitReached,
            0x10 => TransportErrorCode::NoViablePath,
            _ => if 0x100 <= code && code <= 0x1ff {
                TransportErrorCode::CryptoError((code - 0x100) as u8)
            } else {
                TransportErrorCode::Unknown(code)
            },
        }
    }
}

/// The frame types named in transport errors (RFC 9000 Section 19).
#[derive(Clone, Copy, Debug, PartialEq, Eq, Structural)]
pub enum FrameType {
    /// 0x07
    NewToken,
    /// 0x18
    NewConnectionId,
    /// 0x19
    RetireConnectionId,
}

/// What went wrong with a connection or one of its paths.
#[derive(Clone, Copy, Debug, PartialEq, Eq, Structural)]
pub enum ConnectionFault {
    /// A path challenge was asked for before the 1-RTT keys were ready.
    OneRttKeysNotReady,
    /// The secure random number generator failed.
    RandomFailed,
    /// The path to this address is registered already.
    PathKnown(SocketAddr),
    /// No more than this many paths can be registered.
    PathLimit(usize),
    /// No path has this index.
    PathIndex(usize),
    /// The active path cannot be removed.
    ActivePath,
    /// The path of this index is in this state of validation and may not become
    /// the preferred one.
    PathNotUsable(usize, PathValidation),
    /// The connection was closed, and the peer gave no reason that carries a code.
    Closed,
}

impl ConnectionFault {
    /// The message for a fault; `address` is the text of the address that the
    /// fault names, where it names one.
    pub open spec fn spec_message(self, address: Seq<char>) -> Seq<char> {
        match self {
            ConnectionFault::OneRttKeysNotReady =>
                "cannot send PATH_CHALLENGE before 1-RTT keys are ready"@,
            ConnectionFault::RandomFailed => "secure RNG failed"@,
            ConnectionFault::PathKnown(_) => "path to "@ + address + " is already registered"@,
            ConnectionFault::PathLimit(limit) => "multipath capacity exceeded ("@ + decimal(
                limit as nat,
            ) + " paths max)"@,
            ConnectionFault::PathIndex(index) => "path index "@ + decimal(index as nat)
                + " out of range"@,
            ConnectionFault::ActivePath => "cannot remove the active path"@,
            ConnectionFault::PathNotUsable(index, validation) => "path "@ + decimal(index as nat)
                + " is not usable (validation: "@ + validation.spec_name() + ")"@,
            ConnectionFault::Closed => "connection closed"@,
        }
    }

    /// The message for a fault; `address` is the text of the address that the
    /// fault names, where it names one.
    pub fn message(&self, address: &str) -> (text: String)
        ensures
            text@ == self.spec_message(address@),
    {
        match self {
            ConnectionFault::OneRttKeysNotReady => String::from_str(
                "cannot send PATH_CHALLENGE before 1-RTT keys are ready",
            ),
            ConnectionFault::RandomFailed => String::from_str("secure RNG failed"),
            ConnectionFault::PathKnown(_) => {
                let mut text = String::from_str("path to ");
                text.append(address);
                text.append(" is already registered");
                text
            },
            ConnectionFault::PathLimit(limit) => {
                let mut text = String::from_str("multipath capacity exceeded (");
                append_decimal(&mut text, *limit as u64);
                text.append(" paths max)");
                text
            },
            ConnectionFault::PathIndex(index) => {
                let mut text = String::from_str("path index ");
                append_decimal(&mut text, *index as u64);
                text.append(" out of range");
                text
            },
            ConnectionFault::ActivePath => String::from_str("cannot remove the active path"),
            ConnectionFault::PathNotUsable(index, validation) => {
                let mut text = String::from_str("path ");
                append_decimal(&mut text, *index as u64);
                text.append(" is not usable (validation: ");
                text.append(validation.name());
                text.append(")");
                text
            },
            ConnectionFault::Closed => String::from_str("connection closed"),
        }
    }
}

/// An error of the protocol core.
#[derive(Debug)]
#[allow(inconsistent_fields)]
pub enum OxiQuicError {
    /// The connection, or a path of it, cannot do what was asked.
    Connection(ConnectionFault),
    /// The TLS session reported this error.
    Tls(String),
    /// A deadline passed.
    Timeout,
    /// The peer has lost the connection's state and said so (RFC 9000 Section 10.3).
    StatelessReset,
    /// The server speaks none of our versions; these are the ones it speaks.
    VersionNegotiation {
        /// The versions the server offered.
        supported: Vec<u32>,
    },
    /// A transport error (RFC 9000 Section 20.1).
    TransportError {
        /// The error code.
        code: TransportErrorCode,
        /// The type of the frame at fault, where one is.
        frame_type: Option<FrameType>,
        /// What was wrong, for people.
        reason: String,
    },
    /// The peer's application closed the connection.
    ApplicationClose {
        /// The application's error code.
        code: u64,
        /// The application's reason.
        reason: String,
    },
}

/// What an error says, with text as a sequence of characters.
#[verifier::ext_equal]
pub enum ErrorView {
    /// See [`OxiQuicError::Connection`].
    Connection(ConnectionFault),
    /// See [`OxiQuicError::Tls`].
    Tls(Seq<char>),
    /// See [`OxiQuicError::Timeout`].
    Timeout,
    /// See [`OxiQuicError::StatelessReset`].
    StatelessReset,
    /// See [`OxiQuicError::VersionNegotiation`].
    VersionNegotiation(Seq<u32>),
    /// See [`OxiQuicError::TransportError`].
    TransportError(TransportErrorCode, Option<FrameType>, Seq<char>),
    /// See [`OxiQuicError::ApplicationClose`].
    ApplicationClose(u64, Seq<char>),
}

impl View for OxiQuicError {
    type V = ErrorView;

    open spec fn view(&self) -> ErrorView {
        match *self {
            OxiQuicError::Connection(fault) => ErrorView::Connection(fault),
            OxiQuicError::Tls(text) => ErrorView::Tls(text@),
            OxiQuicError::Timeout => ErrorView::Timeout,
            OxiQuicError::StatelessReset => ErrorView::StatelessReset,
            OxiQuicError::VersionNegotiation { supported } => ErrorView::VersionNegotiation(
                supported@,
            ),
            OxiQuicError::TransportError {
                code,
                frame_type,
                reason,
            } => ErrorView::TransportError(code, frame_type, reason@),
            OxiQuicError::ApplicationClose { code, reason } => ErrorView::ApplicationClose(
                code,
                reason@,
            ),
        }
    }
}

/// A transport error with `code` and the text `reason`, blaming no frame type.
pub fn transport_error(code: TransportErrorCode, reason: &str) -> (e: OxiQuicError)
    ensures
        e@ == ErrorView::TransportError(code, None, reason@),
{
    OxiQuicError::TransportError { code, frame_type: None, reason: String::from_str(reason) }
}

/// A PROTOCOL_VIOLATION by a frame of `frame_type`.
pub fn frame_violation(frame_type: FrameType, reason: &str) -> (e: OxiQuicError)
    ensures
        e@ == ErrorView::TransportError(
            TransportErrorCode::ProtocolViolation,
            Some(frame_type),
            reason@,
        ),
{
    OxiQuicError::TransportError {
        code: TransportErrorCode::ProtocolViolation,
        frame_type: Some(frame_type),
        reason: String::from_str(reason),
    }
}

/// The decimal digit of `d`.
pub open spec fn digit(d: int) -> char {
    if d == 0 {
        '0'
    } else if d == 1 {
        '1'
    } else if d == 2 {
        '2'
    } else if d == 3 {
        '3'
    } else if d == 4 {
        '4'
    } else if d == 5 {
        '5'
    } else if d == 6 {
        '6'
    } else if d == 7 {
        '7'
    } else if d == 8 {
        '8'
    } else {
        '9'
    }
}

/// `n` in decimal, without leading zeros.
pub open spec fn decimal(n: nat) -> Seq<char>
    decreases n,
{
    if n < 10 {
        seq![digit(n as int)]
    } else {
        decimal(n / 10).push(digit((n % 10) as int))
    }
}

/// The text of one decimal digit.
fn digit_text(d: u64) -> (t: &'static str)
    requires
        d < 10,
    ensures
        t@ == seq![digit(d as int)],
{
    proof {
        reveal_strlit("0");
        reveal_strlit("1");
        reveal_strlit("2");
        reveal_strlit("3");
        reveal_strlit("4");
        reveal_strlit("5");
        reveal_strlit("6");
        reveal_strlit("7");
        reveal_strlit("8");
        reveal_strlit("9");
    }
    let t = match d {
        0 => "0",
        1 => "1",
        2 => "2",
        3 => "3",
        4 => "4",
        5 => "5",
        6 => "6",
        7 => "7",
        8 => "8",
        _ => "9",
    };
    assert(t@ =~= seq![digit(d as int)]);
    t
}

/// Writes `n` in decimal at the end of `text`.
pub fn append_decimal(text: &mut String, n: u64)
    ensures
        final(text)@ == old(text)@ + decimal(n as nat),
    decreases n,
{
    if n >= 10 {
        append_decimal(text, n / 10);
    }
    text.append(digit_text(n % 10));
    assert(text@ =~= old(text)@ + decimal(n as nat));
}

/// A number below ten is one digit; any other is its tenth part with one digit behind it, so
/// no number starts with a zero but zero.
pub proof fn law_decimal(n: nat, d: nat)
    requires
        d < 10,
    ensures
        decimal(d).len() == 1,
        n > 0 ==> decimal(10 * n + d) == decimal(n) + decimal(d),
        n > 0 ==> decimal(n)[0] != '0',
        decimal(0) == seq!['0'] && decimal(1) == seq!['1'] && decimal(2) == seq!['2'] && decimal(3)
            == seq!['3'] && decimal(4) == seq!['4'],
        decimal(5) == seq!['5'] && decimal(6) == seq!['6'] && decimal(7) == seq!['7'] && decimal(8)
            == seq!['8'] && decimal(9) == seq!['9'],
    decreases n,
{
    if n > 0 {
        assert((10 * n + d) / 10 == n);
        assert((10 * n + d) % 10 == d);
        assert(decimal(10 * n + d) =~= decimal(n) + decimal(d));
        if n >= 10 {
            law_decimal(n / 10, n % 10);
            assert(10 * (n / 10) + n % 10 == n);
        }
    }
}

} // verus!
