//! QUIC transport (RFC 9000, 9001, 9002), verified with Verus.
//!
//! The crate is a synchronous protocol core without I/O. A
//! [`connection::Connection`] takes in datagrams and the time; TLS and packet
//! protection are those of `rustls`. [`endpoint`] decides for a server which
//! connection a datagram belongs to, and for a caller when to stop waiting; sockets,
//! tasks and timers are the caller's.
//!
//! Contracts are stated over mathematical models: each stateful type has a view, and
//! the functions on that view say what an operation makes of it. A connection's model
//! is [`connection::model::Conn`]. What keys compute, and what a TLS session gives when
//! asked, is named in [`session`]. What TLS makes of the handshake bytes it is handed, and
//! which random bytes come, is not predicted: those calls are put on record, and contracts
//! say what the connection does for whatever was answered.
//!
//! Properties that span several operations are proof functions whose names begin
//! with `law_`.
pub mod cid;
pub mod coding;
pub mod connection;
pub mod crypto_stream;
pub mod endpoint;
pub mod error;
pub mod filtered;
pub mod flow_control;
pub mod frame;
pub mod multipath;
pub mod packet;
pub mod params_codec;
pub mod reassembly;
pub mod recovery;
pub mod sent_packet;
pub mod session;
pub mod space;
pub mod stream;
pub mod time;
pub mod types;

pub use connection::Connection;
pub use error::OxiQuicError;
pub use packet::{
    compute_retry_integrity_tag, decode_version_negotiation, encode_retry_packet,
    encode_version_negotiation, parse_retry_packet, verify_retry_integrity_tag,
};
pub use params_codec::TransportParams;
pub use types::{ConnectionState, Role, StreamId};
