//! Identifiers and enumerations shared by the whole protocol core.
use vstd::prelude::*;

verus! {

/// Which side of the connection an endpoint is.
#[derive(Clone, Copy, Debug, PartialEq, Eq, Structural)]
pub enum Role {
    /// The endpoint that opened the connection.
    Client,
    /// The endpoint that accepted the connection.
    Server,
}

/// Where a connection is in its life.
#[derive(Clone, Copy, Debug, PartialEq, Eq, Structural)]
pub enum ConnectionState {
    /// The TLS handshake is under way.
    Handshaking,
    /// The handshake is complete.
    Established,
    /// The connection has been closed.
    Closed,
}

/// The kind of a QUIC packet, told by its header (RFC 9000 Section 17).
#[derive(Clone, Copy, Debug, PartialEq, Eq, Structural)]
pub enum PacketType {
    /// Long header, type 0.
    Initial,
    /// Long header, type 1.
    ZeroRtt,
    /// Long header, type 2.
    Handshake,
    /// Long header, type 3.
    Retry,
    /// Long header, version 0.
    VersionNegotiation,
    /// Short header: 1-RTT.
    Short,
}

/// Whether a stream carries data both ways.
#[derive(Clone, Copy, Debug, PartialEq, Eq, Structural)]
pub enum Direction {
    /// Both endpoints send.
    Bidirectional,
    /// Only the initiator sends.
    Unidirectional,
}

/// The endpoint that opened a stream.
#[derive(Clone, Copy, Debug, PartialEq, Eq, Structural)]
pub enum Initiator {
    /// Opened by the client.
    Client,
    /// Opened by the server.
    Server,
}

/// A stream identifier (RFC 9000 Section 2.1).
#[derive(Clone, Copy, Debug, PartialEq, Eq, Structural)]
pub struct StreamId(pub u64);

impl StreamId {
    /// The lowest bit names the initiator.
    pub open spec fn spec_initiator(self) -> Initiator {
        if self.0 % 2 == 0 {
            Initiator::Client
        } else {
            Initiator::Server
        }
    }

    /// The second lowest bit names the direction.
    pub open spec fn spec_direction(self) -> Direction {
        if (self.0 / 2) % 2 == 0 {
            Direction::Bidirectional
        } else {
            Direction::Unidirectional
        }
    }

    /// The endpoint that opened the stream.
    pub fn initiator(&self) -> (i: Initiator)
        ensures
            i == self.spec_initiator(),
    {
        if self.0 % 2 == 0 {
            Initiator::Client
        } else {
            Initiator::Server
        }
    }

    /// Whether the stream is bidirectional.
    pub fn direction(&self) -> (d: Direction)
        ensures
            d == self.spec_direction(),
    {
        if (self.0 / 2) % 2 == 0 {
            Direction::Bidirectional
        } else {
            Direction::Unidirectional
        }
    }
}

/// Compares two byte strings.
pub fn same_bytes(a: &[u8], b: &[u8]) -> (same: bool)
    ensures
        same == (a@ == b@),
{
    if a.len() != b.len() {
        return false;
    }
    let mut i: usize = 0;
    while i < a.len()
        invariant
            i <= a.len(),
            a.len() == b.len(),
            forall|j: int| 0 <= j < i ==> a@[j] == b@[j],
        decreases a.len() - i,
    {
        if a[i] != b[i] {
            return false;
        }
        i = i + 1;
    }
    assert(a@ =~= b@);
    true
}

/// Copies a byte string.
pub fn copy_bytes(a: &[u8]) -> (v: Vec<u8>)
    ensures
        v@ == a@,
{
    let mut v: Vec<u8> = Vec::new();
    v.extend_from_slice(a);
    assert(v@ =~= a@);
    v
}

/// A connection identifier (RFC 9000 Section 5.1).
#[derive(Debug)]
pub struct ConnectionId {
    bytes: Vec<u8>,
}

impl View for ConnectionId {
    type V = Seq<u8>;

    closed spec fn view(&self) -> Seq<u8> {
        self.bytes@
    }
}

impl ConnectionId {
    /// The identifier made of `bytes`.
    pub fn new(bytes: Vec<u8>) -> (cid: ConnectionId)
        ensures
            cid@ == bytes@,
    {
        ConnectionId { bytes }
    }

    /// The bytes of the identifier.
    pub fn as_bytes(&self) -> (b: &[u8])
        ensures
            b@ == self@,
    {
        self.bytes.as_slice()
    }
}

impl Clone for ConnectionId {
    fn clone(&self) -> (cid: ConnectionId)
        ensures
            cid@ == self@,
    {
        ConnectionId { bytes: copy_bytes(self.bytes.as_slice()) }
    }
}

/// A UDP socket address.
#[derive(Clone, Copy, Debug, PartialEq, Eq, Structural)]
#[allow(inconsistent_fields)]
pub enum SocketAddr {
    /// An IPv4 address and port.
    V4 {
        /// The address, most significant octet first.
        ip: u32,
        /// The port.
        port: u16,
    },
    /// An IPv6 address and port.
    V6 {
        /// The address, most significant segment first.
        ip: u128,
        /// The port.
        port: u16,
        /// The flow label.
        flowinfo: u32,
        /// The scope identifier.
        scope_id: u32,
    },
}

impl SocketAddr {
    /// The IPv4 address `a.b.c.d` with `port`.
    pub fn v4(a: u8, b: u8, c: u8, d: u8, port: u16) -> (addr: SocketAddr)
        ensures
            addr == (SocketAddr::V4 {
                ip: (a * 0x100_0000 + b * 0x1_0000 + c * 0x100 + d) as u32,
                port,
            }),
    {
        SocketAddr::V4 {
            ip: a as u32 * 0x100_0000 + b as u32 * 0x1_0000 + c as u32 * 0x100 + d as u32,
            port,
        }
    }
}

} // verus!
