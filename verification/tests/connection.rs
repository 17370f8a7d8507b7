//! Connections against a TLS peer of the `ring` provider of rustls.
use oxiquic_transport::cid::CidEvent;
use oxiquic_transport::coding::Buf;
use oxiquic_transport::connection::loss::RecoveryEvent;
use oxiquic_transport::connection::setup::Setup;
use oxiquic_transport::endpoint::connect::{checked_server_name, server_name};
use oxiquic_transport::endpoint::driver::{
    early_data_override, wake_at, Burst, Driver, HandshakeStep, OpenAttempts, WaitStep,
};
use oxiquic_transport::endpoint::retry::{
    fallback_scid, random_scid_for_retry, retry_answer, scid_from_draw,
};
use oxiquic_transport::error::{FrameType, TransportErrorCode};
use oxiquic_transport::frame::{decode_frame, AckRange, Frame};
use oxiquic_transport::packet::{encode_retry_packet, encode_version_negotiation};
use oxiquic_transport::params_codec::encode_transport_params;
use oxiquic_transport::recovery::SpaceIndex;
use oxiquic_transport::sent_packet::{SentFrame, SentPacket};
use oxiquic_transport::session::{RandomSource, Tls};
use oxiquic_transport::time::{Duration, Instant};
use oxiquic_transport::types::{ConnectionId, Direction, PacketType, SocketAddr};
use oxiquic_transport::{
    parse_retry_packet, verify_retry_integrity_tag, Connection, ConnectionState, OxiQuicError, Role,
    StreamId, TransportParams,
};
use rustls::client::danger::{HandshakeSignatureValid, ServerCertVerified, ServerCertVerifier};
use rustls::crypto::CryptoProvider;
use rustls::pki_types::{CertificateDer, PrivatePkcs8KeyDer, ServerName, UnixTime};
use rustls::quic::{DirectionalKeys, KeyChange, Keys, PacketKeySet, Secrets, Suite, Version};
use rustls::server::{ClientHello, ResolvesServerCert};
use rustls::sign::CertifiedKey;
use rustls::{ClientConfig, DigitallySignedStruct, ServerConfig, SignatureScheme};
use std::sync::Arc;

// A client that trusts any certificate, and a server with one key.

fn provider() -> Arc<CryptoProvider> {
    Arc::new(rustls::crypto::ring::default_provider())
}

fn suite() -> Suite {
    rustls::crypto::ring::cipher_suite::TLS13_AES_128_GCM_SHA256
        .tls13()
        .expect("a TLS 1.3 suite")
        .quic_suite()
        .expect("a QUIC suite")
}

#[derive(Debug)]
struct TrustAll;

impl ServerCertVerifier for TrustAll {
    fn verify_server_cert(
        &self,
        _end_entity: &CertificateDer<'_>,
        _intermediates: &[CertificateDer<'_>],
        _server_name: &ServerName<'_>,
        _ocsp_response: &[u8],
        _now: UnixTime,
    ) -> Result<ServerCertVerified, rustls::Error> {
        Ok(ServerCertVerified::assertion())
    }

    fn verify_tls12_signature(
        &self,
        _message: &[u8],
        _cert: &CertificateDer<'_>,
        _dss: &DigitallySignedStruct,
    ) -> Result<HandshakeSignatureValid, rustls::Error> {
        Ok(HandshakeSignatureValid::assertion())
    }

    fn verify_tls13_signature(
        &self,
        _message: &[u8],
        _cert: &CertificateDer<'_>,
        _dss: &DigitallySignedStruct,
    ) -> Result<HandshakeSignatureValid, rustls::Error> {
        Ok(HandshakeSignatureValid::assertion())
    }

    fn supported_verify_schemes(&self) -> Vec<SignatureScheme> {
        vec![SignatureScheme::ED25519]
    }
}

#[derive(Debug)]
struct OneKey(Arc<CertifiedKey>);

impl ResolvesServerCert for OneKey {
    fn resolve(&self, _client_hello: ClientHello<'_>) -> Option<Arc<CertifiedKey>> {
        Some(Arc::clone(&self.0))
    }
}

fn client_config() -> Arc<ClientConfig> {
    Arc::new(
        ClientConfig::builder_with_provider(provider())
            .with_protocol_versions(&[&rustls::version::TLS13])
            .expect("TLS 1.3")
            .dangerous()
            .with_custom_certificate_verifier(Arc::new(TrustAll))
            .with_no_client_auth(),
    )
}

fn server_config() -> Arc<ServerConfig> {
    // An Ed25519 key in PKCS #8: the fixed front, and 32 bytes of seed.
    let mut der = vec![
        0x30, 0x2e, 0x02, 0x01, 0x00, 0x30, 0x05, 0x06, 0x03, 0x2b, 0x65, 0x70, 0x04, 0x22, 0x04,
        0x20,
    ];
    der.extend_from_slice(&[7; 32]);
    let key = rustls::crypto::ring::sign::any_eddsa_type(&PrivatePkcs8KeyDer::from(der))
        .expect("an Ed25519 key");
    let certified = CertifiedKey::new(vec![CertificateDer::from(vec![0x30, 0x00])], key);
    Arc::new(
        ServerConfig::builder_with_provider(provider())
            .with_protocol_versions(&[&rustls::version::TLS13])
            .expect("TLS 1.3")
            .with_no_client_auth()
            .with_cert_resolver(Arc::new(OneKey(Arc::new(certified)))),
    )
}

const CLIENT_CID: [u8; 8] = [0xc1; 8];
const SERVER_CID: [u8; 8] = [0x51; 8];
const FIRST_DCID: [u8; 8] = [0x83, 0x94, 0xc8, 0xf0, 0x3e, 0x51, 0x57, 0x08];

fn addr(port: u16) -> SocketAddr {
    SocketAddr::v4(127, 0, 0, 1, port)
}

fn at(millis: u64) -> Instant {
    Instant { nanos: u128::from(millis) * 1_000_000 }
}

fn params() -> TransportParams {
    TransportParams {
        max_idle_timeout_ms: 30_000,
        initial_max_data: 1 << 20,
        initial_max_stream_data_bidi_local: 256 * 1024,
        initial_max_stream_data_bidi_remote: 256 * 1024,
        initial_max_stream_data_uni: 256 * 1024,
        initial_max_streams_bidi: 100,
        initial_max_streams_uni: 100,
        active_connection_id_limit: 4,
        max_datagram_frame_size: 1200,
        ..TransportParams::default()
    }
}

fn cid(bytes: &[u8]) -> ConnectionId {
    ConnectionId::new(bytes.to_vec())
}

fn client_with(params: TransportParams) -> Connection {
    let tls = rustls::quic::ClientConnection::new(
        client_config(),
        Version::V1,
        ServerName::try_from("localhost").expect("server name"),
        encode_transport_params(&params),
    )
    .expect("client session");
    Connection::new(Setup {
        role: Role::Client,
        tls: Tls::Client(tls),
        suite: suite(),
        provider: provider(),
        local_cid: cid(&CLIENT_CID),
        initial_dcid: cid(&FIRST_DCID),
        peer_cid: cid(&FIRST_DCID),
        peer_addr: addr(4433),
        params,
        datagram_buffer: 4096,
    })
}

fn client() -> Connection {
    client_with(params())
}

fn server_session() -> rustls::quic::ServerConnection {
    rustls::quic::ServerConnection::new(
        server_config(),
        Version::V1,
        encode_transport_params(&params()),
    )
    .expect("server session")
}

fn server() -> Connection {
    Connection::new(Setup {
        role: Role::Server,
        tls: Tls::Server(server_session()),
        suite: suite(),
        provider: provider(),
        local_cid: cid(&SERVER_CID),
        initial_dcid: cid(&FIRST_DCID),
        peer_cid: cid(&CLIENT_CID),
        peer_addr: addr(40000),
        params: params(),
        datagram_buffer: 4096,
    })
}

fn payload(frames: &[Frame<'_>]) -> Vec<u8> {
    let mut out = Vec::new();
    for frame in frames {
        frame.encode(&mut out);
    }
    out
}

/// Hands all handshake data that `from` has to `to`. Says whether there was any.
fn carry_handshake(from: &mut Connection, to: &mut Connection, now: Instant) -> bool {
    let mut any = false;
    from.pump_write_hs();
    for packet_type in [PacketType::Initial, PacketType::Handshake] {
        while let Some((offset, data)) = from.take_crypto(packet_type, 1000) {
            any = true;
            let bytes = payload(&[Frame::Crypto { offset, data: &data }]);
            assert!(to.process_frames(now, packet_type, &bytes).expect("handshake data"));
            to.pump_write_hs();
        }
    }
    any
}

/// A client and a server that have shaken hands over plain frames.
fn established_pair() -> (Connection, Connection) {
    let (mut client, mut server) = (client(), server());
    for _ in 0..10 {
        let sent = carry_handshake(&mut client, &mut server, at(1));
        let answered = carry_handshake(&mut server, &mut client, at(1));
        if !sent && !answered {
            break;
        }
    }
    assert!(!client.is_handshaking() && !server.is_handshaking(), "handshake did not complete");
    (client, server)
}

/// Carries a path challenge and its response between two connections.
fn carry_path_frames(a: &mut Connection, b: &mut Connection, now: Instant) {
    for _ in 0..2 {
        for turn in 0..2 {
            let (from, to): (&mut Connection, &mut Connection) =
                if turn == 0 { (&mut *a, &mut *b) } else { (&mut *b, &mut *a) };
            if let Some(data) = from.take_path_challenge() {
                let bytes = payload(&[Frame::PathChallenge(data)]);
                to.process_frames(now, PacketType::Short, &bytes).expect("PATH_CHALLENGE");
            }
            if let Some(data) = from.take_path_response() {
                let bytes = payload(&[Frame::PathResponse(data)]);
                to.process_frames(now, PacketType::Short, &bytes).expect("PATH_RESPONSE");
            }
        }
    }
}

// Packets as a peer protects them.

fn protect(keys: &DirectionalKeys, header: &[u8], pn_offset: usize, pn: u64, body: &[u8]) -> Vec<u8> {
    let mut sealed = body.to_vec();
    let tag = keys.packet.encrypt_in_place(pn, header, &mut sealed).expect("encrypt");
    mask(&*keys.header, header, pn_offset, &sealed, tag.as_ref())
}

fn mask(
    key: &dyn rustls::quic::HeaderProtectionKey,
    header: &[u8],
    pn_offset: usize,
    sealed: &[u8],
    tag: &[u8],
) -> Vec<u8> {
    let mut packet = header.to_vec();
    packet.extend_from_slice(sealed);
    packet.extend_from_slice(tag);
    let sample = packet[pn_offset + 4..pn_offset + 20].to_vec();
    let (first, rest) = packet.split_at_mut(1);
    key.encrypt_in_place(&sample, &mut first[0], &mut rest[pn_offset - 1..pn_offset + 3])
        .expect("header protection");
    packet
}

/// A protected long-header packet of type `kind` (0 Initial, 1 0-RTT, 2 Handshake).
fn long_packet(keys: &DirectionalKeys, kind: u8, dcid: &[u8], scid: &[u8], pn: u32, body: &[u8]) -> Vec<u8> {
    let mut header = vec![0xc3 | (kind << 4), 0, 0, 0, 1];
    header.push(dcid.len() as u8);
    header.extend_from_slice(dcid);
    header.push(scid.len() as u8);
    header.extend_from_slice(scid);
    if kind == 0 {
        header.push(0);
    }
    let len = 4 + body.len() + 16;
    header.extend_from_slice(&(0x4000 | len as u16).to_be_bytes());
    let pn_offset = header.len();
    header.extend_from_slice(&pn.to_be_bytes());
    protect(keys, &header, pn_offset, u64::from(pn), body)
}

/// A 1-RTT packet of the peer.
fn short_packet(keys: &Keys, phase: Option<(&PacketKeySet, bool)>, pn: u32, body: &[u8]) -> Vec<u8> {
    let bit = match phase {
        Some((_, true)) => 0x04,
        _ => 0,
    };
    let mut header = vec![0x43 | bit];
    header.extend_from_slice(&CLIENT_CID);
    header.extend_from_slice(&pn.to_be_bytes());
    let mut sealed = body.to_vec();
    let key = match phase {
        Some((set, _)) => &set.local,
        None => &keys.local.packet,
    };
    let tag = key.encrypt_in_place(u64::from(pn), &header, &mut sealed).expect("encrypt");
    mask(&*keys.local.header, &header, 9, &sealed, tag.as_ref())
}

/// The server's side of a handshake with a client under test.
struct Peer {
    tls: rustls::quic::ServerConnection,
    initial: Keys,
    handshake: Option<Keys>,
    one_rtt: Option<Keys>,
    secrets: Option<Secrets>,
}

impl Peer {
    fn new() -> Peer {
        Peer {
            tls: server_session(),
            initial: suite().keys(&FIRST_DCID, rustls::Side::Server, Version::V1),
            handshake: None,
            one_rtt: None,
            secrets: None,
        }
    }

    /// Takes in what the client wants to say.
    fn hear(&mut self, client: &mut Connection) {
        for packet_type in [PacketType::Initial, PacketType::Handshake] {
            while let Some((_, data)) = client.take_crypto(packet_type, 4000) {
                self.tls.read_hs(&data).expect("client's handshake data");
            }
        }
    }

    /// The server's first flight in one datagram: an Initial and a Handshake packet.
    fn first_flight(&mut self) -> Vec<u8> {
        let mut datagram = Vec::new();
        let mut initial = Vec::new();
        match self.tls.write_hs(&mut initial) {
            Some(KeyChange::Handshake { keys }) => self.handshake = Some(keys),
            _ => panic!("expected handshake keys"),
        }
        let mut handshake = Vec::new();
        match self.tls.write_hs(&mut handshake) {
            Some(KeyChange::OneRtt { keys, next }) => {
                self.one_rtt = Some(keys);
                self.secrets = Some(next);
            }
            _ => panic!("expected 1-RTT keys"),
        }
        let body = payload(&[Frame::Crypto { offset: 0, data: &initial }]);
        datagram.extend_from_slice(&long_packet(
            &self.initial.local,
            0,
            &CLIENT_CID,
            &SERVER_CID,
            0,
            &body,
        ));
        let body = payload(&[Frame::Crypto { offset: 0, data: &handshake }]);
        let keys = self.handshake.as_ref().expect("handshake keys");
        datagram.extend_from_slice(&long_packet(
            &keys.local,
            2,
            &CLIENT_CID,
            &SERVER_CID,
            0,
            &body,
        ));
        datagram
    }

    fn keys(&self) -> &Keys {
        self.one_rtt.as_ref().expect("1-RTT keys")
    }
}

/// A client that has completed a handshake over protected packets.
fn connected() -> (Connection, Peer) {
    let (mut client, mut peer) = (client(), Peer::new());
    client.pump_write_hs();
    peer.hear(&mut client);
    let datagram = peer.first_flight();
    client.handle_datagram(at(10), &datagram).expect("first flight");
    assert!(client.is_established());
    peer.hear(&mut client);
    (client, peer)
}

fn code_of(r: Result<bool, OxiQuicError>) -> (TransportErrorCode, Option<FrameType>) {
    match r {
        Err(OxiQuicError::TransportError { code, frame_type, .. }) => (code, frame_type),
        other => panic!("expected a transport error, got {other:?}"),
    }
}

// Path validation.

/// PATH_CHALLENGE and PATH_RESPONSE frames round-trip through the wire encoder
/// and decoder with the correct frame-type byte and data payload preserved.
#[test]
fn path_challenge_frame_encode_decode() {
    // PATH_CHALLENGE round-trip.
    let data: [u8; 8] = [0xde, 0xad, 0xbe, 0xef, 0xca, 0xfe, 0xba, 0xbe];
    let mut wire = Vec::new();
    Frame::PathChallenge(data).encode(&mut wire);
    assert_eq!(wire.len(), 9, "PATH_CHALLENGE wire length must be 9");
    assert_eq!(wire[0], 0x1a, "frame type byte");
    assert_eq!(&wire[1..], &data, "data bytes");
    let mut buf = Buf::new(&wire);
    match decode_frame(&mut buf).expect("decode PATH_CHALLENGE") {
        Frame::PathChallenge(d) => assert_eq!(d, data),
        other => panic!("expected PathChallenge, got {other:?}"),
    }
    assert!(buf.is_empty(), "buffer fully consumed");

    // PATH_RESPONSE round-trip.
    let resp: [u8; 8] = [0x01, 0x02, 0x03, 0x04, 0x05, 0x06, 0x07, 0x08];
    let mut wire2 = Vec::new();
    Frame::PathResponse(resp).encode(&mut wire2);
    assert_eq!(wire2.len(), 9, "PATH_RESPONSE wire length must be 9");
    assert_eq!(wire2[0], 0x1b, "frame type byte");
    assert_eq!(&wire2[1..], &resp, "data bytes");
    let mut buf2 = Buf::new(&wire2);
    match decode_frame(&mut buf2).expect("decode PATH_RESPONSE") {
        Frame::PathResponse(d) => assert_eq!(d, resp),
        other => panic!("expected PathResponse, got {other:?}"),
    }
    assert!(buf2.is_empty(), "buffer fully consumed");

    // Zero data round-trips correctly.
    let mut wire3 = Vec::new();
    Frame::PathChallenge([0u8; 8]).encode(&mut wire3);
    let mut buf3 = Buf::new(&wire3);
    match decode_frame(&mut buf3).expect("decode zero PathChallenge") {
        Frame::PathChallenge(d) => assert_eq!(d, [0u8; 8]),
        other => panic!("expected PathChallenge, got {other:?}"),
    }
}

/// After a handshake the client initiates a PATH_CHALLENGE. After one exchange,
/// the server has echoed back a PATH_RESPONSE and the client's
/// `path_validated()` returns `true`. Stream data also continues to flow
/// correctly before and after the probe.
#[test]
fn path_challenge_response_roundtrip() {
    let (mut client, mut server) = established_pair();
    let now = at(2);

    // Send some data before the path probe to confirm baseline works.
    let stream = StreamId(0);
    let bytes = payload(&[Frame::Stream { id: 0, offset: 0, fin: false, data: b"before probe" }]);
    server.process_frames(now, PacketType::Short, &bytes).expect("send before probe");
    let (pre_data, _fin) =
        server.read_stream(stream).expect("open bidi stream").expect("read before probe");
    assert_eq!(pre_data, b"before probe", "pre-probe data delivered");

    // Client initiates a PATH_CHALLENGE; should succeed post-handshake.
    client.initiate_path_challenge().expect("initiate_path_challenge accepted");
    carry_path_frames(&mut client, &mut server, now);
    assert!(
        client.path_validated(),
        "path must be validated after a full PATH_CHALLENGE / PATH_RESPONSE exchange"
    );

    // Data must still flow correctly after the probe.
    let bytes = payload(&[Frame::Stream { id: 0, offset: 12, fin: true, data: b"after probe" }]);
    server.process_frames(now, PacketType::Short, &bytes).expect("send after probe");
    let (post_data, fin) = server.read_stream(stream).expect("stream").expect("read after probe");
    assert_eq!(post_data, b"after probe", "post-probe data delivered");
    assert!(fin, "stream should be finished");
}

/// A PATH_CHALLENGE from the server is echoed back by the client (RFC 9000
/// Section 8.2.2: every PATH_CHALLENGE must be answered with PATH_RESPONSE).
#[test]
fn server_challenge_echoed_by_client() {
    let (mut client, mut server) = established_pair();

    // Server initiates the challenge this time.
    server.initiate_path_challenge().expect("server initiate_path_challenge");
    carry_path_frames(&mut client, &mut server, at(2));
    assert!(
        server.path_validated(),
        "server path must be validated after client echoes PATH_RESPONSE"
    );
}

/// `initiate_path_challenge` returns an error before 1-RTT keys are ready.
#[test]
fn path_challenge_requires_1rtt_keys() {
    let mut client = client();
    // Client is still in the handshaking state: no 1-RTT keys yet.
    assert!(client.is_handshaking(), "client should be handshaking at this point");
    let err = client.initiate_path_challenge().expect_err("must fail before 1-RTT keys");
    // Verify the error message is meaningful.
    let msg = match err {
        OxiQuicError::Connection(fault) => fault.message(""),
        other => panic!("expected a connection error, got {other:?}"),
    };
    assert!(
        msg.contains("1-RTT") || msg.contains("connection error"),
        "error message should mention 1-RTT: {msg}"
    );
}

#[test]
fn response_with_other_data_does_not_validate() {
    let (mut client, _) = established_pair();
    client.set_candidate_peer_addr(addr(5000));
    client.initiate_path_challenge().expect("challenge");
    let data = client.take_path_challenge().expect("challenge to send");
    assert_eq!(client.take_path_challenge(), None);
    let mut other = data;
    other[3] ^= 1;
    let bytes = payload(&[Frame::PathResponse(other)]);
    client.process_frames(at(2), PacketType::Short, &bytes).expect("response");
    assert!(!client.path_validated());
    assert_eq!(client.peer_addr(), addr(4433));
    let bytes = payload(&[Frame::PathResponse(data)]);
    client.process_frames(at(2), PacketType::Short, &bytes).expect("response");
    assert!(client.path_validated());
    assert_eq!(client.peer_addr(), addr(5000));
    // The next challenge starts over.
    client.initiate_path_challenge().expect("challenge");
    assert!(!client.path_validated());
}

#[test]
fn paths_of_a_connection() {
    let mut client = client();
    assert_eq!(client.path_count(), 1);
    assert_eq!(client.multipath_state().active_path().remote_addr, addr(4433));
    assert_eq!(client.add_path(addr(5000), None).expect("add"), 1);
    assert!(client.add_path(addr(5000), None).is_err());
    match client.set_preferred_path(1) {
        Err(OxiQuicError::Connection(fault)) => {
            assert_eq!(fault.message(""), "path 1 is not usable (validation: unknown)")
        }
        other => panic!("expected an error, got {other:?}"),
    }
    match client.set_preferred_path(2) {
        Err(OxiQuicError::Connection(fault)) => {
            assert_eq!(fault.message(""), "path index 2 out of range")
        }
        other => panic!("expected an error, got {other:?}"),
    }
    assert!(client.set_preferred_path(0).is_ok());
    assert_eq!(client.peer_addr(), addr(4433));
    // Nothing was measured yet.
    assert_eq!(client.active_path_rtt(), Duration::from_millis(0));
}

// The handshake.

#[test]
fn handshake_over_protected_packets() {
    let (mut client, mut peer) = (client(), Peer::new());
    assert_eq!(client.state(), ConnectionState::Handshaking);
    client.pump_write_hs();
    peer.hear(&mut client);
    let datagram = peer.first_flight();
    client.handle_datagram(at(10), &datagram).expect("first flight");
    assert!(client.is_established() && !client.is_handshaking());
    assert!(!client.handshake_done());
    // The server's identifier is adopted, and both packets are to be acknowledged.
    assert_eq!(client.peer_cid().as_bytes(), &SERVER_CID);
    assert!(client.ack_owed(PacketType::Initial) && client.ack_owed(PacketType::Handshake));
    assert_eq!(client.take_to_ack(PacketType::Initial), vec![0]);
    assert_eq!(client.received(), (1, datagram.len() as u64));
    assert_eq!(client.idle_deadline(), Some(at(30_010)));
    // The client's Finished completes the server's side.
    peer.hear(&mut client);
    assert!(!peer.tls.is_handshaking());
    // HANDSHAKE_DONE and stream data in a 1-RTT packet.
    let body = payload(&[
        Frame::HandshakeDone,
        Frame::Stream { id: 1, offset: 0, fin: true, data: b"hello" },
    ]);
    let packet = short_packet(peer.keys(), None, 0, &body);
    client.handle_datagram(at(20), &packet).expect("1-RTT packet");
    assert!(client.handshake_done());
    assert_eq!(client.poll_new_peer_stream(), Some(StreamId(1)));
    assert_eq!(client.poll_readable(), Some(StreamId(1)));
    assert_eq!(client.poll_readable(), None);
    assert_eq!(client.read_stream(StreamId(1)), Some(Ok((b"hello".to_vec(), true))));
    assert_eq!(client.take_to_ack(PacketType::Short), vec![0]);
    assert!(!client.ack_owed(PacketType::Short));
}

#[test]
fn server_confirms_the_handshake_itself() {
    let (client, server) = established_pair();
    assert!(server.handshake_done());
    assert!(!client.handshake_done());
    assert_eq!(client.role(), Role::Client);
    assert_eq!(server.role(), Role::Server);
    assert_eq!(server.local_cid().as_bytes(), &SERVER_CID);
}

#[test]
fn packets_that_do_not_open_are_skipped() {
    let (mut client, peer) = connected();
    let body = payload(&[Frame::Stream { id: 1, offset: 0, fin: false, data: b"x" }]);
    let packet = short_packet(peer.keys(), None, 5, &body);
    for i in 0..packet.len() {
        let mut forged = packet.clone();
        forged[i] ^= 0x10;
        assert!(client.handle_datagram(at(20), &forged).is_ok(), "byte {i}");
        assert_eq!(client.read_stream(StreamId(1)), None, "byte {i}");
    }
    assert_eq!(client.key_update_count(), 0);
    client.handle_datagram(at(20), &packet).expect("the packet itself");
    assert_eq!(client.read_stream(StreamId(1)), Some(Ok((b"x".to_vec(), false))));
    // Truncated packets, and packets of other types without keys.
    for len in 0..packet.len() {
        assert!(client.handle_datagram(at(20), &packet[..len]).is_ok());
    }
    let zero_rtt = long_packet(&peer.initial.local, 1, &CLIENT_CID, &SERVER_CID, 9, &body);
    assert!(client.handle_datagram(at(20), &zero_rtt).is_ok());
}

#[test]
fn packets_for_others_are_passed_over() {
    let (mut client, peer) = (client(), Peer::new());
    let ping = payload(&[Frame::Ping, Frame::Padding(20)]);
    let other = long_packet(&peer.initial.local, 0, &[9; 8], &SERVER_CID, 0, &ping);
    client.handle_datagram(at(1), &other).expect("packet for another");
    assert!(!client.ack_owed(PacketType::Initial));
    // Either identifier of ours, or none, will do; padding may follow.
    for (pn, to) in [&CLIENT_CID[..], &FIRST_DCID, &[]].iter().enumerate() {
        let mut packet = long_packet(&peer.initial.local, 0, to, &SERVER_CID, pn as u32, &ping);
        packet.extend_from_slice(&[0; 30]);
        client.handle_datagram(at(1), &packet).expect("packet for us");
        assert_eq!(client.take_to_ack(PacketType::Initial), vec![pn as u64]);
    }
}

#[test]
fn peer_updates_its_keys() {
    let (mut client, mut peer) = connected();
    let mut secrets = peer.secrets.take().expect("secrets");
    let first = secrets.next_packet_keys();
    let second = secrets.next_packet_keys();
    let body = payload(&[Frame::Stream { id: 1, offset: 0, fin: false, data: b"ab" }]);
    let before = short_packet(peer.keys(), None, 0, &body);
    client.handle_datagram(at(20), &before).expect("first phase");
    let body = payload(&[Frame::Stream { id: 1, offset: 2, fin: false, data: b"cd" }]);
    let after = short_packet(peer.keys(), Some((&first, true)), 1, &body);
    client.handle_datagram(at(30), &after).expect("second phase");
    assert_eq!(client.key_update_count(), 1);
    assert_eq!(client.read_stream(StreamId(1)), Some(Ok((b"abcd".to_vec(), false))));
    // Within the cooldown no update may be begun here; later one may.
    assert!(!client.initiate_key_update(at(31)));
    assert!(client.initiate_key_update(at(60_000)));
    // The phase after.
    let body = payload(&[Frame::Stream { id: 1, offset: 4, fin: true, data: b"ef" }]);
    let third = short_packet(peer.keys(), Some((&second, false)), 2, &body);
    client.handle_datagram(at(40), &third).expect("third phase");
    assert_eq!(client.key_update_count(), 2);
    assert_eq!(client.read_stream(StreamId(1)), Some(Ok((b"ef".to_vec(), true))));
}

#[test]
fn keys_updated_here() {
    let (mut client, mut peer) = connected();
    assert!(client.initiate_key_update(at(20)));
    client.initiate_key_update_now(at(20));
    assert_eq!(client.key_update_count(), 1);
    assert!(!client.initiate_key_update(at(21)));
    // The peer answers in the new phase.
    let first = peer.secrets.take().expect("secrets").next_packet_keys();
    let body = payload(&[Frame::Stream { id: 1, offset: 0, fin: false, data: b"new" }]);
    let packet = short_packet(peer.keys(), Some((&first, true)), 0, &body);
    client.handle_datagram(at(22), &packet).expect("new phase");
    assert_eq!(client.key_update_count(), 1);
    assert_eq!(client.read_stream(StreamId(1)), Some(Ok((b"new".to_vec(), false))));
    assert!(!client.initiate_key_update(at(30)));
    // The keys of before are still tried for a while, but not for ever.
    for (pn, millis, read) in [(1, 31, true), (2, 60_000, false)] {
        let mut header = vec![0x47];
        header.extend_from_slice(&CLIENT_CID);
        header.extend_from_slice(&u32::to_be_bytes(pn));
        let body = payload(&[Frame::Stream { id: 5, offset: 0, fin: false, data: b"old" }]);
        let late = protect(&peer.keys().local, &header, 9, u64::from(pn), &body);
        client.handle_datagram(at(millis), &late).expect("old keys");
        let expected = if read { vec![0, u64::from(pn)] } else { Vec::new() };
        assert_eq!(client.take_to_ack(PacketType::Short), expected);
    }
    assert_eq!(client.key_update_count(), 1);
}

#[test]
fn key_update_needs_keys() {
    let mut client = client();
    assert!(!client.initiate_key_update(at(1)));
    assert_eq!(client.key_update_count(), 0);
}

// Retry, Version Negotiation and stateless reset.

#[test]
fn version_negotiation_ends_an_early_handshake() {
    let mut client = client();
    let packet = encode_version_negotiation(&CLIENT_CID, &FIRST_DCID, &[0xff00_001d, 2]);
    match client.handle_datagram(at(1), &packet) {
        Err(OxiQuicError::VersionNegotiation { supported }) => {
            assert_eq!(supported, vec![0xff00_001d, 2])
        }
        other => panic!("expected VersionNegotiation, got {other:?}"),
    }
    // Once a packet has come from the server, it is ignored.
    let (mut client, _) = connected();
    assert!(client.handle_datagram(at(20), &packet).is_ok());
    // A server ignores it always.
    assert!(server().handle_datagram(at(1), &packet).is_ok());
}

#[test]
fn retry_restarts_the_handshake() {
    let mut client = client();
    client.pump_write_hs();
    let (offset, hello) = client.take_crypto(PacketType::Initial, 4000).expect("ClientHello");
    client.on_packet_sent(
        SpaceIndex::Initial,
        SentPacket {
            packet_number: 0,
            time_sent: at(1),
            sent_bytes: 1200,
            in_flight: true,
            ack_eliciting: true,
            rate_sample: None,
            frames: vec![SentFrame::Crypto { offset, data: hello.clone() }],
        },
    );
    assert_eq!(client.take_crypto(PacketType::Initial, 4000), None);
    let retry = encode_retry_packet(&[0xab; 8], &CLIENT_CID, &FIRST_DCID, b"token").expect("retry");
    // A wrong tag is ignored.
    let mut forged = retry.clone();
    let last = forged.len() - 1;
    forged[last] ^= 1;
    client.handle_datagram(at(2), &forged).expect("forged Retry");
    assert_eq!(client.retry_count(), 0);
    client.handle_datagram(at(2), &retry).expect("Retry");
    assert_eq!(client.retry_count(), 1);
    assert_eq!(client.retry_token(), b"token");
    assert_eq!(client.peer_cid().as_bytes(), &[0xab; 8]);
    // The ClientHello goes out again.
    assert_eq!(client.take_crypto(PacketType::Initial, 4000), Some((offset, hello)));
    // A second Retry is ignored.
    let again = encode_retry_packet(&[0xcd; 8], &CLIENT_CID, &[0xab; 8], b"other").expect("retry");
    client.handle_datagram(at(3), &again).expect("second Retry");
    assert_eq!(client.retry_count(), 1);
    assert_eq!(client.retry_token(), b"token");
    // Initial packets are now protected with keys from the new identifier.
    let ping = payload(&[Frame::Ping, Frame::Padding(20)]);
    let old = suite().keys(&FIRST_DCID, rustls::Side::Server, Version::V1);
    let stale = long_packet(&old.local, 0, &CLIENT_CID, &[0xab; 8], 0, &ping);
    client.handle_datagram(at(4), &stale).expect("packet of the old keys");
    assert!(!client.ack_owed(PacketType::Initial));
    let new = suite().keys(&[0xab; 8], rustls::Side::Server, Version::V1);
    let fresh = long_packet(&new.local, 0, &CLIENT_CID, &[0xab; 8], 0, &ping);
    client.handle_datagram(at(4), &fresh).expect("packet of the new keys");
    assert!(client.ack_owed(PacketType::Initial));
}

#[test]
fn retry_after_a_packet_is_ignored() {
    let (mut client, _) = connected();
    let retry = encode_retry_packet(&[0xab; 8], &CLIENT_CID, &FIRST_DCID, b"token").expect("retry");
    client.handle_datagram(at(20), &retry).expect("late Retry");
    assert_eq!(client.retry_count(), 0);
    let mut server = server();
    server.handle_datagram(at(1), &retry).expect("Retry to a server");
    assert_eq!(server.retry_count(), 0);
}

#[test]
fn stateless_reset_is_recognised() {
    let (mut client, _) = connected();
    let token = [0x7e; 16];
    let bytes = payload(&[Frame::NewConnectionId {
        seq: 1,
        retire_prior_to: 0,
        cid: cid(&[0x52; 8]),
        stateless_reset_token: token,
    }]);
    client.process_frames(at(20), PacketType::Short, &bytes).expect("NEW_CONNECTION_ID");
    let mut reset = vec![0x40; 24];
    reset.extend_from_slice(&token);
    assert!(matches!(
        client.handle_datagram(at(21), &reset),
        Err(OxiQuicError::StatelessReset)
    ));
    // The shortest there is, and one byte less.
    assert!(matches!(
        client.handle_datagram(at(21), &reset[19..]),
        Err(OxiQuicError::StatelessReset)
    ));
    assert!(client.handle_datagram(at(21), &reset[20..]).is_ok());
    // Another token.
    let mut other = reset.clone();
    other[39] ^= 1;
    assert!(client.handle_datagram(at(21), &other).is_ok());
}

// Frames.

#[test]
fn close_of_the_peer_is_reported() {
    let (mut client, _) = established_pair();
    let bytes = payload(&[Frame::ConnectionClose {
        error_code: 0x0a,
        application: false,
        frame_type: 0,
        reason: b"no \xff".to_vec(),
    }]);
    assert!(!client.process_frames(at(2), PacketType::Short, &bytes).expect("close"));
    assert!(client.is_closed() && client.state() == ConnectionState::Closed);
    match client.peer_close_reason() {
        Some(OxiQuicError::TransportError { code, frame_type: None, reason }) => {
            assert_eq!(*code, TransportErrorCode::ProtocolViolation);
            assert_eq!(reason, "no \u{fffd}");
        }
        other => panic!("expected a transport error, got {other:?}"),
    }
    let (mut client, _) = established_pair();
    let bytes = payload(&[Frame::ConnectionClose {
        error_code: 42,
        application: true,
        frame_type: 0,
        reason: "gr\u{fc}n".as_bytes().to_vec(),
    }]);
    client.process_frames(at(2), PacketType::Short, &bytes).expect("close");
    match client.peer_close_reason() {
        Some(OxiQuicError::ApplicationClose { code: 42, reason }) => {
            assert_eq!(reason, "gr\u{fc}n")
        }
        other => panic!("expected an application close, got {other:?}"),
    }
}

#[test]
fn a_closed_connection_stays_closed() {
    let mut fresh = server();
    fresh.note_handshake(true);
    assert_eq!(fresh.state(), ConnectionState::Handshaking);
    fresh.note_handshake(false);
    assert_eq!(fresh.state(), ConnectionState::Established);
    assert!(fresh.handshake_done() && !fresh.is_handshaking());
    let mut asking = client();
    asking.note_handshake(false);
    assert!(asking.is_established() && !asking.handshake_done());
    let close = payload(&[Frame::ConnectionClose {
        error_code: 7,
        application: true,
        frame_type: 0,
        reason: b"done".to_vec(),
    }]);
    asking.process_frames(at(1), PacketType::Short, &close).expect("close");
    asking.note_handshake(false);
    let done = payload(&[Frame::HandshakeDone, Frame::Ping]);
    asking.process_frames(at(2), PacketType::Short, &done).expect("late frames");
    assert_eq!(asking.state(), ConnectionState::Closed);
    assert!(asking.is_closed() && asking.handshake_done());
}

#[test]
fn faulty_frames_are_refused() {
    let (mut client, mut server) = established_pair();
    // Bytes that are no frame, after one that is.
    assert_eq!(
        code_of(client.process_frames(at(2), PacketType::Short, &[0x01, 0x3f])),
        (TransportErrorCode::FrameEncodingError, None)
    );
    let token = payload(&[Frame::NewToken(b"for later")]);
    assert_eq!(
        code_of(server.process_frames(at(2), PacketType::Short, &token)),
        (TransportErrorCode::ProtocolViolation, Some(FrameType::NewToken))
    );
    assert_eq!(
        code_of(client.process_frames(at(2), PacketType::Handshake, &token)),
        (TransportErrorCode::ProtocolViolation, Some(FrameType::NewToken))
    );
    assert_eq!(client.take_received_token(), None);
    client.process_frames(at(2), PacketType::Short, &token).expect("token");
    assert_eq!(client.take_received_token(), Some(b"for later".to_vec()));
    assert_eq!(client.take_received_token(), None);
    let new_cid = payload(&[Frame::NewConnectionId {
        seq: 1,
        retire_prior_to: 0,
        cid: cid(&[3; 8]),
        stateless_reset_token: [4; 16],
    }]);
    assert_eq!(
        code_of(client.process_frames(at(2), PacketType::Handshake, &new_cid)),
        (TransportErrorCode::ProtocolViolation, Some(FrameType::NewConnectionId))
    );
    let retire = payload(&[Frame::RetireConnectionId { seq: 0 }]);
    assert_eq!(
        code_of(client.process_frames(at(2), PacketType::Initial, &retire)),
        (TransportErrorCode::ProtocolViolation, Some(FrameType::RetireConnectionId))
    );
    // An identifier that came in the same packet cannot be retired in it.
    let both = payload(&[
        Frame::NewConnectionId {
            seq: 1,
            retire_prior_to: 0,
            cid: cid(&[3; 8]),
            stateless_reset_token: [4; 16],
        },
        Frame::RetireConnectionId { seq: 1 },
    ]);
    assert_eq!(
        code_of(client.process_frames(at(2), PacketType::Short, &both)),
        (TransportErrorCode::ProtocolViolation, Some(FrameType::RetireConnectionId))
    );
    // A stream has one end.
    let end = payload(&[
        Frame::Stream { id: 0, offset: 0, fin: true, data: b"abc" },
        Frame::Stream { id: 0, offset: 3, fin: false, data: b"d" },
    ]);
    assert_eq!(
        code_of(server.process_frames(at(2), PacketType::Short, &end)),
        (TransportErrorCode::FinalSizeError, None)
    );
    // TLS refuses what is no handshake.
    let mut fresh = client_with(params());
    let noise = payload(&[Frame::Crypto { offset: 0, data: &[0xff; 40] }]);
    let refused = raw_client(&client_config()).read_hs(&[0xff; 40]).expect_err("noise");
    match fresh.process_frames(at(1), PacketType::Initial, &noise) {
        Err(OxiQuicError::Tls(text)) => assert_eq!(text, refused.to_string()),
        _ => panic!("expected an error of TLS"),
    }
}

#[test]
fn datagrams_are_kept_within_limits() {
    let (mut client, _) = established_pair();
    let bytes = payload(&[Frame::Datagram(b"one"), Frame::Datagram(b"two")]);
    client.process_frames(at(2), PacketType::Short, &bytes).expect("datagrams");
    assert_eq!(client.recv_datagram(), Some(b"one".to_vec()));
    assert_eq!(client.recv_datagram(), Some(b"two".to_vec()));
    assert_eq!(client.recv_datagram(), None);
    // Larger than announced.
    let large = payload(&[Frame::Datagram(&[0; 1300])]);
    assert!(client.process_frames(at(2), PacketType::Short, &large).is_err());
    // Not announced at all.
    let mut without = client_with(TransportParams { max_datagram_frame_size: 0, ..params() });
    let small = payload(&[Frame::Datagram(b"x")]);
    assert_eq!(
        code_of(without.process_frames(at(2), PacketType::Short, &small)),
        (TransportErrorCode::ProtocolViolation, None)
    );
    // The oldest make room for the newest: 4096 bytes are kept.
    for i in 0..5u8 {
        let big = payload(&[Frame::Datagram(&[i; 1000])]);
        client.process_frames(at(2), PacketType::Short, &big).expect("datagram");
    }
    assert_eq!(client.recv_datagram(), Some(vec![1; 1000]));
}

#[test]
fn retired_identifiers_are_replaced() {
    let (mut client, _) = established_pair();
    client.set_peer_params(&params());
    let bytes = payload(&[Frame::RetireConnectionId { seq: 0 }]);
    client.process_frames(at(2), PacketType::Short, &bytes).expect("retire");
    match client.pop_cid_event() {
        Some(CidEvent::Unregister(cid)) => assert_eq!(cid.as_bytes(), &CLIENT_CID),
        other => panic!("expected Unregister, got {other:?}"),
    }
    let registered = match client.pop_cid_event() {
        Some(CidEvent::Register(cid)) => cid,
        other => panic!("expected Register, got {other:?}"),
    };
    assert_eq!(registered.as_bytes().len(), 8);
    assert_ne!(registered.as_bytes(), &[0; 8]);
    let issued = client.take_new_cid().expect("identifier to send");
    assert_eq!(issued.seq, 1);
    assert_eq!(issued.cid.as_bytes(), registered.as_bytes());
    assert!(client.pop_cid_event().is_none() && client.take_new_cid().is_none());
    assert_eq!(client.take_retired_cid(), None);
    // More are issued up to the peer's limit of four.
    let mut more = 0;
    while client.maybe_issue_new_cid().expect("random bytes") {
        more += 1;
    }
    assert_eq!(more, 3);
}

#[test]
fn streams_are_reset_and_stopped() {
    let (mut client, mut server) = established_pair();
    let bytes = payload(&[
        Frame::Stream { id: 0, offset: 0, fin: false, data: b"abc" },
        Frame::ResetStream { stream_id: 0, error_code: 9, final_size: 3 },
        Frame::Stream { id: 0, offset: 3, fin: false, data: b"def" },
    ]);
    server.process_frames(at(2), PacketType::Short, &bytes).expect("reset");
    assert_eq!(server.read_stream(StreamId(0)), Some(Err(9)));
    // The stream is known here by its data, so it can be stopped.
    let stop = payload(&[
        Frame::StopSending { stream_id: 0, error_code: 5 },
        Frame::StopSending { stream_id: 0, error_code: 6 },
        Frame::StopSending { stream_id: 400, error_code: 5 },
    ]);
    server.process_frames(at(2), PacketType::Short, &stop).expect("stop");
    assert_eq!(server.take_reset_stream(StreamId(0)), Some((5, 0)));
    assert_eq!(server.take_reset_stream(StreamId(0)), None);
    assert_eq!(server.take_reset_stream(StreamId(400)), None);
    // The peer is blocked, and no stream was closed: the limit stays.
    let blocked =
        payload(&[Frame::StreamsBlocked { dir: Direction::Bidirectional, limit: 100 }]);
    client.process_frames(at(2), PacketType::Short, &blocked).expect("blocked");
    assert_eq!(client.take_max_streams(Direction::Bidirectional), None);
}

// Loss recovery.

fn sent(pn: u64, millis: u64, frames: Vec<SentFrame>) -> SentPacket {
    SentPacket {
        packet_number: pn,
        time_sent: at(millis),
        sent_bytes: 100,
        in_flight: true,
        ack_eliciting: true,
        rate_sample: None,
        frames,
    }
}

#[test]
fn acknowledged_and_lost_packets() {
    let (mut client, mut server) = established_pair();
    let open = payload(&[Frame::Stream { id: 0, offset: 0, fin: false, data: b"?" }]);
    server.process_frames(at(2), PacketType::Short, &open).expect("stream");
    for pn in 0..5u64 {
        let data = SentFrame::Stream { id: 0, offset: pn * 3, fin: false, data: vec![pn as u8; 3] };
        server.on_packet_sent(SpaceIndex::Application, sent(pn, 100 + pn, vec![data]));
    }
    assert!(server.loss_deadline().is_some());
    // 3 and 4 are acknowledged: 0 and 1 are three behind, 2 is not old enough.
    let ack = payload(&[Frame::Ack {
        largest: 4,
        delay: 0,
        first_range: 1,
        ranges: vec![],
    }]);
    assert!(!server.process_frames(at(150), PacketType::Short, &ack).expect("ACK"));
    assert_eq!(server.packets_lost(), 2);
    let first = server.take_lost_stream_data(StreamId(0)).expect("lost data");
    assert_eq!((first.offset, first.data, first.fin), (0, vec![0; 3], false));
    let second = server.take_lost_stream_data(StreamId(0)).expect("lost data");
    assert_eq!((second.offset, second.data, second.fin), (3, vec![1; 3], false));
    assert!(server.take_lost_stream_data(StreamId(0)).is_none());
    match server.pop_recovery_event() {
        Some(RecoveryEvent::Acked { packets, now }) => {
            assert_eq!(packets.len(), 2);
            assert_eq!(now, at(150));
        }
        other => panic!("expected Acked, got {other:?}"),
    }
    match server.pop_recovery_event() {
        Some(RecoveryEvent::Lost { bytes, newest, now }) => {
            assert_eq!((bytes, newest, now), (200, at(101), at(150)));
        }
        other => panic!("expected Lost, got {other:?}"),
    }
    // The round-trip time was sampled: 150 ms less 104 ms.
    assert_eq!(server.active_path_rtt(), Duration::from_millis(46));
    // 2 is lost for its age: nine eighths of the round-trip time after it was sent.
    assert_eq!(server.loss_deadline(), Some(Instant { nanos: 102_000_000 + 46_000_000 / 8 * 9 }));
    server.on_loss_timeout(at(160));
    assert_eq!(server.packets_lost(), 3);
    assert!(server.take_lost_stream_data(StreamId(0)).is_some());
    assert_eq!(server.loss_deadline(), None);
    // The same acknowledgement again has no effect.
    while server.pop_recovery_event().is_some() {}
    server.process_frames(at(170), PacketType::Short, &ack).expect("ACK");
    assert!(server.pop_recovery_event().is_none());
    assert_eq!(client.packets_lost(), 0);
    let _ = client.take_to_ack(PacketType::Short);
}

#[test]
fn every_kind_of_lost_frame_waits_again() {
    let (_, mut server) = established_pair();
    while server.take_new_cid().is_some() {}
    let fresh = cid(&[7; 8]);
    let lost = vec![
        SentFrame::Ping,
        SentFrame::MtuProbe(1400),
        SentFrame::NewConnectionId {
            seq: 9,
            retire_prior_to: 0,
            cid: fresh.clone(),
            stateless_reset_token: [3; 16],
        },
        SentFrame::RetireConnectionId { seq: 5 },
        SentFrame::MaxStreams { dir: Direction::Bidirectional, max: 120 },
        SentFrame::MaxStreams { dir: Direction::Bidirectional, max: 110 },
        SentFrame::MaxStreams { dir: Direction::Unidirectional, max: 130 },
        SentFrame::StreamsBlocked { dir: Direction::Bidirectional, limit: 100 },
        SentFrame::StreamsBlocked { dir: Direction::Unidirectional, limit: 90 },
        SentFrame::NewToken { token: b"first".to_vec() },
        SentFrame::NewToken { token: b"second".to_vec() },
        SentFrame::Crypto { offset: 40, data: b"tls".to_vec() },
    ];
    server.on_packet_sent(SpaceIndex::Application, sent(0, 100, lost));
    server.on_packet_sent(SpaceIndex::Application, sent(3, 101, vec![SentFrame::Ping]));
    let ack = payload(&[Frame::Ack { largest: 3, delay: 0, first_range: 0, ranges: vec![] }]);
    server.process_frames(at(110), PacketType::Short, &ack).expect("ACK");
    assert_eq!(server.packets_lost(), 1);
    let issued = server.take_new_cid().expect("identifier");
    assert_eq!((issued.seq, issued.cid.as_bytes()), (9, fresh.as_bytes()));
    assert_eq!(issued.stateless_reset_token, [3; 16]);
    assert_eq!(server.take_retired_cid(), Some(5));
    assert_eq!(server.take_max_streams(Direction::Bidirectional), Some(120));
    assert_eq!(server.take_max_streams(Direction::Unidirectional), Some(130));
    assert_eq!(server.take_streams_blocked(Direction::Bidirectional), Some(100));
    assert_eq!(server.take_streams_blocked(Direction::Bidirectional), None);
    assert_eq!(server.take_streams_blocked(Direction::Unidirectional), Some(90));
    assert_eq!(server.take_new_token(), Some(b"first".to_vec()));
    assert_eq!(server.take_new_token(), None);
    assert_eq!(server.take_crypto(PacketType::Initial, 100), Some((40, b"tls".to_vec())));
}

#[test]
fn every_datagram_counts() {
    let mut client = client();
    assert_eq!((client.received(), client.idle_deadline()), ((0, 0), None));
    for (n, datagram) in [&[0u8; 7][..], &[0x40; 25], &[0xc0; 33], &[]].iter().enumerate() {
        client.handle_datagram(at(n as u64), datagram).expect("nothing to read");
        assert_eq!(client.idle_deadline(), Some(at(30_000 + n as u64)));
    }
    assert_eq!(client.received(), (4, 65));
    assert_eq!(client.key_update_count(), 0);
}

#[test]
fn probes_after_silence() {
    let mut client = client();
    client.pump_write_hs();
    let (offset, hello) = client.take_crypto(PacketType::Initial, 4000).expect("ClientHello");
    client.on_packet_sent(
        SpaceIndex::Initial,
        sent(0, 1000, vec![SentFrame::Crypto { offset, data: hello.clone() }]),
    );
    // 333 ms, and four times half of that: a probe timeout of 999 ms.
    assert_eq!(client.loss_deadline(), Some(at(1999)));
    client.on_loss_timeout(at(1999));
    assert_eq!(client.probes_owed(), 2);
    assert_eq!(client.take_crypto(PacketType::Initial, 4000), Some((offset, hello)));
    // The next one takes twice as long.
    assert_eq!(client.loss_deadline(), Some(at(1000 + 2 * 999)));
    assert_eq!(client.packets_lost(), 0);
}

#[test]
fn acknowledgement_with_gaps() {
    let mut client = client();
    for pn in [0u64, 2, 3, 7] {
        let data = SentFrame::Crypto { offset: pn, data: vec![pn as u8] };
        client.on_packet_sent(SpaceIndex::Initial, sent(pn, 10 + pn, vec![data]));
    }
    // 7, then 2 and 3 after a gap of three.
    let ack = payload(&[Frame::Ack {
        largest: 7,
        delay: 0,
        first_range: 0,
        ranges: vec![AckRange { gap: 2, range: 1 }],
    }]);
    client.process_frames(at(30), PacketType::Initial, &ack).expect("ACK");
    assert_eq!(client.packets_lost(), 1);
    assert_eq!(client.take_crypto(PacketType::Initial, 4000), Some((0, vec![0])));
}

// The driver.

#[test]
fn driver_follows_a_validated_peer() {
    let (client, peer) = connected();
    let mut driver = Driver::new(client, None);
    assert!(matches!(driver.handshake_step(), HandshakeStep::Done));
    let ping = |pn: u32| short_packet(peer.keys(), None, pn, &payload(&[Frame::Ping, Frame::Padding(20)]));
    driver.handle_inbound_datagram(at(20), &ping(0), addr(4433)).expect("datagram");
    assert_eq!(driver.peer(), Some(addr(4433)));
    // From elsewhere: a challenge goes out, and nothing else changes yet.
    driver.handle_inbound_datagram(at(21), &ping(1), addr(5555)).expect("datagram");
    assert_eq!(driver.peer(), Some(addr(4433)));
    let data = driver.conn_mut().take_path_challenge().expect("challenge");
    let body = payload(&[Frame::PathResponse(data)]);
    let response = short_packet(peer.keys(), None, 2, &body);
    driver.handle_inbound_datagram(at(22), &response, addr(4433)).expect("response");
    assert_eq!(driver.peer(), Some(addr(5555)));
    assert_eq!(driver.conn().peer_addr(), addr(5555));
    assert!(driver.drain_cid_events().is_empty());
    let (conn, at_last) = driver.into_parts();
    assert_eq!(at_last, Some(addr(5555)));
    assert!(conn.path_validated());
}

#[test]
fn driver_forwards_routing_changes() {
    let (client, peer) = connected();
    let mut driver = Driver::new(client, Some(addr(4433)));
    let body = payload(&[Frame::RetireConnectionId { seq: 0 }, Frame::Padding(20)]);
    let packet = short_packet(peer.keys(), None, 0, &body);
    driver.handle_inbound_datagram(at(20), &packet, addr(4433)).expect("datagram");
    let events = driver.drain_cid_events();
    assert_eq!(events.len(), 2);
    assert!(matches!(events[0], CidEvent::Unregister(_)));
    assert!(matches!(events[1], CidEvent::Register(_)));
    assert!(driver.drain_cid_events().is_empty());
}

#[test]
fn driver_reports_the_end() {
    let mut driver = Driver::new(client(), Some(addr(4433)));
    assert!(matches!(driver.handshake_step(), HandshakeStep::Wait));
    assert!(matches!(driver.wait_step(false), WaitStep::Wait));
    assert!(!driver.handshake_expired(at(9_999), at(10_000)));
    assert!(driver.handshake_expired(at(10_000), at(10_000)));
    match driver.close_error() {
        OxiQuicError::Connection(fault) => assert_eq!(fault.message(""), "connection closed"),
        other => panic!("expected a connection error, got {other:?}"),
    }
    let peer = Peer::new();
    let body = payload(&[
        Frame::ConnectionClose {
            error_code: 2,
            application: false,
            frame_type: 0,
            reason: b"busy".to_vec(),
        },
        Frame::Padding(20),
    ]);
    let packet = long_packet(&peer.initial.local, 0, &CLIENT_CID, &SERVER_CID, 0, &body);
    driver.handle_inbound_datagram(at(1), &packet, addr(4433)).expect("close");
    match driver.handshake_step() {
        HandshakeStep::Failed(OxiQuicError::TransportError { code, reason, .. }) => {
            assert_eq!(code, TransportErrorCode::ConnectionRefused);
            assert_eq!(reason, "busy");
        }
        other => panic!("expected Failed, got {other:?}"),
    }
    assert!(matches!(driver.wait_step(false), WaitStep::Failed(_)));
    assert!(matches!(driver.wait_step(true), WaitStep::Deliver));
}

#[test]
fn waiting_and_trying_again() {
    assert_eq!(wake_at(None, at(5)), at(5));
    assert_eq!(wake_at(Some(at(3)), at(5)), at(3));
    assert_eq!(wake_at(Some(at(9)), at(5)), at(5));
    let mut tries = OpenAttempts::new(3);
    assert!(tries.failed(true));
    assert!(tries.failed(true));
    assert!(!tries.failed(true));
    assert!(!OpenAttempts::new(3).failed(false));
    assert!(!OpenAttempts::new(0).failed(true));
    assert_eq!(early_data_override(0, 0), None);
    assert_eq!(early_data_override(7, 7), None);
    assert_eq!(early_data_override(7, 0), None);
    assert_eq!(early_data_override(0, 7), Some(7));
}

#[test]
fn identifiers_for_retry_packets() {
    let mut source = RandomSource::new(provider());
    let a = random_scid_for_retry(&mut source, 0);
    let b = random_scid_for_retry(&mut source, 0);
    assert_eq!(a.len(), 8);
    assert_ne!(a, b);
    assert_ne!(a, fallback_scid(0));
    // Multiples of 0xb9, the lowest byte of the golden ratio's.
    assert_eq!(fallback_scid(1), vec![0x01, 0xba, 0x73, 0x2c, 0xe5, 0x9e, 0x57, 0x10]);
    assert_eq!(scid_from_draw(Some(vec![9; 8]), 1), vec![9; 8]);
    assert_eq!(scid_from_draw(None, 1), fallback_scid(1));
}

#[test]
fn a_retry_answers_the_client_that_asked() {
    let (dcid, scid, retry) = ([1u8; 8], [2u8; 8], [3u8; 8]);
    let packet = retry_answer(&dcid, &scid, &retry, b"token").expect("packet");
    assert!(verify_retry_integrity_tag(&dcid, &packet));
    assert!(!verify_retry_integrity_tag(&scid, &packet));
    let parts = parse_retry_packet(&packet).expect("parts");
    assert_eq!(parts, (retry.to_vec(), scid.to_vec(), b"token".to_vec()));
    assert_eq!(retry_answer(&dcid, &[2; 21], &retry, b"token"), None);
    // Tokens far beyond a datagram are written and verified all the same.
    let token = vec![7u8; 0x80_0001];
    let packet = retry_answer(&dcid, &scid, &retry, &token).expect("long packet");
    assert!(verify_retry_integrity_tag(&dcid, &packet));
    let mut packet = retry_answer(&dcid, &scid, &retry, &vec![7u8; 0x100_0000]).expect("packet");
    assert!(verify_retry_integrity_tag(&dcid, &packet));
    packet[9] ^= 1;
    assert!(!verify_retry_integrity_tag(&dcid, &packet));
}

#[test]
fn names_of_servers() {
    for text in ["localhost", "example.com", "127.0.0.1", "::1"] {
        let name = server_name(text).expect("server name");
        assert_eq!(name, ServerName::try_from(text).expect("server name"));
        assert_eq!(name.to_str(), text);
    }
    for text in ["", "no such name", "-a", "a..b"] {
        match server_name(text) {
            Err(OxiQuicError::Tls(reason)) => {
                assert_eq!(reason, format!("invalid server name {text}"));
            }
            _ => panic!("expected an error for {text:?}"),
        }
    }
    assert!(matches!(checked_server_name("x", None), Err(OxiQuicError::Tls(_))));
}

#[test]
fn a_burst_ends() {
    let mut burst = Burst::new();
    for _ in 0..128 {
        assert!(burst.take());
    }
    assert!(!burst.take());
    assert!(!burst.take());
}

// Early data.

/// Carries handshake bytes between two sessions until neither has any.
fn shake(client: &mut rustls::quic::ClientConnection, server: &mut rustls::quic::ServerConnection) {
    for _ in 0..10 {
        let mut any = false;
        for _ in 0..3 {
            let mut out = Vec::new();
            let _ = client.write_hs(&mut out);
            if !out.is_empty() {
                server.read_hs(&out).expect("client's handshake data");
                any = true;
            }
        }
        for _ in 0..3 {
            let mut back = Vec::new();
            let _ = server.write_hs(&mut back);
            if !back.is_empty() {
                client.read_hs(&back).expect("server's handshake data");
                any = true;
            }
        }
        if !any {
            return;
        }
    }
}

fn early_configs() -> (Arc<ClientConfig>, Arc<ServerConfig>) {
    let mut client = (*client_config()).clone();
    client.enable_early_data = true;
    let mut server = (*server_config()).clone();
    server.max_early_data_size = u32::MAX;
    (Arc::new(client), Arc::new(server))
}

fn raw_client(config: &Arc<ClientConfig>) -> rustls::quic::ClientConnection {
    rustls::quic::ClientConnection::new(
        Arc::clone(config),
        Version::V1,
        ServerName::try_from("localhost").expect("server name"),
        encode_transport_params(&params()),
    )
    .expect("client session")
}

#[test]
fn early_data_is_read_in_the_first_datagram() {
    let (client_config, server_config) = early_configs();
    let new_server = || {
        rustls::quic::ServerConnection::new(
            Arc::clone(&server_config),
            Version::V1,
            encode_transport_params(&params()),
        )
        .expect("server session")
    };
    // A first connection gives the client a ticket.
    shake(&mut raw_client(&client_config), &mut new_server());
    // The second one sends early data along with the ClientHello.
    let mut again = raw_client(&client_config);
    let early = again.zero_rtt_keys().expect("keys of early data");
    let mut hello = Vec::new();
    assert!(again.write_hs(&mut hello).is_none());
    let initial = suite().keys(&FIRST_DCID, rustls::Side::Client, Version::V1);
    let body = payload(&[Frame::Crypto { offset: 0, data: &hello }]);
    let mut datagram = long_packet(&initial.local, 0, &FIRST_DCID, &CLIENT_CID, 0, &body);
    let body = payload(&[Frame::Stream { id: 0, offset: 0, fin: true, data: b"early" }]);
    let zero_rtt = long_packet(&early, 1, &FIRST_DCID, &CLIENT_CID, 0, &body);
    datagram.extend_from_slice(&zero_rtt);
    let mut server = Connection::new(Setup {
        role: Role::Server,
        tls: Tls::Server(new_server()),
        suite: suite(),
        provider: provider(),
        local_cid: cid(&SERVER_CID),
        initial_dcid: cid(&FIRST_DCID),
        peer_cid: cid(&CLIENT_CID),
        peer_addr: addr(40000),
        params: params(),
        datagram_buffer: 4096,
    });
    // Before the ClientHello there are no keys for it.
    server.handle_datagram(at(1), &zero_rtt).expect("early data too early");
    assert_eq!(server.read_stream(StreamId(0)), None);
    server.handle_datagram(at(2), &datagram).expect("first datagram");
    assert!(server.is_handshaking());
    assert_eq!(server.read_stream(StreamId(0)), Some(Ok((b"early".to_vec(), true))));
    assert_eq!(server.take_to_ack(PacketType::ZeroRtt), vec![0]);
    assert_eq!(server.take_to_ack(PacketType::Initial), vec![0]);
}
