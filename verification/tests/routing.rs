//! Routing of datagrams to connections.
use oxiquic_transport::cid::CidEvent;
use oxiquic_transport::endpoint::demux::{Demux, DemuxAction, RouteKey};
use oxiquic_transport::endpoint::routes::{
    apply_cid_route_update, CidRouteUpdate, ConnHandle, InitialRoutes, LocalCidRoutes,
};
use oxiquic_transport::packet::{decode_version_negotiation, peek_dcid};
use oxiquic_transport::types::{ConnectionId, PacketType};

const LOCAL_CID_LEN: usize = 8;

fn dummy_conn() -> ConnHandle {
    7
}

fn make_cid(bytes: &[u8]) -> ConnectionId {
    ConnectionId::new(bytes.to_vec())
}

/// An Initial packet of `version` as far as it can be read without keys.
fn initial_packet(version: u32, dcid: &[u8], scid: &[u8], token: &[u8]) -> Vec<u8> {
    let mut packet = vec![0xc0];
    packet.extend_from_slice(&version.to_be_bytes());
    packet.push(dcid.len() as u8);
    packet.extend_from_slice(dcid);
    packet.push(scid.len() as u8);
    packet.extend_from_slice(scid);
    packet.push(token.len() as u8);
    packet.extend_from_slice(token);
    packet.extend_from_slice(&[0x20; 0x20]);
    packet
}

/// After `apply_cid_route_update` processes an `InitialRetired` event the
/// corresponding entry must be absent from `initial_map`.
#[test]
fn initial_retired_removes_entry_from_initial_map() {
    let mut initial_map = InitialRoutes::new();
    let mut local_cid_map = LocalCidRoutes::new();

    let dcid = vec![0x01u8, 0x02, 0x03, 0x04, 0x05, 0x06, 0x07, 0x08];
    initial_map.insert(dcid.clone(), dummy_conn());
    assert!(initial_map.contains_key(&dcid), "entry must be present before GC");

    let update = CidRouteUpdate {
        event: CidEvent::InitialRetired(dcid.clone()),
        conn: dummy_conn(),
    };
    let applied = apply_cid_route_update(&mut initial_map, &mut local_cid_map, update);

    assert!(applied, "apply_cid_route_update must return true for InitialRetired");
    assert!(
        !initial_map.contains_key(&dcid),
        "initial_map must not retain entry after InitialRetired"
    );
    assert!(local_cid_map.is_empty(), "local_cid_map must be unaffected");
}

/// Retiring a DCID that was never in `initial_map` is a no-op (idempotent).
#[test]
fn initial_retired_unknown_dcid_is_noop() {
    let mut initial_map = InitialRoutes::new();
    let mut local_cid_map = LocalCidRoutes::new();

    let update = CidRouteUpdate {
        event: CidEvent::InitialRetired(vec![0xffu8; 8]),
        conn: dummy_conn(),
    };
    // Must not panic.
    let applied = apply_cid_route_update(&mut initial_map, &mut local_cid_map, update);
    assert!(applied);
    assert!(initial_map.is_empty());
}

#[test]
fn register_inserts_into_local_cid_map() {
    let mut initial_map = InitialRoutes::new();
    let mut local_cid_map = LocalCidRoutes::new();

    let cid_bytes = [0x11u8; LOCAL_CID_LEN];
    let cid = make_cid(&cid_bytes);
    let update = CidRouteUpdate { event: CidEvent::Register(cid), conn: dummy_conn() };
    let applied = apply_cid_route_update(&mut initial_map, &mut local_cid_map, update);
    assert!(applied);
    assert!(local_cid_map.contains_key(&cid_bytes));
    assert!(initial_map.is_empty());
}

#[test]
fn unregister_removes_from_local_cid_map() {
    let mut initial_map = InitialRoutes::new();
    let mut local_cid_map = LocalCidRoutes::new();

    let cid_bytes = [0x22u8; LOCAL_CID_LEN];
    local_cid_map.insert(&cid_bytes, dummy_conn());

    let cid = make_cid(&cid_bytes);
    let update = CidRouteUpdate { event: CidEvent::Unregister(cid), conn: dummy_conn() };
    let applied = apply_cid_route_update(&mut initial_map, &mut local_cid_map, update);
    assert!(applied);
    assert!(!local_cid_map.contains_key(&cid_bytes));
}

/// Only the targeted initial DCID is removed; other entries survive.
#[test]
fn initial_retired_does_not_remove_other_entries() {
    let mut initial_map = InitialRoutes::new();
    let mut local_cid_map = LocalCidRoutes::new();

    let dcid_a = vec![0xaau8; 8];
    let dcid_b = vec![0xbbu8; 8];
    initial_map.insert(dcid_a.clone(), dummy_conn());
    initial_map.insert(dcid_b.clone(), dummy_conn());

    let update = CidRouteUpdate {
        event: CidEvent::InitialRetired(dcid_a.clone()),
        conn: dummy_conn(),
    };
    apply_cid_route_update(&mut initial_map, &mut local_cid_map, update);

    assert!(!initial_map.contains_key(&dcid_a), "dcid_a must be removed");
    assert!(initial_map.contains_key(&dcid_b), "dcid_b must survive");
}

#[test]
fn identifiers_of_the_wrong_length_are_not_routed() {
    let mut initial_map = InitialRoutes::new();
    let mut local_cid_map = LocalCidRoutes::new();
    let register = CidRouteUpdate { event: CidEvent::Register(make_cid(&[1; 7])), conn: 1 };
    assert!(!apply_cid_route_update(&mut initial_map, &mut local_cid_map, register));
    assert!(!local_cid_map.contains_key(&[1; 7]));
    let unregister = CidRouteUpdate { event: CidEvent::Unregister(make_cid(&[])), conn: 1 };
    assert!(!apply_cid_route_update(&mut initial_map, &mut local_cid_map, unregister));
}

#[test]
fn every_identifier_keeps_its_own_connection() {
    let mut local_cid_map = LocalCidRoutes::new();
    local_cid_map.insert(&[0, 0, 0, 1, 0, 0, 0, 2], 1);
    local_cid_map.insert(&[0, 0, 0, 2, 0, 0, 0, 1], 2);
    local_cid_map.insert(&[0xff; 8], 3);
    assert_eq!(local_cid_map.get(&[0, 0, 0, 1, 0, 0, 0, 2]), Some(1));
    assert_eq!(local_cid_map.get(&[0, 0, 0, 2, 0, 0, 0, 1]), Some(2));
    assert_eq!(local_cid_map.get(&[0xff; 8]), Some(3));
    assert_eq!(local_cid_map.get(&[0; 8]), None);
    let mut initial_map = InitialRoutes::new();
    initial_map.insert(vec![1], 1);
    initial_map.insert(vec![1, 2], 2);
    initial_map.insert(vec![1], 3);
    assert_eq!(initial_map.get(&[1]), Some(3));
    assert_eq!(initial_map.get(&[1, 2]), Some(2));
    initial_map.remove(&[1]);
    assert_eq!(initial_map.get(&[1]), None);
    assert_eq!(initial_map.get(&[1, 2]), Some(2));
}

#[test]
fn first_packet_opens_a_connection() {
    let mut demux = Demux::new();
    let datagram = initial_packet(1, &[1, 2, 3, 4], &[9, 9], &[]);
    match demux.on_datagram(&datagram, false) {
        DemuxAction::Accept { dcid, scid } => {
            assert_eq!(dcid, vec![1, 2, 3, 4]);
            assert_eq!(scid, vec![9, 9]);
            assert!(demux.on_accepted(dcid, &[5; 8], 42));
        }
        other => panic!("expected Accept, got {other:?}"),
    }
    // Retransmissions of the first packet, Handshake packets and 1-RTT packets.
    match demux.on_datagram(&datagram, false) {
        DemuxAction::Forward { conn, route: RouteKey::Initial(dcid) } => {
            assert_eq!(conn, 42);
            assert_eq!(dcid, vec![1, 2, 3, 4]);
        }
        other => panic!("expected Forward, got {other:?}"),
    }
    let mut handshake = initial_packet(1, &[5; 8], &[9, 9], &[]);
    handshake[0] = 0xe0;
    assert_eq!(peek_dcid(&handshake, 8).expect("peek").0, PacketType::Handshake);
    assert!(matches!(
        demux.on_datagram(&handshake, false),
        DemuxAction::Forward { conn: 42, route: RouteKey::Local(_) }
    ));
    let mut short = vec![0x40];
    short.extend_from_slice(&[5; 8]);
    short.extend_from_slice(&[0; 20]);
    assert!(matches!(
        demux.on_datagram(&short, false),
        DemuxAction::Forward { conn: 42, route: RouteKey::Local(_) }
    ));
    // The handshake is over: the client's identifier is free again.
    assert!(demux.apply(CidRouteUpdate {
        event: CidEvent::InitialRetired(vec![1, 2, 3, 4]),
        conn: 42,
    }));
    assert!(matches!(demux.on_datagram(&datagram, false), DemuxAction::Accept { .. }));
    // The connection is gone.
    demux.on_closed(RouteKey::Local(vec![5; 8]));
    assert!(matches!(demux.on_datagram(&short, false), DemuxAction::Discard));
}

#[test]
fn connection_with_a_foreign_identifier_is_not_entered() {
    let mut demux = Demux::new();
    assert!(!demux.on_accepted(vec![1, 2, 3, 4], &[5; 4], 42));
    let datagram = initial_packet(1, &[1, 2, 3, 4], &[9, 9], &[]);
    assert!(matches!(demux.on_datagram(&datagram, false), DemuxAction::Accept { .. }));
}

#[test]
fn unknown_version_is_negotiated() {
    let demux = Demux::new();
    let datagram = initial_packet(0x0a0a_0a0a, &[1, 2, 3, 4], &[9, 9], &[]);
    match demux.on_datagram(&datagram, true) {
        DemuxAction::NegotiateVersion { packet } => {
            assert_eq!(packet, [&[0x80, 0, 0, 0, 0, 2, 9, 9, 4, 1, 2, 3, 4][..], &[0, 0, 0, 1]].concat());
            assert_eq!(decode_version_negotiation(&packet), Some(vec![1]));
        }
        other => panic!("expected NegotiateVersion, got {other:?}"),
    }
}

#[test]
fn retry_asks_for_a_token() {
    let demux = Demux::new();
    let bare = initial_packet(1, &[1, 2, 3, 4], &[9, 9], &[]);
    match demux.on_datagram(&bare, true) {
        DemuxAction::SendRetry { dcid, scid } => {
            assert_eq!(dcid, vec![1, 2, 3, 4]);
            assert_eq!(scid, vec![9, 9]);
        }
        other => panic!("expected SendRetry, got {other:?}"),
    }
    let with_token = initial_packet(1, &[1, 2, 3, 4], &[9, 9], b"token");
    match demux.on_datagram(&with_token, true) {
        DemuxAction::CheckToken { token, dcid, scid } => {
            assert_eq!(token, b"token".to_vec());
            assert!(matches!(
                Demux::on_token(true, dcid.clone(), scid.clone()),
                DemuxAction::Accept { .. }
            ));
            assert!(matches!(Demux::on_token(false, dcid, scid), DemuxAction::SendRetry { .. }));
        }
        other => panic!("expected CheckToken, got {other:?}"),
    }
    assert!(matches!(demux.on_datagram(&with_token, false), DemuxAction::Accept { .. }));
}

#[test]
fn strays_are_discarded() {
    let demux = Demux::new();
    assert!(matches!(demux.on_datagram(&[], false), DemuxAction::Discard));
    assert!(matches!(demux.on_datagram(&[0x40, 1, 2], false), DemuxAction::Discard));
    assert!(matches!(demux.on_datagram(&[0x40; 40], false), DemuxAction::Discard));
    let mut handshake = initial_packet(1, &[5; 8], &[9, 9], &[]);
    handshake[0] = 0xe0;
    assert!(matches!(demux.on_datagram(&handshake, false), DemuxAction::Discard));
    // Too short to hold the source identifier.
    assert!(matches!(
        demux.on_datagram(&[0xc0, 0, 0, 0, 1, 2, 7, 7], false),
        DemuxAction::Discard
    ));
}

#[test]
fn tables_know_when_they_are_empty() {
    let (mut initial_map, mut local_cid_map) = (InitialRoutes::new(), LocalCidRoutes::new());
    assert!(initial_map.is_empty() && local_cid_map.is_empty());
    initial_map.insert(vec![], dummy_conn());
    local_cid_map.insert(&[0; LOCAL_CID_LEN], dummy_conn());
    assert!(!initial_map.is_empty() && !local_cid_map.is_empty());
    initial_map.remove(&[]);
    local_cid_map.remove(&[0; LOCAL_CID_LEN]);
    assert!(initial_map.is_empty() && local_cid_map.is_empty());
}
