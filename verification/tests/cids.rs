//! Pools of connection identifiers.
use oxiquic_transport::cid::{IssuedCid, LocalCidPool, PeerCidPool};
use oxiquic_transport::error::{FrameType, OxiQuicError, TransportErrorCode};
use oxiquic_transport::types::ConnectionId;

fn cid(byte: u8) -> ConnectionId {
    ConnectionId::new(vec![byte; 8])
}

fn code(r: Result<(), OxiQuicError>) -> TransportErrorCode {
    match r {
        Err(OxiQuicError::TransportError { code, frame_type, .. }) => {
            assert_eq!(frame_type, Some(FrameType::NewConnectionId));
            code
        }
        other => panic!("expected a transport error, got {other:?}"),
    }
}

#[test]
fn identifiers_are_issued_up_to_the_limit() {
    let mut pool = LocalCidPool::new(cid(1), 2);
    assert!(pool.has_room());
    let random: Vec<u8> = (0..24).collect();
    assert_eq!(pool.issue(&random).as_bytes(), &[0, 1, 2, 3, 4, 5, 6, 7]);
    assert!(!pool.has_room());
    let issued = pool.take_pending_new().expect("identifier");
    assert_eq!(issued.seq, 1);
    assert_eq!(issued.cid.as_bytes(), &random[..8]);
    assert_eq!(issued.stateless_reset_token.to_vec(), random[8..].to_vec());
    assert!(pool.take_pending_new().is_none());
    // A lost frame goes out again.
    pool.requeue(issued);
    assert_eq!(pool.take_pending_new().expect("identifier").seq, 1);
    // Retired identifiers make room; unknown ones are ignored.
    assert_eq!(pool.handle_peer_retirement(0).expect("identifier").as_bytes(), &[1; 8]);
    assert!(pool.handle_peer_retirement(0).is_none());
    assert!(pool.has_room());
    pool.set_limit(1);
    assert!(!pool.has_room());
}

#[test]
fn identifiers_of_the_peer() {
    let mut pool = PeerCidPool::new(2);
    pool.receive_new_cid(1, 0, cid(1), [1; 16]).expect("first");
    pool.receive_new_cid(1, 0, cid(1), [1; 16]).expect("again");
    assert!(pool.matches_stateless_reset(&[1; 16]));
    assert!(!pool.matches_stateless_reset(&[2; 16]));
    // Another identifier under the same number.
    assert_eq!(
        code(pool.receive_new_cid(1, 0, cid(9), [1; 16])),
        TransportErrorCode::ProtocolViolation
    );
    pool.receive_new_cid(2, 0, cid(2), [2; 16]).expect("second");
    // The threshold retires the first two before the third is kept.
    pool.receive_new_cid(3, 3, cid(3), [3; 16]).expect("third");
    assert_eq!(pool.take_pending_retire(), Some(1));
    assert_eq!(pool.take_pending_retire(), Some(2));
    assert_eq!(pool.take_pending_retire(), None);
    assert!(!pool.matches_stateless_reset(&[1; 16]));
    // Below the threshold: retired at once.
    pool.receive_new_cid(0, 0, cid(8), [8; 16]).expect("late");
    assert_eq!(pool.take_pending_retire(), Some(0));
    pool.requeue_retire(7);
    assert_eq!(pool.take_pending_retire(), Some(7));
    pool.receive_new_cid(4, 0, cid(4), [4; 16]).expect("fourth");
    assert_eq!(
        code(pool.receive_new_cid(5, 0, cid(5), [5; 16])),
        TransportErrorCode::ConnectionIdLimitError
    );
}

#[test]
fn issued_identifiers_can_be_shown() {
    let issued = IssuedCid { seq: 1, cid: cid(1), stateless_reset_token: [0; 16] };
    assert!(format!("{issued:?}").contains("seq: 1"));
}
