//! The known paths of a connection.
use oxiquic_transport::multipath::{MultipathState, PathState, PathValidation};
use oxiquic_transport::time::Duration;
use oxiquic_transport::types::SocketAddr;

fn addr(port: u16) -> SocketAddr {
    SocketAddr::v4(127, 0, 0, 1, port)
}

#[test]
fn multipath_state_initial_path_is_validated() {
    let mp = MultipathState::new(addr(8000));
    assert_eq!(mp.path_count(), 1);
    assert_eq!(mp.active_index(), 0);
    assert_eq!(mp.active_path().validation, PathValidation::Validated);
}

#[test]
fn multipath_add_path_registers_candidate() {
    let mut mp = MultipathState::new(addr(8000));
    let idx = mp.add_path(addr(9000), None).expect("add path");
    assert_eq!(idx, 1);
    assert_eq!(mp.path_count(), 2);
    assert_eq!(mp.paths()[1].validation, PathValidation::Unknown);
}

#[test]
fn multipath_add_duplicate_path_returns_error() {
    let mut mp = MultipathState::new(addr(8000));
    let result = mp.add_path(addr(8000), None);
    assert!(result.is_err());
}

#[test]
fn multipath_set_preferred_path_rejects_unknown_path() {
    let mut mp = MultipathState::new(addr(8000));
    mp.add_path(addr(9000), None).expect("add path");
    // Path at index 1 is Unknown : cannot be set as preferred.
    let result = mp.set_preferred_path(1);
    assert!(result.is_err());
}

#[test]
fn multipath_set_preferred_path_after_validation() {
    let mut mp = MultipathState::new(addr(8000));
    let idx = mp.add_path(addr(9000), None).expect("add path");
    mp.mark_validated(idx);
    mp.set_preferred_path(idx).expect("promote validated path");
    assert_eq!(mp.active_index(), 1);
    assert_eq!(mp.active_path().remote_addr, addr(9000));
}

#[test]
fn multipath_capacity_limit_enforced() {
    let mut mp = MultipathState::new(addr(8000));
    for port in 9001..=9007 {
        mp.add_path(addr(port), None).expect("add path");
    }
    assert_eq!(mp.path_count(), 8);
    // The 9th add should fail.
    let result = mp.add_path(addr(9999), None);
    assert!(result.is_err());
}

#[test]
fn multipath_remove_non_active_path() {
    let mut mp = MultipathState::new(addr(8000));
    let idx = mp.add_path(addr(9000), None).expect("add path");
    assert_eq!(mp.path_count(), 2);
    mp.remove_path(idx).expect("remove non-active path");
    assert_eq!(mp.path_count(), 1);
}

#[test]
fn multipath_cannot_remove_active_path() {
    let mut mp = MultipathState::new(addr(8000));
    let result = mp.remove_path(0); // active path
    assert!(result.is_err());
}

#[test]
fn path_state_rtt_update_converges() {
    let mut ps = PathState::new(addr(8000));
    assert!(ps.smoothed_rtt.is_none());

    ps.update_rtt(Duration::from_millis(10));
    assert_eq!(ps.smoothed_rtt, Some(Duration::from_millis(10)));
    assert_eq!(ps.min_rtt, Some(Duration::from_millis(10)));

    ps.update_rtt(Duration::from_millis(20));
    // EWMA: (10 * 7 + 20) / 8 = 90/8 = 11ms (integer us: (10_000*7+20_000)/8 = 11_250us)
    let expected = Duration::from_micros((10_000u64 * 7 + 20_000) / 8);
    assert_eq!(ps.smoothed_rtt, Some(expected));
    // min_rtt stays at 10ms
    assert_eq!(ps.min_rtt, Some(Duration::from_millis(10)));
}

#[test]
fn path_state_record_send_recv_counts() {
    let mut ps = PathState::new(addr(8000));
    assert_eq!(ps.packets_sent, 0);
    assert_eq!(ps.packets_received, 0);

    ps.record_sent();
    ps.record_sent();
    ps.record_received();

    assert_eq!(ps.packets_sent, 2);
    assert_eq!(ps.packets_received, 1);
    assert!(ps.last_sent.is_some());
}

#[test]
fn path_state_is_usable_only_for_validated() {
    let mut ps = PathState::new(addr(8000));
    // New paths start Unknown : not usable for promotion.
    assert!(!ps.is_usable());

    ps.validation = PathValidation::Validated;
    assert!(ps.is_usable());

    ps.validation = PathValidation::Pending;
    assert!(!ps.is_usable());

    ps.validation = PathValidation::Failed;
    assert!(!ps.is_usable());
}

#[test]
fn path_by_addr_lookup() {
    let mut mp = MultipathState::new(addr(8000));
    mp.add_path(addr(9000), None).expect("add");
    let found = mp.path_by_addr(addr(9000));
    assert!(found.is_some());
    let (idx, _) = found.expect("found path");
    assert_eq!(idx, 1);

    assert!(mp.path_by_addr(addr(9999)).is_none());
}

#[test]
fn removing_a_path_below_the_active_one_keeps_it_active() {
    let mut mp = MultipathState::new(addr(8000));
    mp.add_path(addr(9000), None).expect("add");
    mp.add_path(addr(9001), None).expect("add");
    mp.mark_validated(2);
    mp.set_preferred_path(2).expect("promote");
    mp.remove_path(0).expect("remove");
    assert_eq!(mp.active_index(), 1);
    assert_eq!(mp.active_path().remote_addr, addr(9001));
    assert!(mp.remove_path(5).is_err());
}

#[test]
fn validation_can_be_marked() {
    let mut mp = MultipathState::new(addr(8000));
    mp.add_path(addr(9000), None).expect("add");
    mp.mark_pending(1);
    assert_eq!(mp.paths()[1].validation, PathValidation::Pending);
    mp.mark_failed(1);
    assert_eq!(mp.paths()[1].validation, PathValidation::Failed);
    mp.mark_validated(7);
    assert_eq!(mp.path_count(), 2);
    mp.active_path_mut().update_rtt(Duration::from_millis(8));
    assert_eq!(mp.active_path().smoothed_rtt, Some(Duration::from_millis(8)));
    let (index, path) = mp.path_by_addr_mut(addr(9000)).expect("path");
    path.record_received();
    assert_eq!(index, 1);
    assert_eq!(mp.paths()[1].packets_received, 1);
}
