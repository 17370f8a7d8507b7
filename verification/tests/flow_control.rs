//! Flow control credit.
use oxiquic_transport::flow_control::{
    RecvFlowControl, SendFlowControl, StreamRecvFlow, StreamSendFlow,
};

#[test]
fn send_blocks_at_limit_then_unblocks() {
    let mut fc = SendFlowControl::new(100);
    assert_eq!(fc.available(), 100);
    fc.on_data_sent(100);
    assert!(fc.is_blocked());
    assert_eq!(fc.take_blocked(), Some(100));
    // Same limit does not re-emit.
    assert_eq!(fc.take_blocked(), None);
    // MAX_DATA raises the ceiling and unblocks.
    fc.on_max_data(250);
    assert!(!fc.is_blocked());
    assert_eq!(fc.available(), 150);
}

#[test]
fn stream_send_flow_credit() {
    let mut fc = StreamSendFlow::new(50);
    fc.on_data_sent(30);
    assert_eq!(fc.available(), 20);
    fc.on_data_sent(20);
    assert!(fc.is_blocked());
    assert_eq!(fc.take_blocked(), Some(50));
    fc.on_max_stream_data(50); // no change
    assert!(fc.is_blocked());
    fc.on_max_stream_data(120);
    assert_eq!(fc.available(), 70);
}

#[test]
fn recv_advertises_more_credit_as_consumed() {
    let mut fc = RecvFlowControl::new(100);
    assert_eq!(fc.max_data(), 100);
    // Consume 60 (> half the 100 window) -> advance to 60 + 100 = 160.
    fc.on_data_consumed(60);
    assert_eq!(fc.maybe_update(), Some(160));
    // No further update until more is consumed past the new half-window.
    assert_eq!(fc.maybe_update(), None);
}

#[test]
fn monotonic_max_data() {
    let mut fc = SendFlowControl::new(100);
    fc.on_max_data(50); // lower ignored
    assert_eq!(fc.max_data(), 100);
    fc.on_max_data(200);
    assert_eq!(fc.max_data(), 200);
}

#[test]
fn stream_window_moves_with_what_was_read() {
    let mut fc = StreamRecvFlow::new(100);
    assert_eq!(fc.maybe_update(), None);
    fc.on_data_consumed(50);
    // Half of the window is left.
    assert_eq!(fc.maybe_update(), None);
    fc.on_data_consumed(1);
    assert_eq!(fc.maybe_update(), Some(151));
    assert_eq!(fc.maybe_update(), None);
}

#[test]
fn odd_windows_move_once_more_than_half_is_used() {
    let mut fc = RecvFlowControl::new(1);
    assert_eq!(fc.maybe_update(), None);
    fc.on_data_consumed(1);
    assert_eq!(fc.maybe_update(), Some(2));
    let mut fc = RecvFlowControl::new(101);
    fc.on_data_consumed(50);
    assert_eq!(fc.maybe_update(), None);
    fc.on_data_consumed(1);
    assert_eq!(fc.maybe_update(), Some(152));
    let mut fc = StreamRecvFlow::new(3);
    fc.on_data_consumed(1);
    assert_eq!(fc.maybe_update(), None);
    fc.on_data_consumed(1);
    assert_eq!(fc.maybe_update(), Some(5));
    let mut fc = RecvFlowControl::new(0);
    assert_eq!(fc.maybe_update(), None);
}

#[test]
fn retransmission_costs_no_credit() {
    let mut fc = StreamSendFlow::new(100);
    assert_eq!(fc.record_high_offset(40), 40);
    assert_eq!(fc.record_high_offset(30), 0);
    assert_eq!(fc.record_high_offset(50), 10);
    assert_eq!(fc.available(), 50);
}

#[test]
fn blocked_is_reported_once_per_limit() {
    let mut fc = StreamSendFlow::new(10);
    assert_eq!(fc.take_blocked(), None);
    fc.on_data_sent(10);
    assert_eq!(fc.take_blocked(), Some(10));
    assert_eq!(fc.take_blocked(), None);
    fc.on_max_stream_data(20);
    assert_eq!(fc.take_blocked(), None);
    fc.on_data_sent(10);
    assert_eq!(fc.take_blocked(), Some(20));
}

#[test]
fn each_limit_is_reported_once() {
    let mut fc = SendFlowControl::new(10);
    let mut reports = Vec::new();
    for (sent, max) in [(10, 0), (5, 12), (0, 15), (0, 15), (3, 40), (30, 41), (0, 41)] {
        fc.on_data_sent(sent);
        fc.on_max_data(max);
        let (before, limit) = (fc.available(), fc.max_data());
        reports.extend(fc.take_blocked());
        assert_eq!((fc.available(), fc.max_data()), (before, limit));
    }
    assert_eq!(reports, vec![10, 12, 15, 41]);
}
