//! Round-trip times, timers and packets in flight.
use oxiquic_transport::recovery::{
    is_persistent_congestion, space_index, LossDetector, RttEstimator, SpaceIndex,
};
use oxiquic_transport::sent_packet::{SentPacket, SentPackets};
use oxiquic_transport::time::{Duration, Instant};
use oxiquic_transport::types::PacketType;

fn ms(millis: u64) -> Duration {
    Duration::from_millis(millis)
}

fn at(millis: u64) -> Instant {
    Instant { nanos: u128::from(millis) * 1_000_000 }
}

#[test]
fn round_trip_time_is_smoothed() {
    let mut rtt = RttEstimator::new();
    assert_eq!(rtt.smoothed_rtt(), ms(0));
    assert_eq!(rtt.pto_base(ms(25)), ms(333 + 4 * 333 / 2 + 25));
    rtt.update(ms(100), ms(50), ms(25));
    assert_eq!((rtt.smoothed, rtt.var, rtt.min), (ms(100), ms(50), ms(100)));
    // 180 ms less the delay, which counts as 25 ms at most.
    rtt.update(ms(180), ms(60), ms(25));
    assert_eq!(rtt.latest, ms(180));
    assert_eq!(rtt.min, ms(100));
    assert_eq!(rtt.smoothed, Duration::from_micros((7 * 100_000 + 155_000) / 8));
    assert_eq!(rtt.var, Duration::from_micros((3 * 50_000 + 55_000) / 4));
    // A delay that would take the sample below the minimum does not count.
    let mut rtt = RttEstimator::new();
    rtt.update(ms(100), ms(0), ms(25));
    rtt.update(ms(110), ms(20), ms(25));
    assert_eq!(rtt.smoothed, Duration::from_micros((7 * 100_000 + 110_000) / 8));
}

#[test]
fn probe_timeout_doubles() {
    let mut loss = LossDetector::new();
    assert_eq!(loss.pto_deadline(at(1000), ms(100)), at(1100));
    loss.increase_pto_count();
    assert_eq!(loss.pto_deadline(at(1000), ms(100)), at(1200));
    loss.increase_pto_count();
    assert_eq!(loss.pto_deadline(at(1000), ms(100)), at(1400));
    loss.reset_pto_count();
    assert_eq!(loss.pto_deadline(at(1000), ms(100)), at(1100));
}

#[test]
fn earliest_loss_time_wins() {
    let mut loss = LossDetector::new();
    assert_eq!(loss.earliest_loss_time(), None);
    loss.set_loss_time(SpaceIndex::Application, Some(at(5)));
    loss.set_loss_time(SpaceIndex::Handshake, Some(at(3)));
    assert_eq!(loss.earliest_loss_time(), Some((at(3), SpaceIndex::Handshake)));
    loss.set_loss_time(SpaceIndex::Handshake, None);
    assert_eq!(loss.earliest_loss_time(), Some((at(5), SpaceIndex::Application)));
}

#[test]
fn spaces_of_packet_types() {
    assert_eq!(space_index(PacketType::Initial), SpaceIndex::Initial);
    assert_eq!(space_index(PacketType::Handshake), SpaceIndex::Handshake);
    assert_eq!(space_index(PacketType::ZeroRtt), SpaceIndex::Application);
    assert_eq!(space_index(PacketType::Short), SpaceIndex::Application);
}

#[test]
fn congestion_over_three_probe_timeouts_is_persistent() {
    assert!(!is_persistent_congestion(at(0), at(300), ms(100)));
    assert!(is_persistent_congestion(at(0), at(301), ms(100)));
}

fn packet(pn: u64, millis: u64) -> SentPacket {
    SentPacket {
        packet_number: pn,
        time_sent: at(millis),
        sent_bytes: 10,
        in_flight: true,
        ack_eliciting: true,
        rate_sample: None,
        frames: vec![],
    }
}

#[test]
fn packets_leave_flight_once() {
    let mut sent = SentPackets::new();
    for pn in 0..6 {
        sent.on_packet_sent(packet(pn, 10 * pn));
    }
    assert_eq!(sent.earliest_ack_eliciting_time(), Some(at(0)));
    let outcome = sent.on_ack(5, 0, &[]);
    assert_eq!(outcome.newly_acked.len(), 1);
    assert_eq!(sent.on_ack(5, 0, &[]).newly_acked.len(), 0);
    // 0, 1 and 2 are at least three behind; 3 is old enough, 4 is not yet.
    let (lost, next) = sent.detect_lost(at(100), ms(65));
    assert_eq!(lost.iter().map(|p| p.packet_number).collect::<Vec<_>>(), vec![0, 1, 2, 3]);
    assert_eq!(next, Some(at(105)));
    assert_eq!(sent.len(), 1);
    let (lost, _) = sent.detect_lost(at(100), ms(65));
    assert!(lost.is_empty());
}

#[test]
fn nothing_is_lost_before_an_acknowledgement() {
    let mut sent = SentPackets::new();
    for pn in 0..9 {
        sent.on_packet_sent(packet(pn, pn));
    }
    let (lost, next) = sent.detect_lost(at(1_000_000), ms(1));
    assert!(lost.is_empty());
    assert_eq!(next, None);
}
