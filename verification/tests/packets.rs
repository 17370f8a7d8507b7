//! Packet headers, Retry and Version Negotiation.
use oxiquic_transport::packet::{
    clear_packet, compute_retry_integrity_tag, decode_packet_number, decode_version_negotiation,
    encode_retry_packet, encode_version_negotiation, parse_client_initial_ids,
    parse_initial_token, parse_protected_long, parse_retry_packet, peek_dcid, sample_and_field,
    verify_retry_integrity_tag,
};
use oxiquic_transport::types::PacketType;

fn hex(text: &str) -> Vec<u8> {
    (0..text.len() / 2)
        .map(|i| u8::from_str_radix(&text[2 * i..2 * i + 2], 16).expect("hex"))
        .collect()
}

/// The sample Retry packet of RFC 9001 Section A.4.
#[test]
fn sample_retry_packet() {
    let odcid = hex("8394c8f03e515708");
    let packet = hex("ff000000010008f067a5502a4262b5746f6b656e04a265ba2eff4d829058fb3f0f2496ba");
    assert!(verify_retry_integrity_tag(&odcid, &packet));
    let body = &packet[..packet.len() - 16];
    assert_eq!(
        compute_retry_integrity_tag(&odcid, body).to_vec(),
        hex("04a265ba2eff4d829058fb3f0f2496ba")
    );
    assert_eq!(
        parse_retry_packet(&packet),
        Some((hex("f067a5502a4262b5"), vec![], b"token".to_vec()))
    );
    assert!(!verify_retry_integrity_tag(&hex("8394c8f03e515709"), &packet));
    for i in 0..packet.len() {
        let mut forged = packet.clone();
        forged[i] ^= 1;
        assert!(!verify_retry_integrity_tag(&odcid, &forged), "byte {i}");
    }
    assert!(!verify_retry_integrity_tag(&odcid, &packet[..15]));
}

#[test]
fn retry_packet_round_trip() {
    let packet = encode_retry_packet(&[1; 8], &[2; 4], &[3; 8], b"a token").expect("packet");
    assert!(verify_retry_integrity_tag(&[3; 8], &packet));
    assert!(!verify_retry_integrity_tag(&[4; 8], &packet));
    assert_eq!(parse_retry_packet(&packet), Some((vec![1; 8], vec![2; 4], b"a token".to_vec())));
    assert_eq!(peek_dcid(&packet, 8).expect("peek"), (PacketType::Retry, vec![2; 4]));
    assert_eq!(encode_retry_packet(&[1; 21], &[2; 4], &[3; 8], b""), None);
    assert_eq!(encode_retry_packet(&[1; 8], &[2; 21], &[3; 8], b""), None);
}

#[test]
fn version_negotiation_round_trip() {
    let packet = encode_version_negotiation(&[1, 2], &[3], &[1, 0x0a0a_0a0a]);
    assert_eq!(packet, hex("80000000000201020103000000010a0a0a0a"));
    assert_eq!(decode_version_negotiation(&packet), Some(vec![1, 0x0a0a_0a0a]));
    assert_eq!(
        peek_dcid(&packet, 8).expect("peek"),
        (PacketType::VersionNegotiation, vec![1, 2])
    );
    assert_eq!(decode_version_negotiation(&packet[..4]), None);
    // A packet of a version is no negotiation.
    assert_eq!(decode_version_negotiation(&hex("c00000000102010201030000")), None);
}

#[test]
fn packet_numbers_are_recovered() {
    // The example of RFC 9000 Section A.3.
    assert_eq!(decode_packet_number(Some(0xa82f_30ea), 0x9b32, 2), 0xa82f_9b32);
    assert_eq!(decode_packet_number(None, 0, 1), 0);
    assert_eq!(decode_packet_number(Some(0xff), 0x00, 1), 0x100);
    assert_eq!(decode_packet_number(Some(0x100), 0xff, 1), 0xff);
    assert_eq!(decode_packet_number(Some(0x1_0000), 0xffff, 2), 0xffff);
    assert_eq!(decode_packet_number(Some(5), 0x0102_0304, 4), 0x0102_0304);
}

#[test]
fn headers_are_read_without_keys() {
    assert!(peek_dcid(&[], 8).is_err());
    assert!(peek_dcid(&[0x40, 1, 2, 3], 8).is_err());
    let short = [0x40, 1, 2, 3, 4, 5, 6, 7, 8, 9];
    assert_eq!(peek_dcid(&short, 8).expect("peek").1, vec![1, 2, 3, 4, 5, 6, 7, 8]);
    assert_eq!(peek_dcid(&short, 0).expect("peek"), (PacketType::Short, vec![]));
    let initial = hex("c0000000010401020304020a0b03746f6b");
    assert_eq!(peek_dcid(&initial, 8).expect("peek"), (PacketType::Initial, vec![1, 2, 3, 4]));
    assert_eq!(parse_client_initial_ids(&initial), Some((1, vec![1, 2, 3, 4], vec![0x0a, 0x0b])));
    assert_eq!(parse_client_initial_ids(&short), None);
    assert_eq!(parse_client_initial_ids(&initial[..11]), None);
    assert_eq!(parse_initial_token(&initial), Some(b"tok".to_vec()));
    assert_eq!(parse_initial_token(&initial[..16]), None);
    for (first, packet_type) in [
        (0xc0, PacketType::Initial),
        (0xd0, PacketType::ZeroRtt),
        (0xe0, PacketType::Handshake),
        (0xf0, PacketType::Retry),
    ] {
        let mut packet = initial.clone();
        packet[0] = first;
        assert_eq!(peek_dcid(&packet, 8).expect("peek").0, packet_type);
    }
}

#[test]
fn protected_part_is_found() {
    // Handshake packet, 4-byte identifiers, 24 protected bytes, then another byte.
    let mut packet = hex("e00000000104010203040405060708");
    packet.push(24);
    let pn_offset = packet.len();
    packet.extend_from_slice(&[0xaa; 24]);
    packet.push(0xbb);
    let found = parse_protected_long(&packet).expect("packet");
    assert_eq!(found.packet_type, PacketType::Handshake);
    assert_eq!(found.dcid, vec![1, 2, 3, 4]);
    assert_eq!(found.scid, vec![5, 6, 7, 8]);
    assert_eq!((found.pn_offset, found.end), (pn_offset, pn_offset + 24));
    // Too short for a sample, and longer than the datagram.
    packet[pn_offset - 1] = 19;
    assert!(parse_protected_long(&packet).is_none());
    packet[pn_offset - 1] = 26;
    assert!(parse_protected_long(&packet).is_none());
    packet[pn_offset - 1] = 25;
    assert!(parse_protected_long(&packet).is_some());
    // Another version.
    packet[4] = 2;
    assert!(parse_protected_long(&packet).is_none());
}

#[test]
fn header_in_the_clear() {
    let mut packet = vec![0x40, 1, 2, 3];
    packet.extend((0..30).map(|i| 0x80 + i));
    let (sample, field) = sample_and_field(&packet, 4);
    assert_eq!(sample, (4..20).map(|i| 0x80 + i).collect::<Vec<u8>>());
    assert_eq!(field, [0x80, 0x81, 0x82, 0x83]);
    let clear = clear_packet(&packet, 4, 34, 0x41, &[0x12, 0x34, 0, 0], None).expect("packet");
    assert_eq!(clear.pn, 0x1234);
    assert_eq!(clear.header, vec![0x41, 1, 2, 3, 0x12, 0x34]);
    assert_eq!(clear.payload, (2..30).map(|i| 0x80 + i).collect::<Vec<u8>>());
}
