//! Transport parameters on the wire.
use oxiquic_transport::coding::put_varint;
use oxiquic_transport::params_codec::{
    decode_transport_params, encode_transport_params, TransportParams, ID_INITIAL_MAX_DATA,
};

#[test]
fn roundtrip_default() {
    let params = TransportParams::default();
    let bytes = encode_transport_params(&params);
    let decoded = decode_transport_params(&bytes).expect("decode");
    assert_eq!(decoded, params);
}

#[test]
fn roundtrip_populated() {
    let params = TransportParams {
        max_idle_timeout_ms: 30_000,
        max_udp_payload_size: 1452,
        initial_max_data: 1 << 20,
        initial_max_stream_data_bidi_local: 256 * 1024,
        initial_max_stream_data_bidi_remote: 256 * 1024,
        initial_max_stream_data_uni: 256 * 1024,
        initial_max_streams_bidi: 100,
        initial_max_streams_uni: 100,
        ack_delay_exponent: 3,
        max_ack_delay_ms: 25,
        active_connection_id_limit: 4,
        disable_active_migration: true,
        max_datagram_frame_size: 65535,
    };
    let bytes = encode_transport_params(&params);
    let decoded = decode_transport_params(&bytes).expect("decode");
    assert_eq!(decoded, params);
}

#[test]
fn unknown_params_ignored() {
    let mut bytes = encode_transport_params(&TransportParams::default());
    // Append a GREASE-style unknown parameter id with a 3-byte value.
    put_varint(&mut bytes, 0x1234_5678);
    put_varint(&mut bytes, 3);
    bytes.extend_from_slice(&[1, 2, 3]);
    let decoded = decode_transport_params(&bytes).expect("decode tolerates unknown");
    assert_eq!(decoded, TransportParams::default());
}

#[test]
fn truncated_value_rejected() {
    let mut bytes = Vec::new();
    put_varint(&mut bytes, ID_INITIAL_MAX_DATA);
    put_varint(&mut bytes, 4); // claims 4 bytes
    bytes.extend_from_slice(&[0x80, 0x00]); // only 2 present
    assert!(decode_transport_params(&bytes).is_err());
}

fn encoded(id: u64, value: &[u8]) -> Vec<u8> {
    let mut bytes = Vec::new();
    put_varint(&mut bytes, id);
    put_varint(&mut bytes, value.len() as u64);
    bytes.extend_from_slice(value);
    bytes
}

#[test]
fn values_must_fill_their_length() {
    // One byte too many after the integer, and a flag with a value.
    assert!(decode_transport_params(&encoded(ID_INITIAL_MAX_DATA, &[5, 0])).is_err());
    assert!(decode_transport_params(&encoded(ID_INITIAL_MAX_DATA, &[])).is_err());
    assert!(decode_transport_params(&encoded(0x0c, &[0])).is_err());
    let params = decode_transport_params(&encoded(0x0c, &[])).expect("decode");
    assert!(params.disable_active_migration);
}

#[test]
fn later_values_win_and_exponents_are_clamped() {
    let mut bytes = encoded(ID_INITIAL_MAX_DATA, &[5]);
    bytes.extend_from_slice(&encoded(ID_INITIAL_MAX_DATA, &[6]));
    // An ACK delay exponent of 300.
    bytes.extend_from_slice(&encoded(0x0a, &[0x41, 0x2c]));
    let params = decode_transport_params(&bytes).expect("decode");
    assert_eq!(params.initial_max_data, 6);
    assert_eq!(params.ack_delay_exponent, 255);
    assert_eq!(decode_transport_params(&[]).expect("decode"), TransportParams::default());
}
