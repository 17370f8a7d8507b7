//! Frames on the wire.
use oxiquic_transport::coding::{put_varint, varint_size, Buf};
use oxiquic_transport::error::TransportErrorCode;
use oxiquic_transport::frame::{decode_frame, AckRange, Frame};
use oxiquic_transport::types::{ConnectionId, Direction};

fn encoded(frame: &Frame<'_>) -> Vec<u8> {
    let mut out = Vec::new();
    frame.encode(&mut out);
    out
}

/// Encodes, decodes, encodes again: both encodings are `wire`.
fn assert_wire(frame: Frame<'_>, wire: &[u8]) {
    let bytes = encoded(&frame);
    assert_eq!(bytes, wire);
    let mut buf = Buf::new(&bytes);
    let read = decode_frame(&mut buf).expect("decode");
    assert!(buf.is_empty());
    assert_eq!(read.is_ack_eliciting(), frame.is_ack_eliciting());
    assert_eq!(encoded(&read), wire);
    // Cut short anywhere, it is refused.
    if !matches!(frame, Frame::Padding(_)) {
        for len in 0..bytes.len() {
            let mut buf = Buf::new(&bytes[..len]);
            match decode_frame(&mut buf) {
                Err(e) => assert_eq!(e.code, TransportErrorCode::FrameEncodingError),
                Ok(read) => panic!("{len} bytes of {frame:?} are no {read:?}"),
            }
        }
    }
}

#[test]
fn integers_take_one_two_four_or_eight_bytes() {
    for (value, wire) in [
        (37u64, &[0x25][..]),
        (63, &[0x3f]),
        (64, &[0x40, 0x40]),
        (15_293, &[0x7b, 0xbd]),
        (494_878_333, &[0x9d, 0x7f, 0x3e, 0x7d]),
        (151_288_809_941_952_652, &[0xc2, 0x19, 0x7c, 0x5e, 0xff, 0x14, 0xe8, 0x8c]),
        ((1 << 62) - 1, &[0xff; 8]),
    ] {
        let mut out = Vec::new();
        put_varint(&mut out, value);
        assert_eq!(out, wire);
        assert_eq!(varint_size(value), wire.len());
        assert_eq!(Buf::new(&out).get_varint().expect("integer"), value);
        for len in 0..out.len() {
            assert!(Buf::new(&out[..len]).get_varint().is_err());
        }
    }
    // A longer form is read, too.
    assert_eq!(Buf::new(&[0x40, 0x25]).get_varint().expect("integer"), 37);
}

#[test]
fn frames_round_trip() {
    assert_wire(Frame::Ping, &[1]);
    assert_wire(
        Frame::Ack {
            largest: 10,
            delay: 3,
            first_range: 2,
            ranges: vec![AckRange { gap: 0, range: 1 }, AckRange { gap: 1, range: 0 }],
        },
        &[2, 10, 3, 2, 2, 0, 1, 1, 0],
    );
    assert_wire(
        Frame::ResetStream { stream_id: 4, error_code: 7, final_size: 100 },
        &[4, 4, 7, 0x40, 100],
    );
    assert_wire(Frame::StopSending { stream_id: 4, error_code: 7 }, &[5, 4, 7]);
    assert_wire(Frame::Crypto { offset: 5, data: b"ab" }, &[6, 5, 2, b'a', b'b']);
    assert_wire(Frame::NewToken(b"t"), &[7, 1, b't']);
    assert_wire(Frame::MaxData(9), &[0x10, 9]);
    assert_wire(Frame::MaxStreamData { id: 3, max: 9 }, &[0x11, 3, 9]);
    assert_wire(Frame::MaxStreams { dir: Direction::Bidirectional, max: 9 }, &[0x12, 9]);
    assert_wire(Frame::MaxStreams { dir: Direction::Unidirectional, max: 9 }, &[0x13, 9]);
    assert_wire(Frame::DataBlocked(9), &[0x14, 9]);
    assert_wire(Frame::StreamDataBlocked { id: 3, limit: 9 }, &[0x15, 3, 9]);
    assert_wire(Frame::StreamsBlocked { dir: Direction::Bidirectional, limit: 9 }, &[0x16, 9]);
    assert_wire(Frame::StreamsBlocked { dir: Direction::Unidirectional, limit: 9 }, &[0x17, 9]);
    let mut wire = vec![0x18, 5, 2, 4, 1, 2, 3, 4];
    wire.extend_from_slice(&[9; 16]);
    assert_wire(
        Frame::NewConnectionId {
            seq: 5,
            retire_prior_to: 2,
            cid: ConnectionId::new(vec![1, 2, 3, 4]),
            stateless_reset_token: [9; 16],
        },
        &wire,
    );
    assert_wire(Frame::RetireConnectionId { seq: 5 }, &[0x19, 5]);
    assert_wire(
        Frame::ConnectionClose {
            error_code: 10,
            application: false,
            frame_type: 6,
            reason: b"no".to_vec(),
        },
        &[0x1c, 10, 6, 2, b'n', b'o'],
    );
    assert_wire(
        Frame::ConnectionClose {
            error_code: 10,
            application: true,
            frame_type: 0,
            reason: b"no".to_vec(),
        },
        &[0x1d, 10, 2, b'n', b'o'],
    );
    assert_wire(Frame::HandshakeDone, &[0x1e]);
}

#[test]
fn stream_and_datagram_frames() {
    let bytes = encoded(&Frame::Stream { id: 4, offset: 7, fin: true, data: b"abc" });
    let mut buf = Buf::new(&bytes);
    match decode_frame(&mut buf).expect("decode") {
        Frame::Stream { id: 4, offset: 7, fin: true, data } => assert_eq!(data, b"abc"),
        other => panic!("expected Stream, got {other:?}"),
    }
    // Without a length, the data takes the rest of the packet.
    let mut buf = Buf::new(&[0x08, 4, b'x', b'y']);
    match decode_frame(&mut buf).expect("decode") {
        Frame::Stream { id: 4, offset: 0, fin: false, data } => assert_eq!(data, b"xy"),
        other => panic!("expected Stream, got {other:?}"),
    }
    let mut buf = Buf::new(&[0x30, b'x', b'y']);
    match decode_frame(&mut buf).expect("decode") {
        Frame::Datagram(data) => assert_eq!(data, b"xy"),
        other => panic!("expected Datagram, got {other:?}"),
    }
    let bytes = encoded(&Frame::Datagram(b"z"));
    let mut buf = Buf::new(&bytes);
    match decode_frame(&mut buf).expect("decode") {
        Frame::Datagram(data) => assert_eq!(data, b"z"),
        other => panic!("expected Datagram, got {other:?}"),
    }
}

#[test]
fn padding_is_one_frame() {
    let bytes = encoded(&Frame::Padding(5));
    assert_eq!(bytes, [0; 5]);
    let mut wire = bytes;
    wire.push(1);
    let mut buf = Buf::new(&wire);
    assert!(matches!(decode_frame(&mut buf).expect("decode"), Frame::Padding(5)));
    assert!(matches!(decode_frame(&mut buf).expect("decode"), Frame::Ping));
    assert!(buf.is_empty());
}

#[test]
fn only_some_frames_elicit_acknowledgements() {
    assert!(Frame::Ping.is_ack_eliciting());
    assert!(Frame::HandshakeDone.is_ack_eliciting());
    assert!(!Frame::Padding(1).is_ack_eliciting());
    let ack = Frame::Ack { largest: 0, delay: 0, first_range: 0, ranges: vec![] };
    assert!(!ack.is_ack_eliciting());
    let close = Frame::ConnectionClose {
        error_code: 0,
        application: false,
        frame_type: 0,
        reason: vec![],
    };
    assert!(!close.is_ack_eliciting());
}

#[test]
fn malformed_frames_are_refused() {
    for wire in [
        // A type that is not known.
        &[0x21][..],
        &[0x40, 0xff],
        // Acknowledged numbers below zero.
        &[2, 3, 0, 0, 4],
        &[2, 3, 0, 1, 0, 2, 0],
        // A token without bytes.
        &[7, 0],
        // More streams than there are identifiers.
        &[0x12, 0xd0, 0, 0, 0, 0, 0, 0, 1],
        // An identifier of no bytes, and one of 21.
        &[0x18, 5, 2, 0],
        &[0x18, 5, 2, 21],
        // A threshold above the sequence number.
        &[0x18, 1, 2, 1, 9, 9, 9, 9, 9, 9, 9, 9, 9, 9, 9, 9, 9, 9, 9, 9, 9],
    ] {
        let mut buf = Buf::new(wire);
        match decode_frame(&mut buf) {
            Err(e) => assert_eq!(e.code, TransportErrorCode::FrameEncodingError, "{wire:?}"),
            Ok(frame) => panic!("{wire:?} is no {frame:?}"),
        }
    }
}
