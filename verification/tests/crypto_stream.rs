//! Reassembly and retransmission of handshake data.
use oxiquic_transport::crypto_stream::CryptoStream;

#[test]
fn in_order_delivery() {
    let mut s = CryptoStream::new();
    assert_eq!(s.recv(0, b"hello"), Some(b"hello".to_vec()));
    assert_eq!(s.recv(5, b"world"), Some(b"world".to_vec()));
}

#[test]
fn out_of_order_buffered_then_flushed() {
    let mut s = CryptoStream::new();
    assert_eq!(s.recv(5, b"world"), None);
    assert_eq!(s.recv(0, b"hello"), Some(b"helloworld".to_vec()));
}

#[test]
fn duplicate_dropped() {
    let mut s = CryptoStream::new();
    assert_eq!(s.recv(0, b"hello"), Some(b"hello".to_vec()));
    assert_eq!(s.recv(0, b"hello"), None);
    assert_eq!(s.recv(2, b"llo"), None);
}

#[test]
fn partial_overlap() {
    let mut s = CryptoStream::new();
    assert_eq!(s.recv(0, b"abc"), Some(b"abc".to_vec()));
    // Overlaps delivered prefix, extends past it.
    assert_eq!(s.recv(1, b"bcdef"), Some(b"def".to_vec()));
}

#[test]
fn requeue_drains_before_send_buf() {
    let mut s = CryptoStream::new();
    s.enqueue_send(b"fresh-crypto");
    s.requeue(50, b"lost-crypto".to_vec());
    assert!(s.has_send_data());
    let (off, data) = s.take_send(100).expect("resend first");
    assert_eq!((off, &data[..]), (50, &b"lost-crypto"[..]));
    let (off, data) = s.take_send(100).expect("then fresh");
    assert_eq!((off, &data[..]), (0, &b"fresh-crypto"[..]));
}

#[test]
fn send_chunking() {
    let mut s = CryptoStream::new();
    s.enqueue_send(b"handshake-bytes");
    let (off, chunk) = s.take_send(9).expect("chunk");
    assert_eq!(off, 0);
    assert_eq!(chunk, b"handshake");
    let (off, chunk) = s.take_send(100).expect("chunk2");
    assert_eq!(off, 9);
    assert_eq!(chunk, b"-bytes");
    assert!(s.take_send(10).is_none());
}

#[test]
fn lost_data_is_split_at_its_offset() {
    let mut s = CryptoStream::new();
    s.requeue(7, b"abcdef".to_vec());
    s.requeue(100, b"x".to_vec());
    assert_eq!(s.take_send(0), None);
    assert_eq!(s.take_send(4), Some((7, b"abcd".to_vec())));
    assert_eq!(s.take_send(4), Some((11, b"ef".to_vec())));
    assert_eq!(s.take_send(4), Some((100, b"x".to_vec())));
    assert!(!s.has_send_data());
    assert_eq!(s.take_send(4), None);
}

#[test]
fn bytes_arrive_once_in_any_order() {
    let text = b"the quick brown fox";
    for step in 1..6 {
        let mut s = CryptoStream::new();
        let mut got = Vec::new();
        let mut at = text.len();
        while at > 0 {
            let from = at.saturating_sub(step);
            if let Some(bytes) = s.recv(from as u64, &text[from..at]) {
                got.extend_from_slice(&bytes);
            }
            at = from;
        }
        assert_eq!(got, text, "step {step}");
        assert_eq!(s.recv(3, &text[3..]), None);
    }
}

#[test]
fn of_segments_at_the_same_offset_the_longer_is_kept() {
    let mut s = CryptoStream::new();
    assert_eq!(s.recv(5, b"world"), None);
    assert_eq!(s.recv(5, b"wo"), None);
    assert_eq!(s.recv(0, b"hello"), Some(b"helloworld".to_vec()));
    let mut s = CryptoStream::new();
    assert_eq!(s.recv(5, b"wo"), None);
    assert_eq!(s.recv(5, b""), None);
    assert_eq!(s.recv(5, b"world"), None);
    assert_eq!(s.recv(0, b"hello"), Some(b"helloworld".to_vec()));
}

#[test]
fn bytes_queued_in_parts_are_one_stream() {
    let (mut parts, mut whole) = (CryptoStream::new(), CryptoStream::new());
    parts.enqueue_send(b"hand");
    parts.enqueue_send(b"");
    parts.enqueue_send(b"shake");
    whole.enqueue_send(b"handshake");
    for max in [3, 4, 100, 1] {
        assert_eq!(parts.take_send(max), whole.take_send(max));
    }
    assert_eq!(parts.recv(0, b"x"), whole.recv(0, b"x"));
}
