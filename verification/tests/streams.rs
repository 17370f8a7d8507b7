//! The two sides of a stream.
use oxiquic_transport::stream::{RecvStream, SendStream, StreamError};

#[test]
fn data_is_read_in_order() {
    let mut s = RecvStream::new();
    assert_eq!(s.recv(3, b"def", false), Ok(false));
    assert_eq!(s.read(), (vec![], false));
    assert_eq!(s.recv(0, b"abc", false), Ok(true));
    assert_eq!(s.read(), (b"abcdef".to_vec(), false));
    // The end alone is news, too.
    assert_eq!(s.recv(6, b"", true), Ok(true));
    assert_eq!(s.read(), (vec![], true));
    assert_eq!(s.recv(0, b"abc", false), Ok(false));
}

#[test]
fn final_size_is_fixed() {
    let mut s = RecvStream::new();
    assert_eq!(s.recv(0, b"abc", false), Ok(true));
    // Below what has arrived.
    assert_eq!(s.recv(0, b"ab", true), Err(StreamError::FinalSize));
    assert_eq!(s.recv(3, b"d", true), Ok(true));
    // Beyond it, and another one.
    assert_eq!(s.recv(4, b"e", false), Err(StreamError::FinalSize));
    assert_eq!(s.recv(2, b"c", true), Err(StreamError::FinalSize));
    assert_eq!(s.recv(3, b"d", true), Ok(false));
}

#[test]
fn reset_is_remembered() {
    let mut s = RecvStream::new();
    assert!(!s.is_reset());
    s.apply_reset(7);
    assert!(s.is_reset());
    assert_eq!(s.reset_code(), Some(7));
}

#[test]
fn lost_data_goes_out_again() {
    let mut s = SendStream::new();
    s.on_written(5);
    assert_eq!(s.final_size(), 5);
    s.requeue(0, b"ab".to_vec(), false);
    s.requeue(2, b"cde".to_vec(), true);
    let first = s.take_resend().expect("lost data");
    assert_eq!((first.offset, first.data, first.fin), (0, b"ab".to_vec(), false));
    // A reset drops the rest.
    s.reset(9);
    assert!(s.is_reset());
    assert_eq!(s.reset_code(), Some(9));
    assert!(s.take_resend().is_none());
}
