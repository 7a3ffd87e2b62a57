use std::collections::VecDeque;
use trojan_proxy::peekable::PeekableStream;

#[test]
fn peek_then_read_returns_every_byte_once() {
    let mut s = PeekableStream::new(());
    s.extend(b"hello ");
    assert_eq!(s.peek_exact(3), b"hel".to_vec());
    assert_eq!(s.peek_exact(6), b"hello ".to_vec());
    s.drain(2);
    s.extend(b"world");
    let mut out = b"he".to_vec();
    out.extend(s.read_buffered(4));
    assert_eq!(s.peek_exact(2), b"wo".to_vec());
    out.extend(s.read_buffered(100));
    assert_eq!(out, b"hello world".to_vec());
    assert_eq!(s.buffered_len(), 0);
    assert!(s.read_buffered(10).is_empty());
}

#[test]
fn missing_counts_bytes_still_to_pull() {
    let mut s = PeekableStream::new(());
    assert_eq!(s.missing(61), 61);
    s.extend(&[0u8; 20]);
    assert_eq!(s.missing(61), 41);
    assert_eq!(s.missing(10), 0);
}

#[test]
fn with_buf_and_into_inner_keep_the_buffer() {
    let s = PeekableStream::with_buf(7u32, VecDeque::from(vec![1u8, 2, 3]));
    assert_eq!(s.peek_exact(3), vec![1, 2, 3]);
    let (inner, buf) = s.into_inner();
    assert_eq!(inner, 7);
    assert_eq!(buf, VecDeque::from(vec![1u8, 2, 3]));
}

#[test]
fn fallback_sees_peeked_bytes_then_the_rest() {
    let mut s = PeekableStream::new(());
    s.extend(b"GET / HTTP/1.1\r\n");
    let _ = s.peek_exact(10);
    s.extend(b"Host: x\r\n\r\n");
    let mut got = s.read_buffered(5);
    got.extend(s.read_buffered(1000));
    assert_eq!(got, b"GET / HTTP/1.1\r\nHost: x\r\n\r\n".to_vec());
}

#[test]
fn get_mut_reaches_the_inner_stream() {
    let mut s = PeekableStream::new(vec![1u8]);
    s.get_mut().push(2);
    let (inner, _) = s.into_inner();
    assert_eq!(inner, vec![1, 2]);
}
