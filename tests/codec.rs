use bytes::BytesMut;
use trojan_proxy::address::{Address, AddressDomain, SocketAddr};
use trojan_proxy::codec::{CodecError, UdpCodec, UDP_MAX_SIZE};

fn encode(addr: Address, payload: Vec<u8>) -> BytesMut {
    let mut codec = UdpCodec::new(None);
    let mut dst = BytesMut::new();
    codec.encode((payload, addr), &mut dst).unwrap();
    dst
}

#[test]
fn frame_bytes_for_ipv4() {
    let dst = encode(Address::SocketAddr(SocketAddr::V4([1, 1, 1, 1], 53)), b"query".to_vec());
    assert_eq!(&dst[..], &[1, 1, 1, 1, 1, 0, 53, 0, 5, 13, 10, b'q', b'u', b'e', b'r', b'y'][..]);
}

#[test]
fn codec_round_trip_ipv4_ipv6_domain() {
    let addrs = vec![
        Address::SocketAddr(SocketAddr::V4([1, 1, 1, 1], 53)),
        Address::SocketAddr(SocketAddr::V6([0xfe, 0x80, 0, 0, 0, 0, 0, 0, 0, 0, 0, 0, 0, 0, 0, 9], 5353)),
        Address::Domain(AddressDomain("dns.example".to_string(), 853)),
        Address::Domain(AddressDomain("bücher.example".to_string(), 1)),
    ];
    for addr in addrs {
        let payload: Vec<u8> = (0..300u32).map(|i| (i % 251) as u8).collect();
        let mut src = encode(addr.clone(), payload.clone());
        let mut codec = UdpCodec::new(None);
        let (p, a) = codec.decode(&mut src).unwrap().unwrap();
        assert_eq!(a, addr);
        assert_eq!(p, payload);
        assert!(src.is_empty());
    }
}

#[test]
fn codec_round_trip_empty_and_largest_payload() {
    for len in [0usize, UDP_MAX_SIZE] {
        let addr = Address::SocketAddr(SocketAddr::V4([8, 8, 8, 8], 53));
        let payload = vec![0xabu8; len];
        let mut src = encode(addr.clone(), payload.clone());
        let mut codec = UdpCodec::new(None);
        let (p, a) = codec.decode(&mut src).unwrap().unwrap();
        assert_eq!((p, a), (payload, addr));
    }
}

#[test]
fn oversize_payload_is_refused() {
    let mut codec = UdpCodec::new(None);
    let mut dst = BytesMut::new();
    let r = codec.encode(
        (vec![0u8; UDP_MAX_SIZE + 1], Address::SocketAddr(SocketAddr::V4([1, 2, 3, 4], 5))),
        &mut dst,
    );
    assert_eq!(r, Err(CodecError::FrameTooLarge));
    assert!(dst.is_empty());
}

#[test]
fn long_domain_is_refused() {
    let mut codec = UdpCodec::new(Some(b"head".to_vec()));
    let mut dst = BytesMut::new();
    let r = codec.encode(
        (b"x".to_vec(), Address::Domain(AddressDomain("a".repeat(256), 80))),
        &mut dst,
    );
    assert_eq!(r, Err(CodecError::DomainTooLong));
    assert!(dst.is_empty());
    codec.encode((b"x".to_vec(), Address::Domain(AddressDomain("a".repeat(255), 80))), &mut dst).unwrap();
    assert_eq!(&dst[..4], b"head");
}

#[test]
fn head_goes_before_first_frame_only() {
    let mut codec = UdpCodec::new(Some(b"HEAD".to_vec()));
    let mut dst = BytesMut::new();
    assert_eq!(
        codec.encode((vec![], Address::Domain(AddressDomain("a.b".to_string(), 1))), &mut dst),
        Ok(())
    );
    assert_eq!(&dst[..], &[b'H', b'E', b'A', b'D', 3, 3, b'a', b'.', b'b', 0, 1, 0, 0, 13, 10][..]);
}

#[test]
fn head_is_written_once() {
    let mut codec = UdpCodec::new(Some(b"PRE".to_vec()));
    let mut dst = BytesMut::new();
    let addr = Address::SocketAddr(SocketAddr::V4([1, 2, 3, 4], 5));
    codec.encode((b"a".to_vec(), addr.clone()), &mut dst).unwrap();
    codec.encode((b"b".to_vec(), addr), &mut dst).unwrap();
    let frame = [1u8, 1, 2, 3, 4, 0, 5, 0, 1, 13, 10];
    let mut expected = b"PRE".to_vec();
    expected.extend_from_slice(&frame);
    expected.push(b'a');
    expected.extend_from_slice(&frame);
    expected.push(b'b');
    assert_eq!(&dst[..], &expected[..]);
}

#[test]
fn decode_waits_for_a_whole_frame() {
    let whole = encode(Address::SocketAddr(SocketAddr::V4([1, 1, 1, 1], 53)), b"abc".to_vec());
    for cut in 0..whole.len() {
        let mut src = BytesMut::from(&whole[..cut]);
        let mut codec = UdpCodec::new(None);
        assert_eq!(codec.decode(&mut src), Ok(None));
        assert_eq!(src.len(), cut);
    }
}

#[test]
fn decode_takes_one_frame_at_a_time() {
    let mut src = encode(Address::SocketAddr(SocketAddr::V4([1, 1, 1, 1], 53)), b"one".to_vec());
    src.extend_from_slice(&encode(Address::Domain(AddressDomain("x.y".to_string(), 7)), b"two".to_vec()));
    let mut codec = UdpCodec::new(None);
    assert_eq!(codec.decode(&mut src).unwrap().unwrap().0, b"one".to_vec());
    let (p, a) = codec.decode(&mut src).unwrap().unwrap();
    assert_eq!(p, b"two".to_vec());
    assert_eq!(a, Address::Domain(AddressDomain("x.y".to_string(), 7)));
    assert_eq!(codec.decode(&mut src), Ok(None));
}

#[test]
fn decode_rejects_unknown_type_and_bad_domain() {
    let mut codec = UdpCodec::new(None);
    let mut src = BytesMut::from(&[2u8, 0, 0, 0][..]);
    assert_eq!(codec.decode(&mut src), Err(CodecError::CodecDecode));
    assert_eq!(src.len(), 4);
    let mut src = BytesMut::from(&[3u8, 1, 0xff, 0, 80, 0, 0, 13, 10][..]);
    assert_eq!(codec.decode(&mut src), Err(CodecError::CodecDecode));
}

#[test]
fn decode_ignores_crlf_value() {
    let mut src = BytesMut::from(&[1u8, 9, 9, 9, 9, 0, 1, 0, 2, 0, 0, 7, 8][..]);
    let mut codec = UdpCodec::new(None);
    let (p, a) = codec.decode(&mut src).unwrap().unwrap();
    assert_eq!(p, vec![7, 8]);
    assert_eq!(a, Address::SocketAddr(SocketAddr::V4([9, 9, 9, 9], 1)));
}
