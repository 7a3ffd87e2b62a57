use trojan_proxy::acl::ACL;
use trojan_proxy::address::SocketAddr;
use trojan_proxy::outbound::{DirectOutbound, OutboundError};

fn v4(a: u8, b: u8, c: u8, d: u8) -> SocketAddr {
    SocketAddr::V4([a, b, c, d], 80)
}

fn v6(first: [u8; 2], last: u8) -> SocketAddr {
    let mut ip = [0u8; 16];
    ip[0] = first[0];
    ip[1] = first[1];
    ip[15] = last;
    SocketAddr::V6(ip, 80)
}

#[test]
fn block_local_covers_the_local_ranges() {
    let acl = ACL::new(true);
    for a in [
        v4(127, 0, 0, 1),
        v4(127, 255, 1, 2),
        v4(10, 20, 30, 40),
        v4(100, 64, 0, 1),
        v4(100, 127, 255, 255),
        v4(172, 16, 0, 1),
        v4(172, 31, 255, 255),
        v4(198, 18, 0, 1),
        v4(198, 19, 255, 255),
        v4(192, 168, 1, 1),
        v4(192, 0, 0, 200),
        v6([0, 0], 1),
        v6([0xfc, 0], 5),
        v6([0xfd, 0x12], 0),
        v6([0xfe, 0x80], 1),
        v6([0xfe, 0xbf], 1),
    ] {
        assert!(acl.has_match(a), "{:?}", a);
    }
}

#[test]
fn block_local_lets_public_addresses_through() {
    let acl = ACL::new(true);
    for a in [
        v4(8, 8, 8, 8),
        v4(100, 63, 255, 255),
        v4(100, 128, 0, 0),
        v4(172, 32, 0, 0),
        v4(198, 20, 0, 0),
        v4(192, 169, 0, 0),
        v4(192, 0, 1, 0),
        v6([0, 0], 2),
        v6([0xfe, 0xc0], 1),
        v6([0x20, 0x01], 1),
    ] {
        assert!(!acl.has_match(a), "{:?}", a);
    }
    assert!(!ACL::new(false).has_match(v4(127, 0, 0, 1)));
}

#[test]
fn direct_outbound_filters_candidates() {
    let open = DirectOutbound::new();
    assert!(open.allows(v4(127, 0, 0, 1)));
    let guarded = DirectOutbound::with_acl(ACL::new(true));
    assert!(!guarded.allows(v4(127, 0, 0, 1)));
    assert_eq!(guarded.candidates(&Vec::new()), Err(OutboundError::NoAddress));
    assert_eq!(
        guarded.candidates(&vec![v4(127, 0, 0, 1), v4(10, 0, 0, 1)]),
        Err(OutboundError::AclDenied)
    );
    assert_eq!(
        guarded.candidates(&vec![v4(127, 0, 0, 1), v4(1, 1, 1, 1), v4(10, 0, 0, 1), v4(9, 9, 9, 9)]),
        Ok(vec![v4(1, 1, 1, 1), v4(9, 9, 9, 9)])
    );
}
