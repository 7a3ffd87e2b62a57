use trojan_proxy::address::{Address, AddressDomain, SocketAddr};
use trojan_proxy::auth::{credential, ConfigAuthenticator};
use trojan_proxy::config::TrojanServer;
use trojan_proxy::outbound::TrojanOutbound;
use trojan_proxy::handshake::{calc_length, Action, Cmd, Reject, TrojanHandshake, HEAD_LEN};
use trojan_proxy::peekable::PeekableStream;
use trojan_proxy::relay::builtin_status;

fn preamble(cred: &str, cmd: u8, addr: &[u8]) -> Vec<u8> {
    let mut v = cred.as_bytes().to_vec();
    v.extend_from_slice(b"\r\n");
    v.push(cmd);
    v.extend_from_slice(addr);
    v.extend_from_slice(b"\r\n");
    v
}

fn ipv4_addr(ip: [u8; 4], port: u16) -> Vec<u8> {
    let mut v = vec![1];
    v.extend_from_slice(&ip);
    v.extend_from_slice(&port.to_be_bytes());
    v
}

/// Runs a handshake over `sent`, with `auth` as the authenticator; returns
/// the final action and the stream.
fn run(sent: &[u8], auth: &ConfigAuthenticator, sni: bool) -> (Action, PeekableStream<()>) {
    let mut stream = PeekableStream::new(());
    let mut hs = TrojanHandshake::new();
    let mut fed = 0usize;
    let mut action = hs.on_tls(sni);
    loop {
        action = match action {
            Action::Fill(n) => {
                let missing = stream.missing(n);
                if fed + missing > sent.len() {
                    stream.extend(&sent[fed..]);
                    fed = sent.len();
                    hs.on_closed()
                } else {
                    stream.extend(&sent[fed..fed + missing]);
                    fed += missing;
                    hs.on_filled(&mut stream)
                }
            }
            Action::Authenticate(c) => {
                let ok = auth.auth(&c);
                hs.on_auth(&stream, ok)
            }
            done => {
                if fed < sent.len() {
                    stream.extend(&sent[fed..]);
                }
                return (done, stream);
            }
        };
    }
}

#[test]
fn valid_connect_reaches_echo_target() {
    let cred = credential("password");
    let auth = ConfigAuthenticator::new(vec!["password".to_string()]);
    let mut sent = preamble(&cred, 1, &ipv4_addr([127, 0, 0, 1], 9001));
    sent.extend_from_slice(b"HELLO");
    let (action, mut stream) = run(&sent, &auth, true);
    match action {
        Action::Accept(Cmd::Connect(addr), c) => {
            assert_eq!(addr, Address::SocketAddr(SocketAddr::V4([127, 0, 0, 1], 9001)));
            assert_eq!(c, cred);
        }
        other => panic!("unexpected {:?}", matches!(other, Action::Fallback(_))),
    }
    assert_eq!(stream.read_buffered(1024), b"HELLO".to_vec());
}

#[test]
fn wrong_password_keeps_every_byte_for_fallback() {
    let cred = credential("not the password");
    let auth = ConfigAuthenticator::new(vec!["password".to_string()]);
    let mut sent = preamble(&cred, 1, &ipv4_addr([127, 0, 0, 1], 9001));
    sent.extend_from_slice(b"HELLO");
    let (action, mut stream) = run(&sent, &auth, true);
    match action {
        Action::Fallback(Reject::AuthFail(c)) => assert_eq!(c, cred),
        _ => panic!("expected an authentication failure"),
    }
    assert_eq!(stream.read_buffered(4096), sent);
}

#[test]
fn plain_http_get_goes_to_builtin_fallback() {
    let auth = ConfigAuthenticator::new(vec!["password".to_string()]);
    let sent = b"GET / HTTP/1.1\r\nHost: x\r\n\r\n".to_vec();
    let mut stream = PeekableStream::new(());
    let mut hs = TrojanHandshake::new();
    assert!(matches!(hs.on_tls(true), Action::Fill(61)));
    stream.extend(&sent);
    assert!(matches!(hs.on_filled(&mut stream), Action::Fallback(Reject::NotTrojan)));
    assert_eq!(stream.read_buffered(4096), sent);
    assert_eq!(builtin_status("GET"), 404);
}

#[test]
fn short_hex_prefix_keeps_waiting() {
    let mut stream = PeekableStream::new(());
    let mut hs = TrojanHandshake::new();
    assert!(matches!(hs.on_tls(true), Action::Fill(61)));
    stream.extend(b"d63dc");
    assert!(matches!(hs.on_filled(&mut stream), Action::Fill(61)));
    stream.extend(b"9z");
    assert!(matches!(hs.on_filled(&mut stream), Action::Fallback(Reject::NotTrojan)));
    assert_eq!(stream.read_buffered(100), b"d63dc9z".to_vec());
}

#[test]
fn truncated_preamble_is_incomplete() {
    let auth = ConfigAuthenticator::new(vec!["password".to_string()]);
    let cred = credential("password");
    let (action, mut stream) = run(cred[..40].as_bytes(), &auth, true);
    assert!(matches!(action, Action::Fallback(Reject::Incomplete)));
    assert_eq!(stream.read_buffered(100), cred[..40].as_bytes().to_vec());
}

#[test]
fn long_http_get_is_not_trojan() {
    let auth = ConfigAuthenticator::new(vec!["password".to_string()]);
    let sent = b"GET /index.html HTTP/1.1\r\nHost: www.example.com\r\nUser-Agent: test\r\n\r\n".to_vec();
    assert!(sent.len() >= HEAD_LEN);
    let (action, mut stream) = run(&sent, &auth, true);
    assert!(matches!(action, Action::Fallback(Reject::NotTrojan)));
    assert_eq!(stream.read_buffered(4096), sent);
}

#[test]
fn sni_mismatch_skips_preamble() {
    let auth = ConfigAuthenticator::new(vec!["password".to_string()]);
    let cred = credential("password");
    let sent = preamble(&cred, 1, &ipv4_addr([127, 0, 0, 1], 9001));
    let (action, mut stream) = run(&sent, &auth, false);
    assert!(matches!(action, Action::Fallback(Reject::SniMismatch)));
    assert_eq!(stream.read_buffered(4096), sent);
}

#[test]
fn udp_associate_preamble_is_accepted() {
    let cred = credential("password");
    let auth = ConfigAuthenticator::new(vec!["password".to_string()]);
    let sent = preamble(&cred, 3, &ipv4_addr([0, 0, 0, 0], 0));
    // The IPv4 request is read from 70 peeked bytes: two more than the preamble.
    let mut with_frame = sent.clone();
    with_frame.extend_from_slice(&[1, 1, 1, 1, 1, 0, 53, 0, 1, 13, 10, 7]);
    let (action, mut stream) = run(&with_frame, &auth, true);
    match action {
        Action::Accept(Cmd::UdpAssociate(addr), _) => {
            assert_eq!(addr, Address::SocketAddr(SocketAddr::V4([0, 0, 0, 0], 0)))
        }
        _ => panic!("expected a UDP association"),
    }
    assert_eq!(stream.read_buffered(4096), with_frame[sent.len()..].to_vec());
}

#[test]
fn domain_and_ipv6_requests_are_parsed() {
    let cred = credential("trojan");
    let auth = ConfigAuthenticator::new(vec!["trojan".to_string()]);
    let mut domain = vec![3, 11];
    domain.extend_from_slice(b"example.com");
    domain.extend_from_slice(&443u16.to_be_bytes());
    let sent = preamble(&cred, 1, &domain);
    let (action, _) = run(&sent, &auth, true);
    match action {
        Action::Accept(Cmd::Connect(addr), _) => assert_eq!(
            addr,
            Address::Domain(AddressDomain("example.com".to_string(), 443))
        ),
        _ => panic!("expected a domain request"),
    }
    let mut v6 = vec![4];
    v6.extend_from_slice(&[0x20, 0x01, 0x0d, 0xb8, 0, 0, 0, 0, 0, 0, 0, 0, 0, 0, 0, 1]);
    v6.extend_from_slice(&80u16.to_be_bytes());
    let sent = preamble(&cred, 1, &v6);
    let (action, _) = run(&sent, &auth, true);
    match action {
        Action::Accept(Cmd::Connect(addr), _) => assert_eq!(
            addr,
            Address::SocketAddr(SocketAddr::V6(
                [0x20, 0x01, 0x0d, 0xb8, 0, 0, 0, 0, 0, 0, 0, 0, 0, 0, 0, 1],
                80
            ))
        ),
        _ => panic!("expected an IPv6 request"),
    }
}

#[test]
fn bad_atyp_and_bad_command_fall_back_untouched() {
    let cred = credential("password");
    let auth = ConfigAuthenticator::new(vec!["password".to_string()]);
    let mut bad_atyp = preamble(&cred, 1, &[9, 1, 2, 3, 4, 0, 80]);
    bad_atyp.extend_from_slice(b"xyz");
    let (action, mut stream) = run(&bad_atyp, &auth, true);
    assert!(matches!(action, Action::Fallback(Reject::BadAtyp)));
    assert_eq!(stream.read_buffered(4096), bad_atyp);

    let mut bad_cmd = preamble(&cred, 2, &ipv4_addr([10, 0, 0, 1], 80));
    bad_cmd.extend_from_slice(b"xyz");
    let (action, mut stream) = run(&bad_cmd, &auth, true);
    assert!(matches!(action, Action::Fallback(Reject::BadCommand)));
    assert_eq!(stream.read_buffered(4096), bad_cmd);
}

#[test]
fn domain_that_is_not_utf8_is_a_bad_address() {
    let cred = credential("password");
    let auth = ConfigAuthenticator::new(vec!["password".to_string()]);
    let sent = preamble(&cred, 1, &[3, 2, 0xff, 0xfe, 0, 80]);
    let (action, mut stream) = run(&sent, &auth, true);
    assert!(matches!(action, Action::Fallback(Reject::BadAddress)));
    assert_eq!(stream.read_buffered(4096), sent);
}

#[test]
fn upper_case_hex_is_hex_but_unknown() {
    let cred = credential("password").to_uppercase();
    let auth = ConfigAuthenticator::new(vec!["password".to_string()]);
    let sent = preamble(&cred, 1, &ipv4_addr([127, 0, 0, 1], 80));
    let (action, _) = run(&sent, &auth, true);
    assert!(matches!(action, Action::Fallback(Reject::AuthFail(_))));
}

#[test]
fn non_hex_credential_is_not_trojan() {
    let mut cred = credential("password");
    cred.replace_range(10..11, "g");
    let auth = ConfigAuthenticator::new(vec!["password".to_string()]);
    let sent = preamble(&cred, 1, &ipv4_addr([127, 0, 0, 1], 80));
    let (action, _) = run(&sent, &auth, true);
    assert!(matches!(action, Action::Fallback(Reject::NotTrojan)));
}

#[test]
fn auth_backend_error_falls_back() {
    let mut hs = TrojanHandshake::new();
    assert!(matches!(hs.on_tls(true), Action::Fill(61)));
    assert!(matches!(hs.on_auth_error(), Action::Fallback(Reject::AuthBackend)));
}

#[test]
fn calls_out_of_turn_end_in_fallback() {
    let mut hs = TrojanHandshake::new();
    let stream = PeekableStream::new(());
    assert!(matches!(hs.on_auth(&stream, true), Action::Fallback(Reject::Incomplete)));
    assert!(matches!(hs.on_tls(true), Action::Fallback(Reject::Incomplete)));
}

#[test]
fn calc_length_by_address_type() {
    let mut head = vec![b'a'; 61];
    head[59] = 1;
    assert_eq!(calc_length(&head).unwrap(), 70);
    head[59] = 3;
    head[60] = 11;
    assert_eq!(calc_length(&head).unwrap(), 76);
    head[60] = 255;
    assert_eq!(calc_length(&head).unwrap(), 320);
    head[59] = 4;
    assert_eq!(calc_length(&head).unwrap(), 80);
    head[59] = 2;
    assert!(matches!(calc_length(&head), Err(Reject::BadAtyp)));
}

#[test]
fn client_preamble_is_accepted_by_server() {
    let client = TrojanOutbound::new(TrojanServer {
        server: "example.com:443".to_string(),
        password: "trojan".to_string(),
        udp: false,
        sni: "example.com".to_string(),
        skip_cert_verify: false,
    });
    let auth = ConfigAuthenticator::new(vec!["trojan".to_string()]);
    let target = Address::Domain(AddressDomain("www.example.org".to_string(), 8443));
    let mut sent = client.make_head(1, &target).unwrap();
    sent.extend_from_slice(b"payload");
    let (action, mut stream) = run(&sent, &auth, true);
    match action {
        Action::Accept(Cmd::Connect(addr), c) => {
            assert_eq!(addr, target);
            assert_eq!(c, credential("trojan"));
        }
        _ => panic!("the server should accept the client's preamble"),
    }
    assert_eq!(stream.read_buffered(100), b"payload".to_vec());
}
