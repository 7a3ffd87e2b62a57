use trojan_proxy::relay::{
    udp_relay_step, FallbackAcceptor, UdpAction, UdpEvent, FULL_CONE_TIMEOUT_SECS,
    TCP_IDLE_TIMEOUT_SECS,
};
use trojan_proxy::config::{default_bind, default_listen, default_redis};
use trojan_proxy::streams::{CountStream, PacketStat, PushingStream, TcpStream};

#[test]
fn idle_connection_reports_zero_traffic() {
    let mut counter = CountStream::new(());
    assert_eq!(counter.close(), Some((0, 0)));
    let stat = PacketStat::new("cred".to_string(), 0, 0);
    assert_eq!((stat.password.as_str(), stat.upload, stat.download), ("cred", 0, 0));
    assert_eq!(TCP_IDLE_TIMEOUT_SECS, 600);
    assert_eq!(FULL_CONE_TIMEOUT_SECS, 30);
    assert_eq!(udp_relay_step(UdpEvent::IdleTimeout), UdpAction::Close);
}

#[test]
fn counter_totals_are_handed_out_once() {
    let mut counter = CountStream::new(());
    counter.record_read(10);
    counter.record_write(3);
    counter.record_read(5);
    assert_eq!(counter.close(), Some((15, 3)));
    assert_eq!(counter.close(), None);
}

#[test]
fn counter_saturates() {
    let mut counter = CountStream::new(());
    counter.record_read(usize::MAX);
    counter.record_read(usize::MAX);
    counter.record_read(usize::MAX);
    let (read, write) = counter.close().unwrap();
    assert_eq!(write, 0);
    assert!(read >= usize::MAX as u64);
}

#[test]
fn udp_tunnel_policy() {
    assert_eq!(udp_relay_step(UdpEvent::ClientFrame), UdpAction::SendToTarget);
    assert_eq!(udp_relay_step(UdpEvent::TargetDatagram), UdpAction::SendToClient);
    assert_eq!(udp_relay_step(UdpEvent::TargetSendFailed), UdpAction::Continue);
    assert_eq!(udp_relay_step(UdpEvent::TargetReceiveFailed), UdpAction::Continue);
    assert_eq!(udp_relay_step(UdpEvent::ClientClosed), UdpAction::Close);
    assert_eq!(udp_relay_step(UdpEvent::ClientBadFrame), UdpAction::Close);
    assert_eq!(udp_relay_step(UdpEvent::ClientWriteFailed), UdpAction::Close);
}

#[test]
fn fallback_target_and_builtin_statuses() {
    assert!(FallbackAcceptor::new(String::new()).uses_builtin());
    let f = FallbackAcceptor::new("127.0.0.1:80".to_string());
    assert!(!f.uses_builtin());
    assert_eq!(f.target_addr(), "127.0.0.1:80");
    assert_eq!(trojan_proxy::relay::builtin_status("POST"), 405);
    assert_eq!(trojan_proxy::relay::builtin_status("get"), 405);
    assert_eq!(trojan_proxy::relay::builtin_status("GETS"), 405);
}

#[test]
fn pushing_stream_reports_after_flush() {
    let mut s = PushingStream::new(());
    assert!(s.writing());
    s.written(7);
    assert!(!s.writing());
    assert_eq!(s.flushed(), Some(7));
    assert!(s.writing());
    assert_eq!(s.flushed(), None);
}

#[test]
fn tcp_stream_wraps_its_inner_value() {
    let mut t = TcpStream(5u8);
    *t.as_mut() += 1;
    assert_eq!(*t.as_ref(), 6);
}

#[test]
fn configuration_defaults() {
    assert_eq!(default_bind(), "127.0.0.1:1080");
    assert_eq!(default_listen(), "0.0.0.0:443");
    assert_eq!(default_redis(), "127.0.0.1:6379");
}
