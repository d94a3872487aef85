use ddnet_core::connection_limit::{ConnectionLimitPerIp, IpAddress, MaxConnections};
use ddnet_core::errors::{BanType, ConnectionErrorCode};
use ddnet_core::plugins::ConnectionEvent;

#[test]
fn max_connections_kicks_when_full() {
    let mut m = MaxConnections::new(2);
    assert!(m.on_incoming());
    assert!(matches!(m.on_connect(), ConnectionEvent::Allow));
    assert!(matches!(m.on_connect(), ConnectionEvent::Allow));
    match m.on_connect() {
        ConnectionEvent::Kicked(msg) => assert_eq!(msg, "server is full"),
        _ => panic!("expected a kick"),
    }
    m.on_disconnect();
    assert!(matches!(m.on_connect(), ConnectionEvent::Allow));
}

#[test]
fn connection_limit_per_ip() {
    let mut l = ConnectionLimitPerIp::new(1);
    let a = IpAddress::V4(0x7f000001);
    let b = IpAddress::V6(1);
    assert!(l.on_incoming());
    assert!(matches!(l.on_connect(a), ConnectionEvent::Allow));
    assert!(matches!(l.on_connect(b), ConnectionEvent::Allow));
    match l.on_connect(a) {
        ConnectionEvent::Kicked(msg) => {
            assert_eq!(msg, "a maximum of 1 connections per ip are allowed")
        }
        _ => panic!("expected a kick"),
    }
    l.on_disconnect(a);
    assert!(matches!(l.on_connect(a), ConnectionEvent::Allow));
    // a disconnect of an unknown ip changes nothing
    l.on_disconnect(IpAddress::V4(9));
    l.on_disconnect(IpAddress::V4(9));
    assert!(matches!(l.on_connect(IpAddress::V4(9)), ConnectionEvent::Allow));
}

#[test]
fn error_codes() {
    assert_eq!(ConnectionErrorCode::Kicked.code(), 0x400);
    assert_eq!(ConnectionErrorCode::Shutdown.code(), 0x402);
    assert_eq!(ConnectionErrorCode::from_code(0x401), Some(ConnectionErrorCode::Banned));
    assert_eq!(ConnectionErrorCode::from_code(0x3ff), None);
    for c in [ConnectionErrorCode::Kicked, ConnectionErrorCode::Banned, ConnectionErrorCode::Shutdown] {
        assert_eq!(ConnectionErrorCode::from_code(c.code()), Some(c));
    }
}

#[test]
fn ban_type_texts() {
    assert_eq!(BanType::Vpn.to_display_string(), "using a vpn");
    assert_eq!(BanType::Admin.to_display_string(), "by an admin");
    assert_eq!(BanType::Custom("spam".to_string()).to_display_string(), "spam");
}
