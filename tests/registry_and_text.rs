use rtc_server::registry::{AddressRegistry, ListenAddress};
use rtc_server::text::{decimal_text, is_local_address};

#[test]
fn set_if_absent_writes_once() {
    let mut r = AddressRegistry::new();
    assert_eq!(r.get(), None);
    assert!(r.set_if_absent("a".to_string()));
    assert!(!r.set_if_absent("b".to_string()));
    assert_eq!(r.get(), Some("a".to_string()));
}

#[test]
fn offer_skips_local_then_keeps_first() {
    let mut r = AddressRegistry::new();
    let local = ListenAddress { text: "/ip6/::1/udp/5".to_string(), dialable: "l".to_string() };
    let public = ListenAddress { text: "/ip4/8.8.8.8/udp/5".to_string(), dialable: "p".to_string() };
    let later = ListenAddress { text: "/ip4/9.9.9.9/udp/5".to_string(), dialable: "q".to_string() };
    assert!(!r.offer(&local));
    assert!(r.offer(&public));
    assert!(!r.offer(&later));
    assert_eq!(r.get(), Some("p".to_string()));
}

#[test]
fn decimal_rendering() {
    assert_eq!(decimal_text(0), "0");
    assert_eq!(decimal_text(7), "7");
    assert_eq!(decimal_text(10), "10");
    assert_eq!(decimal_text(1234567890), "1234567890");
    assert_eq!(decimal_text(u128::MAX), u128::MAX.to_string());
}

#[test]
fn local_marker_detection() {
    assert!(is_local_address("/ip6/::/udp/1"));
    assert!(is_local_address("/ip6/::1/udp/1"));
    assert!(is_local_address("/ip6/fe80::1/udp/1"));
    assert!(is_local_address("/ip4/127.0.0.1/udp/1"));
    assert!(is_local_address("/ip4/127.5.6.7"));
    assert!(is_local_address("/ip4/169.254.3.4/udp/1"));
    assert!(is_local_address("/ip4/0.0.0.0/udp/1"));
    assert!(!is_local_address("/ip6/2001:db8::1/udp/1"));
    assert!(!is_local_address("/ip6/2607:fea8:fec0:7337::d93a/udp/42069/quic-v1"));
    assert!(!is_local_address("/ip6/2001:db8:0:0:0:0:0:1/udp/1"));
    assert!(!is_local_address("/ip4/10.0.0.2/udp/1"));
    assert!(!is_local_address("/ip4/1.127.0.1/udp/1"));
    assert!(!is_local_address("/ip6/::10/udp/1"));
    assert!(is_local_address("/ip6/::ffff:127.0.0.1/udp/1/quic-v1"));
    assert!(is_local_address("/ip6/::ffff:169.254.1.1/udp/1"));
    assert!(is_local_address("/ip6/::ffff:0.0.0.0/udp/1"));
    assert!(!is_local_address("/ip6/::ffff:8.8.8.8/udp/1"));
    assert!(is_local_address("/ip6/fe9c::1/udp/1"));
    assert!(is_local_address("/ip6/fea0::1/udp/1"));
    assert!(is_local_address("/ip6/febf:1::2/udp/1"));
    assert!(!is_local_address("/ip6/fec0::1/udp/1"));
    assert!(!is_local_address("/ip6/fe8::1/udp/1"));
    assert!(!is_local_address("::"));
    assert!(!is_local_address(""));
}
