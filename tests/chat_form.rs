use rtc_server::chat::ENTER_KEY;
use rtc_server::SimpleChat;

#[test]
fn form_starts_empty() {
    let f = SimpleChat(0, 1);
    assert_eq!(f.input(), "");
    assert_eq!(f.addr(), "");
    assert_eq!(f.status(), "Enter Multiaddr to connect");
}

#[test]
fn enter_takes_trimmed_address_and_clears_field() {
    let mut f = SimpleChat(0, 1);
    f.on_input("  /ip4/1.2.3.4/udp/9/quic-v1 \t".to_string());
    f.on_key(ENTER_KEY);
    assert_eq!(f.addr(), "/ip4/1.2.3.4/udp/9/quic-v1");
    assert_eq!(f.input(), "");
    assert_eq!(f.status(), "Connecting to /ip4/1.2.3.4/udp/9/quic-v1");
}

#[test]
fn other_keys_and_blank_input_change_nothing() {
    let mut f = SimpleChat(0, 1);
    f.on_input("/ip4/1.2.3.4".to_string());
    f.on_key(27);
    assert_eq!(f.addr(), "");
    assert_eq!(f.input(), "/ip4/1.2.3.4");
    f.on_input("   ".to_string());
    f.on_key(ENTER_KEY);
    assert_eq!(f.addr(), "");
    assert_eq!(f.input(), "   ");
}

#[test]
fn enter_trims_unicode_white_space_only() {
    let mut f = SimpleChat(0, 1);
    f.on_input("\u{3000}\u{85}/ip4/1.2.3.4\u{2009}\n".to_string());
    f.on_key(ENTER_KEY);
    assert_eq!(f.addr(), "/ip4/1.2.3.4");
    let mut g = SimpleChat(0, 1);
    g.on_input("\u{200B}/ip4/5.6.7.8".to_string());
    g.on_key(ENTER_KEY);
    assert_eq!(g.addr(), "\u{200B}/ip4/5.6.7.8");
}
