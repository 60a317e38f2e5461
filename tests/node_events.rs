use rtc_server::{
    ListenAddress, Node, NodeAction, NodeEvent, PeerState, RequestOutcome, ServerResponse,
    CHAT_TOPIC,
};

fn addr(text: &str, dialable: &str) -> ListenAddress {
    ListenAddress { text: text.to_string(), dialable: dialable.to_string() }
}

fn subscribe(peer: &str, now: u128) -> NodeEvent {
    NodeEvent::PeerSubscribed { peer: peer.to_string(), topic: CHAT_TOPIC.to_string(), now }
}

#[test]
fn first_public_address_wins() {
    let mut node = Node::new(4);
    node.handle(NodeEvent::NewListenAddress(addr("/ip6/::1/udp/1/quic-v1", "local")));
    assert_eq!(node.address(), None);
    node.handle(NodeEvent::NewListenAddress(addr("/ip4/10.0.0.2/udp/1/quic-v1", "first")));
    node.handle(NodeEvent::NewListenAddress(addr("/ip4/10.0.0.3/udp/1/quic-v1", "second")));
    node.handle(NodeEvent::NewListenAddress(addr("/ip4/10.0.0.4/udp/1/quic-v1", "third")));
    assert_eq!(node.address(), Some("first".to_string()));
}

#[test]
fn loopback_address_never_stored() {
    let mut node = Node::new(4);
    for text in ["/ip6/::/udp/1", "/ip6/::1/udp/1", "/ip6/fe80::1/udp/1"] {
        let acts = node.handle(NodeEvent::NewListenAddress(addr(text, "dial")));
        assert!(acts.is_empty());
    }
    assert_eq!(node.address(), None);
}

#[test]
fn ipv4_loopback_never_stored() {
    let mut node = Node::new(4);
    node.handle(NodeEvent::NewListenAddress(addr("/ip4/127.0.0.1/udp/7/quic-v1", "loop")));
    assert_eq!(node.address(), None);
    node.handle(NodeEvent::NewListenAddress(addr("/ip4/10.0.0.2/udp/7/quic-v1", "lan")));
    assert_eq!(node.address(), Some("lan".to_string()));
}

#[test]
fn mapped_loopback_and_wide_link_local_never_stored() {
    let mut node = Node::new(4);
    node.handle(NodeEvent::NewListenAddress(addr("/ip6/::ffff:127.0.0.1/udp/1/quic-v1", "mapped")));
    node.handle(NodeEvent::NewListenAddress(addr("/ip6/fe9c::1/udp/1/quic-v1", "link")));
    node.handle(NodeEvent::NewListenAddress(addr("/ip6/febf::7/udp/1/quic-v1", "link2")));
    assert_eq!(node.address(), None);
    node.handle(NodeEvent::NewListenAddress(addr("/ip6/::ffff:8.8.8.8/udp/1/quic-v1", "public")));
    assert_eq!(node.address(), Some("public".to_string()));
}

#[test]
fn public_ipv6_with_elided_group_is_stored() {
    let mut node = Node::new(4);
    node.handle(NodeEvent::NewListenAddress(addr("/ip6/fe80::1/udp/7/quic-v1", "link")));
    node.handle(NodeEvent::NewListenAddress(addr("/ip6/2001:db8::1/udp/7/quic-v1", "v6")));
    assert_eq!(node.address(), Some("v6".to_string()));
}

#[test]
fn unbound_node_gives_up_waiting_requests() {
    let mut node = Node::new(4);
    node.request(3);
    node.request(4);
    assert_eq!(node.abandon_if_unbound(), vec![3, 4]);
    assert_eq!(node.pending_requests(), 0);
}

#[test]
fn bound_node_keeps_serving_after_listener_closes() {
    let mut node = Node::new(4);
    node.handle(NodeEvent::NewListenAddress(addr("/ip4/1.2.3.4/udp/9", "addr1")));
    assert!(node.abandon_if_unbound().is_empty());
    assert_eq!(node.request(1), RequestOutcome::Answered("addr1".to_string()));
}

#[test]
fn admission_only_on_chat_subscription_of_established_peer() {
    let mut node = Node::new(4);
    // Not yet connected: no admission.
    assert!(node.handle(subscribe("A", 5)).is_empty());
    node.handle(NodeEvent::ConnectionEstablished("A".to_string()));
    assert_eq!(node.peer_state(&"A".to_string()), Some(PeerState::Established));
    // Another topic: no admission.
    let other = NodeEvent::PeerSubscribed { peer: "A".to_string(), topic: "news".to_string(), now: 6 };
    assert!(node.handle(other).is_empty());
    let acts = node.handle(subscribe("A", 7));
    assert_eq!(
        acts,
        vec![
            NodeAction::AddExplicitPeer("A".to_string()),
            NodeAction::Publish("7 Subscriber A".to_string()),
        ]
    );
    assert_eq!(node.peer_state(&"A".to_string()), Some(PeerState::SubscribedToMesh));
}

#[test]
fn no_double_admission() {
    let mut node = Node::new(4);
    node.handle(NodeEvent::ConnectionEstablished("A".to_string()));
    let first = node.handle(subscribe("A", 10));
    assert_eq!(first.len(), 2);
    // A second subscription, or a second connection, in the same lifetime admits nothing.
    assert!(node.handle(subscribe("A", 11)).is_empty());
    node.handle(NodeEvent::ConnectionEstablished("A".to_string()));
    assert!(node.handle(subscribe("A", 12)).is_empty());
    // After the connection closes, a new lifetime admits again, once.
    node.handle(NodeEvent::ConnectionClosed("A".to_string()));
    node.handle(NodeEvent::ConnectionEstablished("A".to_string()));
    let again = node.handle(subscribe("A", 13));
    assert_eq!(again[0], NodeAction::AddExplicitPeer("A".to_string()));
    assert!(node.handle(subscribe("A", 14)).is_empty());
}

#[test]
fn eviction_on_close() {
    let mut node = Node::new(4);
    node.handle(NodeEvent::ConnectionEstablished("A".to_string()));
    node.handle(subscribe("A", 1));
    let acts = node.handle(NodeEvent::ConnectionClosed("A".to_string()));
    assert_eq!(acts, vec![NodeAction::RemoveExplicitPeer("A".to_string())]);
    assert_eq!(node.peer_state(&"A".to_string()), None);
}

#[test]
fn explicit_set_kept_in_lockstep() {
    let mut node = Node::new(4);
    let mut pinned: Vec<String> = Vec::new();
    let events = vec![
        NodeEvent::ConnectionEstablished("A".to_string()),
        NodeEvent::ConnectionEstablished("B".to_string()),
        subscribe("A", 1),
        subscribe("B", 2),
        NodeEvent::ConnectionClosed("A".to_string()),
        subscribe("A", 3),
    ];
    for e in events {
        for a in node.handle(e) {
            match a {
                NodeAction::AddExplicitPeer(p) => pinned.push(p),
                NodeAction::RemoveExplicitPeer(p) => pinned.retain(|q| *q != p),
                _ => {}
            }
        }
    }
    assert_eq!(pinned, vec!["B".to_string()]);
    assert_eq!(node.peer_state(&"A".to_string()), None);
    assert_eq!(node.peer_state(&"B".to_string()), Some(PeerState::SubscribedToMesh));
}

#[test]
fn dialing_then_established() {
    let mut node = Node::new(4);
    node.handle(NodeEvent::Dialing("C".to_string()));
    assert_eq!(node.peer_state(&"C".to_string()), Some(PeerState::Connecting));
    node.handle(NodeEvent::ConnectionEstablished("C".to_string()));
    assert_eq!(node.peer_state(&"C".to_string()), Some(PeerState::Established));
}

#[test]
fn publish_failure_does_not_stop_later_events() {
    let mut node = Node::new(4);
    node.handle(NodeEvent::ConnectionEstablished("A".to_string()));
    let acts = node.handle(subscribe("A", 1));
    assert_eq!(acts.len(), 2);
    // Publishing the reply to A failed.
    assert!(node.handle(NodeEvent::PublishFailed).is_empty());
    node.handle(NodeEvent::ConnectionEstablished("B".to_string()));
    assert_eq!(node.peer_state(&"B".to_string()), Some(PeerState::Established));
    assert_eq!(node.peer_state(&"A".to_string()), Some(PeerState::SubscribedToMesh));
}

#[test]
fn log_only_events_change_nothing() {
    let mut node = Node::new(4);
    node.handle(NodeEvent::ConnectionEstablished("A".to_string()));
    for e in [
        NodeEvent::IncomingConnection,
        NodeEvent::Pinged("A".to_string()),
        NodeEvent::PingFailed("A".to_string()),
        NodeEvent::OutgoingConnectionError,
        NodeEvent::ListenerClosed,
        NodeEvent::Other,
    ] {
        assert!(node.handle(e).is_empty());
    }
    assert_eq!(node.peer_state(&"A".to_string()), Some(PeerState::Established));
}

#[test]
fn message_received_is_shown_lossily() {
    let mut node = Node::new(4);
    let acts = node.handle(NodeEvent::MessageReceived {
        peer: "A".to_string(),
        data: vec![b'h', b'i', 0xff],
    });
    assert_eq!(
        acts,
        vec![NodeAction::ShowMessage { peer: "A".to_string(), text: "hi\u{FFFD}".to_string() }]
    );
}

#[test]
fn pong_publishes_with_increasing_stamps() {
    let mut node = Node::new(4);
    let a = node.handle(NodeEvent::Ponged { peer: "P".to_string(), now: 100 });
    assert_eq!(a, vec![NodeAction::Publish("100 Subscriber P".to_string())]);
    // The clock did not move: the stamp still increases.
    let b = node.handle(NodeEvent::Ponged { peer: "P".to_string(), now: 100 });
    assert_eq!(b, vec![NodeAction::Publish("101 Subscriber P".to_string())]);
    let c = node.handle(NodeEvent::Ponged { peer: "P".to_string(), now: 50 });
    assert_eq!(c, vec![NodeAction::Publish("102 Subscriber P".to_string())]);
    let d = node.handle(NodeEvent::Ponged { peer: "P".to_string(), now: 500 });
    assert_eq!(d, vec![NodeAction::Publish("500 Subscriber P".to_string())]);
}

#[test]
fn stamp_saturates_at_largest_value() {
    let mut node = Node::new(4);
    node.handle(NodeEvent::Ponged { peer: "P".to_string(), now: u128::MAX });
    let b = node.handle(NodeEvent::Ponged { peer: "P".to_string(), now: 0 });
    assert_eq!(b, vec![NodeAction::Publish(format!("{} Subscriber P", u128::MAX))]);
}

#[test]
fn request_before_address_is_answered_on_discovery() {
    let mut node = Node::new(4);
    assert_eq!(node.request(1), RequestOutcome::Queued);
    assert_eq!(node.pending_requests(), 1);
    let acts = node.handle(NodeEvent::NewListenAddress(addr("/ip4/1.2.3.4/udp/9", "addr1")));
    assert_eq!(
        acts,
        vec![NodeAction::Reply { request: 1, address: "addr1".to_string() }]
    );
    assert_eq!(node.pending_requests(), 0);
}

#[test]
fn request_after_address_is_answered_at_once() {
    let mut node = Node::new(4);
    node.handle(NodeEvent::NewListenAddress(addr("/ip4/1.2.3.4/udp/9", "addr1")));
    assert_eq!(node.request(5), RequestOutcome::Answered("addr1".to_string()));
    assert_eq!(node.pending_requests(), 0);
}

#[test]
fn thousand_requests_after_address_agree() {
    let mut node = Node::new(1);
    node.handle(NodeEvent::NewListenAddress(addr("/ip4/1.2.3.4/udp/9", "addr1")));
    for id in 0..1000u64 {
        assert_eq!(node.request(id), RequestOutcome::Answered("addr1".to_string()));
    }
}

#[test]
fn waiting_requests_answered_in_arrival_order() {
    let mut node = Node::new(3);
    node.request(30);
    node.request(10);
    node.request(20);
    let acts = node.handle(NodeEvent::NewListenAddress(addr("/ip4/1.2.3.4/udp/9", "x")));
    let ids: Vec<u64> = acts
        .iter()
        .map(|a| match a {
            NodeAction::Reply { request, .. } => *request,
            _ => panic!("only replies expected"),
        })
        .collect();
    assert_eq!(ids, vec![30, 10, 20]);
}

#[test]
fn full_queue_signals_backpressure() {
    let mut node = Node::new(1);
    assert_eq!(node.request(1), RequestOutcome::Queued);
    assert_eq!(node.request(2), RequestOutcome::Backpressure);
    assert_eq!(node.pending_requests(), 1);
}

#[test]
fn abandoned_requests_handed_back() {
    let mut node = Node::new(4);
    node.request(8);
    node.request(9);
    assert_eq!(node.abandon_requests(), vec![8, 9]);
    assert_eq!(node.pending_requests(), 0);
    let acts = node.handle(NodeEvent::NewListenAddress(addr("/ip4/1.2.3.4/udp/9", "x")));
    assert!(acts.is_empty());
}

#[test]
fn response_holds_address_bytes() {
    let r = ServerResponse::new("/ip4/1.2.3.4/p2p/Qm");
    assert_eq!(r.address, b"/ip4/1.2.3.4/p2p/Qm".to_vec());
    let u = ServerResponse::new("é");
    assert_eq!(u.address, vec![0xc3, 0xa9]);
}
