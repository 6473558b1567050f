use somasync::message::MessageType;
use somasync::node::SynapseEvent;
use somasync::{Peer, SocketAddress, SynapseNodeBuilder, SynapseError};

#[test]
fn test_node_creation() {
    let node = SynapseNodeBuilder::new().with_node_id("test-node".to_string()).build();

    assert_eq!(node.node_id(), "test-node");
    assert_eq!(node.config().bind_address, SocketAddress::v4(127, 0, 0, 1, 0));
}

#[test]
fn test_node_builder() {
    let addr = SocketAddress::v4(192, 168, 1, 100, 8080);
    let bootstrap_addr = SocketAddress::v4(192, 168, 1, 1, 8080);

    let node = SynapseNodeBuilder::new()
        .with_node_id("builder-test".to_string())
        .with_bind_address(addr)
        .add_bootstrap_peer(bootstrap_addr)
        .with_auto_discovery(false)
        .build();

    assert_eq!(node.node_id(), "builder-test");
    assert_eq!(node.config().bind_address, addr);
    assert!(!node.config().auto_discovery);
    assert!(node.config().discovery.bootstrap_peers.contains(&bootstrap_addr));
}

#[test]
fn test_node_stats() {
    let node = SynapseNodeBuilder::new().with_node_id("stats-test".to_string()).build();

    let stats = node.get_stats();
    assert_eq!(stats.node_id, "stats-test");
    assert_eq!(stats.messages_processed, 0);
    assert_eq!(stats.messages_sent, 0);
}

#[test]
fn test_add_peer() {
    let mut node = SynapseNodeBuilder::new().with_node_id("peer-test".to_string()).build();

    let mut peer = Peer::new("test-peer".to_string(), SocketAddress::v4(127, 0, 0, 1, 9090));
    peer.mark_healthy();

    assert!(node.add_peer(peer).is_ok());

    let peers = node.get_healthy_peers();
    assert_eq!(peers.len(), 1);
    assert_eq!(peers[0].id, "test-peer");
}

#[test]
fn unnamed_node_gets_a_uuid() {
    let node = SynapseNodeBuilder::new().build();
    let id = node.node_id();
    assert_eq!(id.len(), 36);
    assert_eq!(id.as_bytes()[14], b'4');
    assert_eq!(id.matches('-').count(), 4);
}

#[test]
fn start_bootstraps_and_emits_the_start_event() {
    let mut node = SynapseNodeBuilder::new()
        .with_node_id("starter".to_string())
        .add_bootstrap_peer(SocketAddress::v4(10, 1, 2, 3, 4000))
        .build();
    match node.start().unwrap() {
        SynapseEvent::NodeStarted { node_id, address } => {
            assert_eq!(node_id, "starter");
            assert_eq!(address, SocketAddress::v4(127, 0, 0, 1, 0));
        }
        other => panic!("unexpected {:?}", other),
    }
    assert_eq!(node.get_stats().peer_stats.total_peers, 1);
    assert_eq!(node.get_stats().gossip_stats.total_peers, 0);
}

#[test]
fn sending_counts_and_reports() {
    let mut node = SynapseNodeBuilder::new().with_node_id("s".to_string()).build();
    let (out, event) = node.send_message(&"t".to_string(), MessageType::Data("x".to_string())).unwrap();
    assert!(out.is_empty());
    match event {
        SynapseEvent::MessageSent { to, .. } => assert_eq!(to, "t"),
        other => panic!("unexpected {:?}", other),
    }
    node.broadcast_message(MessageType::Data("y".to_string())).unwrap();
    assert_eq!(node.get_stats().messages_sent, 2);
}

#[test]
fn routing_without_a_route_fails_and_is_not_counted() {
    let mut node = SynapseNodeBuilder::new().with_node_id("r".to_string()).with_auto_discovery(false).build();
    node.start().unwrap();
    let (res, _out) = node.route_message(&"nowhere".to_string(), MessageType::Data("x".to_string()));
    assert!(matches!(res, Err(SynapseError::Network { .. })));
    assert_eq!(node.get_stats().messages_sent, 0);
}

#[test]
fn incoming_messages_are_counted_and_reported() {
    let mut node = SynapseNodeBuilder::new().with_node_id("in".to_string()).build();
    let msg = somasync::Message::new(MessageType::Data("hi".to_string()), "far".to_string());
    let id = msg.id;
    let (event, delivered) = node.handle_incoming_message(&"far".to_string(), msg).unwrap();
    assert_eq!(delivered.id, id);
    match event {
        SynapseEvent::MessageReceived { from, message } => {
            assert_eq!(from, "far");
            assert_eq!(message.id, id);
        }
        other => panic!("unexpected {:?}", other),
    }
    assert_eq!(node.get_stats().messages_processed, 1);
}

#[test]
fn removing_a_peer_reports_manual_removal() {
    let mut node = SynapseNodeBuilder::new().with_node_id("rm".to_string()).build();
    node.add_peer(Peer::new("p".to_string(), SocketAddress::v4(1, 2, 3, 4, 5))).unwrap();
    match node.remove_peer(&"p".to_string()).unwrap() {
        SynapseEvent::PeerDisconnected { peer_id, reason } => {
            assert_eq!(peer_id, "p");
            assert_eq!(reason, "Manual removal");
        }
        other => panic!("unexpected {:?}", other),
    }
    assert_eq!(node.get_stats().peer_stats.total_peers, 0);
}
