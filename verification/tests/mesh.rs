use somasync::collections::StringSet;
use somasync::mesh::{MeshConfig, MeshMessage, MeshNetwork, NodeInfo, Route};
use somasync::message::{Message, MessageType};
use somasync::{DiscoveryConfig, Peer, PeerManager, SocketAddress, SynapseError};

fn manager_with(ids: &[&str]) -> PeerManager {
    let mut pm = PeerManager::new("me".to_string(), DiscoveryConfig::default());
    for (i, id) in ids.iter().enumerate() {
        let mut p = Peer::new(id.to_string(), SocketAddress::v4(10, 0, 0, 1, 1000 + i as u16));
        p.mark_healthy();
        pm.add_peer(p).unwrap();
    }
    pm
}

fn info(id: &str) -> NodeInfo {
    NodeInfo {
        id: id.to_string(),
        address: SocketAddress::v4(10, 0, 0, 9, 1),
        capabilities: StringSet::new(),
        load: 1,
        uptime: 2,
        version: None,
    }
}

#[test]
fn test_route_creation() {
    let route = Route::new("dest".to_string(), "next".to_string(), 3, 100);

    assert_eq!(route.destination, "dest");
    assert_eq!(route.next_hop, "next");
    assert_eq!(route.hop_count, 3);
    assert_eq!(route.cost, 100);
    assert_eq!(route.reliability, 100);
}

#[test]
fn test_route_reliability() {
    let mut route = Route::new("dest".to_string(), "next".to_string(), 1, 10);

    let initial_reliability = route.reliability;

    route.mark_failed();
    let failed_reliability = route.reliability;
    assert!(failed_reliability < initial_reliability);

    route.mark_successful();
    let success_reliability = route.reliability;
    assert!(success_reliability > failed_reliability);
}

#[test]
fn test_mesh_creation() {
    let config = MeshConfig::default();
    let peer_manager = PeerManager::new("test".to_string(), DiscoveryConfig::default());

    let mesh = MeshNetwork::new("test-node".to_string(), config);

    let stats = mesh.get_stats(&peer_manager);
    assert_eq!(stats.routes_cached, 0);
    assert_eq!(stats.healthy_connections, 0);
}

#[test]
fn test_mesh_config() {
    let config = MeshConfig::default();
    assert_eq!(config.max_connections, 10);
    assert_eq!(config.min_connections, 3);
    assert_eq!(config.max_route_hops, 8);
}

#[test]
fn route_reliability_is_capped_and_floored() {
    let mut route = Route::new_at("d".to_string(), "n".to_string(), 1, 1, 0);
    route.mark_successful();
    assert_eq!(route.reliability, 100);
    route.reliability = 5;
    route.mark_failed();
    assert_eq!(route.reliability, 0);
    route.reliability = 99;
    route.mark_successful();
    assert_eq!(route.reliability, 100);
}

#[test]
fn route_expiry_at_given_times() {
    let route = Route::new_at("d".to_string(), "n".to_string(), 1, 1, 1_000);
    assert!(!route.is_expired_at(300, 1_300));
    assert!(route.is_expired_at(300, 1_301));
    assert!(!route.is_expired_at(300, 500));
}

#[test]
fn discovery_that_visited_us_is_dropped() {
    let mut mesh = MeshNetwork::new_at("me".to_string(), MeshConfig::default(), 0);
    let mut pm = manager_with(&["a", "b"]);
    let msg = MeshMessage::RouteDiscovery {
        target: "far".to_string(),
        origin: "o".to_string(),
        trace: vec!["o".to_string(), "me".to_string()],
        timestamp: 1,
    };
    let out = mesh.handle_mesh_message_at(&mut pm, &"a".to_string(), msg, 10).unwrap();
    assert!(out.is_empty());
}

#[test]
fn discovery_is_passed_on_with_our_id_in_the_trace() {
    let mut mesh = MeshNetwork::new_at("me".to_string(), MeshConfig::default(), 0);
    let mut pm = manager_with(&["a", "b"]);
    let msg = MeshMessage::RouteDiscovery {
        target: "far".to_string(),
        origin: "o".to_string(),
        trace: vec!["o".to_string()],
        timestamp: 1,
    };
    let out = mesh.handle_mesh_message_at(&mut pm, &"a".to_string(), msg, 10).unwrap();
    assert_eq!(out.len(), 2);
    for (to, m) in &out {
        assert!(to == "a" || to == "b");
        match m {
            MeshMessage::RouteDiscovery { trace, .. } => assert_eq!(trace, &vec!["o".to_string(), "me".to_string()]),
            other => panic!("unexpected {:?}", other),
        }
    }
}

#[test]
fn discovery_for_us_is_answered_to_the_origin() {
    let mut mesh = MeshNetwork::new_at("me".to_string(), MeshConfig::default(), 0);
    let mut pm = manager_with(&[]);
    let msg = MeshMessage::RouteDiscovery {
        target: "me".to_string(),
        origin: "o".to_string(),
        trace: vec!["o".to_string(), "x".to_string()],
        timestamp: 7,
    };
    let out = mesh.handle_mesh_message_at(&mut pm, &"x".to_string(), msg, 10).unwrap();
    assert_eq!(out.len(), 1);
    assert_eq!(out[0].0, "o");
    match &out[0].1 {
        MeshMessage::RouteResponse { route, cost, timestamp, .. } => {
            assert_eq!(route.len(), 3);
            assert_eq!(*cost, 3);
            assert_eq!(*timestamp, 7);
        }
        other => panic!("unexpected {:?}", other),
    }
}

#[test]
fn route_response_installs_a_route() {
    let mut mesh = MeshNetwork::new_at("me".to_string(), MeshConfig::default(), 0);
    let mut pm = manager_with(&[]);
    let out = mesh.discover_route_at(&pm, &"far".to_string(), 5);
    assert!(out.is_empty());
    let msg = MeshMessage::RouteResponse {
        target: "far".to_string(),
        origin: "me".to_string(),
        route: vec!["me".to_string(), "hop".to_string(), "far".to_string()],
        cost: 3,
        timestamp: 5,
    };
    mesh.handle_mesh_message_at(&mut pm, &"hop".to_string(), msg, 20).unwrap();
    assert_eq!(mesh.get_stats(&pm).routes_cached, 1);
    let (r, out) = mesh.route_message_at(&mut pm, &"far".to_string(), Message::new(MessageType::Data("d".to_string()), "me".to_string()), 30);
    assert!(r.is_ok());
    assert!(out.is_empty());
}

#[test]
fn unknown_destination_starts_a_discovery() {
    let mut mesh = MeshNetwork::new_at("me".to_string(), MeshConfig::default(), 0);
    let mut pm = manager_with(&["a"]);
    let msg = Message::new(MessageType::Data("d".to_string()), "me".to_string());
    let (r, out) = mesh.route_message_at(&mut pm, &"far".to_string(), msg, 30);
    match r {
        Err(SynapseError::Network { message, endpoint }) => {
            assert_eq!(message, "Route discovery in progress");
            assert_eq!(endpoint, "far");
        }
        other => panic!("unexpected {:?}", other),
    }
    assert_eq!(out.len(), 1);
    let msg = Message::new(MessageType::Data("d".to_string()), "me".to_string());
    let (_, again) = mesh.route_message_at(&mut pm, &"far".to_string(), msg, 31);
    assert!(again.is_empty());
}

#[test]
fn direct_peer_is_used_and_marked_seen() {
    let mut mesh = MeshNetwork::new_at("me".to_string(), MeshConfig::default(), 0);
    let mut pm = manager_with(&["a"]);
    let msg = Message::new(MessageType::Data("d".to_string()), "me".to_string());
    let (r, out) = mesh.route_message_at(&mut pm, &"a".to_string(), msg, 777);
    assert!(r.is_ok());
    assert!(out.is_empty());
    assert_eq!(pm.get_peer(&"a".to_string()).unwrap().last_seen, 777);
}

#[test]
fn topology_updates_only_move_forward() {
    let mut mesh = MeshNetwork::new_at("me".to_string(), MeshConfig::default(), 0);
    let mut pm = manager_with(&[]);
    let up = |v: u64| MeshMessage::TopologyUpdate {
        node_id: "n".to_string(),
        connections: StringSet::new(),
        node_info: info("n"),
        version: v,
    };
    mesh.handle_mesh_message_at(&mut pm, &"n".to_string(), up(3), 1).unwrap();
    assert_eq!(mesh.get_stats(&pm).topology_version, 3);
    mesh.handle_mesh_message_at(&mut pm, &"n".to_string(), up(2), 2).unwrap();
    assert_eq!(mesh.get_stats(&pm).topology_version, 3);
    assert_eq!(mesh.get_stats(&pm).known_nodes, 1);
}

#[test]
fn ping_is_answered_and_pong_records_latency() {
    let mut mesh = MeshNetwork::new_at("me".to_string(), MeshConfig::default(), 0);
    let mut pm = manager_with(&["a"]);
    let out = mesh
        .handle_mesh_message_at(&mut pm, &"a".to_string(), MeshMessage::HealthPing { node_id: "a".to_string(), timestamp: 5, sequence: 9 }, 6)
        .unwrap();
    assert_eq!(out.len(), 1);
    match &out[0].1 {
        MeshMessage::HealthPong { node_id, timestamp, sequence, original_timestamp } => {
            assert_eq!(node_id, "me");
            assert_eq!((*timestamp, *sequence, *original_timestamp), (6, 9, 5));
        }
        other => panic!("unexpected {:?}", other),
    }
    let pong = MeshMessage::HealthPong { node_id: "a".to_string(), timestamp: 6, sequence: 9, original_timestamp: 100 };
    mesh.handle_mesh_message_at(&mut pm, &"a".to_string(), pong, 102).unwrap();
    assert_eq!(pm.get_peer(&"a".to_string()).unwrap().latency_ms, Some(2000));
}

#[test]
fn partition_drops_routes_and_disconnects_peers() {
    let mut mesh = MeshNetwork::new_at("me".to_string(), MeshConfig::default(), 0);
    let mut pm = manager_with(&["a", "b"]);
    let response = MeshMessage::RouteResponse {
        target: "far".to_string(),
        origin: "me".to_string(),
        route: vec!["me".to_string(), "a".to_string(), "far".to_string()],
        cost: 2,
        timestamp: 0,
    };
    mesh.handle_mesh_message_at(&mut pm, &"a".to_string(), response, 1).unwrap();
    let mut affected = StringSet::new();
    affected.insert("far".to_string());
    affected.insert("a".to_string());
    let msg = MeshMessage::PartitionDetected { partition_id: "p".to_string(), affected_nodes: affected, timestamp: 2 };
    mesh.handle_mesh_message_at(&mut pm, &"b".to_string(), msg, 3).unwrap();
    assert_eq!(mesh.get_stats(&pm).routes_cached, 0);
    assert_eq!(mesh.get_stats(&pm).healthy_connections, 1);
}

#[test]
fn expired_routes_are_cleaned_up() {
    let mut mesh = MeshNetwork::new_at("me".to_string(), MeshConfig::default(), 0);
    let mut pm = manager_with(&[]);
    let response = MeshMessage::RouteResponse {
        target: "far".to_string(),
        origin: "me".to_string(),
        route: vec!["me".to_string(), "a".to_string()],
        cost: 1,
        timestamp: 0,
    };
    mesh.handle_mesh_message_at(&mut pm, &"a".to_string(), response, 100).unwrap();
    mesh.route_cleanup_at(400);
    assert_eq!(mesh.get_stats(&pm).routes_cached, 1);
    mesh.route_cleanup_at(401);
    assert_eq!(mesh.get_stats(&pm).routes_cached, 0);
}

#[test]
fn health_round_counts_up() {
    let mut mesh = MeshNetwork::new_at("me".to_string(), MeshConfig::default(), 0);
    let pm = manager_with(&["a", "b", "c"]);
    let out = mesh.health_ping_round_at(&pm, 50);
    assert_eq!(out.len(), 3);
    let out = mesh.health_ping_round_at(&pm, 60);
    match &out[0].1 {
        MeshMessage::HealthPing { sequence, timestamp, .. } => assert_eq!((*sequence, *timestamp), (2, 60)),
        other => panic!("unexpected {:?}", other),
    }
    assert!(!mesh.partition_suspected(&pm));
    let lonely = manager_with(&["a"]);
    assert!(mesh.partition_suspected(&lonely));
}

#[test]
fn topology_round_announces_healthy_peers() {
    let mesh = MeshNetwork::new_at("me".to_string(), MeshConfig::default(), 0);
    let pm = manager_with(&["a", "b"]);
    let out = mesh.topology_round(&pm);
    assert_eq!(out.len(), 2);
    match &out[0].1 {
        MeshMessage::TopologyUpdate { node_id, connections, node_info, version } => {
            assert_eq!(node_id, "me");
            assert_eq!(connections.len(), 2);
            assert_eq!(*version, 1);
            assert_eq!(node_info.version, Some("1.0.0".to_string()));
            assert_eq!(node_info.address, SocketAddress::v4(127, 0, 0, 1, 0));
        }
        other => panic!("unexpected {:?}", other),
    }
}
