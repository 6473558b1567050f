use somasync::peer::{DiscoveryConfig, DiscoveryMethod, Peer, PeerManager, PeerState};
use somasync::SocketAddress;

fn addr(port: u16) -> SocketAddress {
    SocketAddress::v4(127, 0, 0, 1, port)
}

#[test]
fn test_peer_creation() {
    let a = addr(8080);
    let peer = Peer::new("test-peer".to_string(), a);

    assert_eq!(peer.id, "test-peer");
    assert_eq!(peer.address, a);
    assert_eq!(peer.state, PeerState::Disconnected);
    assert_eq!(peer.trust_score, 50);
}

#[test]
fn test_peer_health() {
    let mut peer = Peer::new("test-peer".to_string(), addr(8080));

    assert!(!peer.is_healthy());

    peer.mark_healthy();
    assert!(peer.is_healthy());
    assert_eq!(peer.state, PeerState::Connected);

    peer.mark_unhealthy();
    assert!(!peer.is_healthy());
}

#[test]
fn test_peer_quality_score() {
    let mut peer = Peer::new("test-peer".to_string(), addr(8080));

    let initial_score = peer.quality_score();

    peer.update_metrics(20, 1000000);
    let good_score = peer.quality_score();
    assert!(good_score >= initial_score);

    peer.mark_failed();
    let bad_score = peer.quality_score();
    assert!(bad_score < good_score);
}

#[test]
fn test_peer_manager() {
    let config = DiscoveryConfig::default();
    let mut manager = PeerManager::new("test-node".to_string(), config);

    let peer = Peer::new("test-peer".to_string(), addr(8080));

    assert!(manager.add_peer(peer).is_ok());

    let retrieved = manager.get_peer(&"test-peer".to_string());
    assert!(retrieved.is_some());
    assert_eq!(retrieved.unwrap().id, "test-peer");

    let stats = manager.get_stats();
    assert_eq!(stats.total_peers, 1);
}

#[test]
fn test_discovery_config() {
    let config = DiscoveryConfig::default();
    assert!(config.methods.contains(&DiscoveryMethod::Bootstrap));
    assert!(config.methods.contains(&DiscoveryMethod::Gossip));
    assert_eq!(config.max_peers, 50);
    assert_eq!(config.min_peers, 3);
}

#[test]
fn quality_score_formula() {
    let mut peer = Peer::new("p".to_string(), addr(1));
    assert_eq!(peer.quality_score(), 50);
    peer.update_metrics(20, 0);
    assert_eq!(peer.quality_score(), 60);
    peer.update_metrics(600, 0);
    assert_eq!(peer.quality_score(), 30);
    peer.trust_score = 200;
    peer.update_metrics(100, 0);
    assert_eq!(peer.quality_score(), 100);
    peer.failure_count = 3;
    assert_eq!(peer.quality_score(), 100);
    peer.trust_score = 50;
    assert_eq!(peer.quality_score(), 35);
}

#[test]
fn trust_moves_with_health() {
    let mut peer = Peer::new("p".to_string(), addr(1));
    peer.mark_healthy();
    assert_eq!(peer.trust_score, 51);
    peer.mark_unhealthy();
    assert_eq!((peer.trust_score, peer.failure_count, peer.state), (46, 1, PeerState::Unhealthy));
    peer.mark_failed();
    assert_eq!((peer.trust_score, peer.failure_count, peer.state), (36, 2, PeerState::Failed));
    peer.trust_score = 100;
    peer.mark_healthy();
    assert_eq!(peer.trust_score, 100);
}

#[test]
fn staleness_at_given_times() {
    let mut peer = Peer::new("p".to_string(), addr(1));
    peer.last_seen = 1_000;
    assert!(!peer.is_stale_at(60, 1_060));
    assert!(peer.is_stale_at(60, 1_061));
    assert!(!peer.is_stale_at(60, 10));
    assert_eq!(peer.uptime_estimate_at(1_500), 500);
    assert_eq!(peer.uptime_estimate_at(500), 0);
}

#[test]
fn manager_ignores_its_own_id() {
    let mut manager = PeerManager::new("me".to_string(), DiscoveryConfig::default());
    manager.add_peer(Peer::new("me".to_string(), addr(1))).unwrap();
    assert_eq!(manager.peer_count(), 0);
}

#[test]
fn manager_evicts_the_worst_peer_at_capacity() {
    let mut config = DiscoveryConfig::default();
    config.max_peers = 2;
    let mut manager = PeerManager::new("me".to_string(), config);
    let mut good = Peer::new("good".to_string(), addr(1));
    good.trust_score = 90;
    let mut bad = Peer::new("bad".to_string(), addr(2));
    bad.trust_score = 10;
    manager.add_peer(good).unwrap();
    manager.add_peer(bad).unwrap();
    manager.add_peer(Peer::new("new".to_string(), addr(3))).unwrap();
    assert_eq!(manager.peer_count(), 2);
    assert!(manager.get_peer(&"bad".to_string()).is_none());
    assert!(manager.get_peer(&"good".to_string()).is_some());
    assert!(manager.get_peer(&"new".to_string()).is_some());
}

#[test]
fn manager_replaces_a_peer_with_the_same_id() {
    let mut manager = PeerManager::new("me".to_string(), DiscoveryConfig::default());
    manager.add_peer(Peer::new("p".to_string(), addr(1))).unwrap();
    manager.add_peer(Peer::new("p".to_string(), addr(2))).unwrap();
    assert_eq!(manager.peer_count(), 1);
    assert_eq!(manager.get_peer(&"p".to_string()).unwrap().address, addr(2));
}

#[test]
fn best_peers_come_best_first() {
    let mut manager = PeerManager::new("me".to_string(), DiscoveryConfig::default());
    for (id, trust) in [("a", 20u8), ("b", 80), ("c", 50), ("d", 70)] {
        let mut p = Peer::new(id.to_string(), addr(1));
        p.trust_score = trust;
        p.mark_healthy();
        manager.add_peer(p).unwrap();
    }
    let best = manager.get_best_peers(2);
    let ids: Vec<&str> = best.iter().map(|p| p.id.as_str()).collect();
    assert_eq!(ids, vec!["b", "d"]);
    assert_eq!(manager.get_best_peers(10).len(), 4);
    let random = manager.get_random_peers(3);
    assert_eq!(random.len(), 3);
    let mut ids: Vec<String> = random.iter().map(|p| p.id.clone()).collect();
    ids.sort();
    ids.dedup();
    assert_eq!(ids.len(), 3);
}

#[test]
fn cleanup_drops_stale_and_failing_peers() {
    let mut manager = PeerManager::new("me".to_string(), DiscoveryConfig::default());
    let mut old = Peer::new("old".to_string(), addr(1));
    old.last_seen = 0;
    let mut failing = Peer::new("failing".to_string(), addr(2));
    failing.last_seen = 10_000;
    failing.state = PeerState::Failed;
    failing.failure_count = 6;
    let mut fine = Peer::new("fine".to_string(), addr(3));
    fine.last_seen = 10_000;
    manager.add_peer(old).unwrap();
    manager.add_peer(failing).unwrap();
    manager.add_peer(fine).unwrap();
    manager.cleanup_stale_peers_at(10_000);
    assert_eq!(manager.peer_count(), 1);
    assert!(manager.get_peer(&"fine".to_string()).is_some());
}

#[test]
fn bootstrap_discovery_adds_the_bootstrap_peers() {
    let mut config = DiscoveryConfig::default();
    config.bootstrap_peers.push(SocketAddress::v4(192, 168, 1, 1, 8080));
    let mut manager = PeerManager::new("me".to_string(), config);
    manager.start_discovery().unwrap();
    let p = manager.get_peer(&"bootstrap-192.168.1.1:8080".to_string()).unwrap();
    assert!(p.supports_protocol(&"bootstrap".to_string()));
    assert_eq!(p.state, PeerState::Disconnected);
}

#[test]
fn peer_statistics() {
    let mut manager = PeerManager::new("me".to_string(), DiscoveryConfig::default());
    let mut a = Peer::new("a".to_string(), addr(1));
    a.mark_healthy();
    a.update_metrics(10, 0);
    let mut b = Peer::new("b".to_string(), addr(2));
    b.state = PeerState::Connecting;
    b.update_metrics(30, 0);
    let mut c = Peer::new("c".to_string(), addr(3));
    c.state = PeerState::Failed;
    manager.add_peer(a).unwrap();
    manager.add_peer(b).unwrap();
    manager.add_peer(c).unwrap();
    let st = manager.get_stats();
    assert_eq!(st.total_peers, 3);
    assert_eq!(st.healthy_peers, 1);
    assert_eq!(st.connecting_peers, 1);
    assert_eq!(st.failed_peers, 1);
    assert_eq!(st.avg_trust_score, 50);
    assert_eq!(st.avg_latency_ms, Some(20));
    assert!(!manager.needs_more_peers());
}
