use somasync::gossip::cache::MessageCache;
use somasync::gossip::{GossipConfig, GossipMessage, GossipProtocol};
use somasync::message::{Message, MessageEnvelope, MessageType};
use somasync::{Peer, SocketAddress};

fn healthy_peer(id: &str, port: u16) -> Peer {
    let mut p = Peer::new(id.to_string(), SocketAddress::v4(10, 0, 0, 1, port));
    p.mark_healthy();
    p
}

fn data_envelope(source: &str, text: &str, now: u64) -> MessageEnvelope {
    let msg = Message::new(MessageType::Data(text.to_string()), source.to_string());
    let mut env = MessageEnvelope::new(source.to_string(), GossipMessage::Data(Box::new(msg)));
    env.timestamp = now;
    env
}

#[test]
fn test_gossip_config_defaults() {
    let config = GossipConfig::default();
    assert_eq!(config.fanout, 3);
    assert_eq!(config.max_hops, 5);
}

#[test]
fn test_gossip_protocol_creation() {
    let config = GossipConfig::default();
    let protocol = GossipProtocol::new("test-node".to_string(), config);

    let stats = protocol.get_stats();
    assert_eq!(stats.total_peers, 0);
}

#[test]
fn test_message_cache() {
    let mut cache = MessageCache::new(100);

    assert!(!cache.has_seen(12345));
    cache.mark_seen(12345, 1234567890);
    assert!(cache.has_seen(12345));

    let message = Message::new(MessageType::Data("test".to_string()), "test-node".to_string());

    let hash = message.id;
    cache.cache_message(message);

    assert!(cache.get_message(hash).is_some());
    let hashes = cache.known_message_hashes();
    assert!(hashes.contains(&hash));
}

#[test]
fn duplicate_envelope_is_delivered_once() {
    let now = 1_000_000;
    let mut g = GossipProtocol::new("me".to_string(), GossipConfig::default());
    g.add_peer(healthy_peer("a", 1)).unwrap();
    g.add_peer(healthy_peer("b", 2)).unwrap();
    let env = data_envelope("origin", "hello", now);
    let first = g.handle_message_at(env.clone(), now).unwrap();
    assert_eq!(first.delivered.len(), 1);
    let second = g.handle_message_at(env, now + 1).unwrap();
    assert_eq!(second.delivered.len(), 0);
    assert_eq!(second.outbound.len(), 0);
    let stats = g.get_stats();
    assert_eq!(stats.known_messages, 1);
    assert_eq!(stats.cached_messages, 1);
}

#[test]
fn forwarded_envelope_counts_a_hop_and_skips_the_source() {
    let now = 5_000;
    let mut g = GossipProtocol::new("me".to_string(), GossipConfig::default());
    g.add_peer(healthy_peer("origin", 1)).unwrap();
    g.add_peer(healthy_peer("a", 2)).unwrap();
    g.add_peer(healthy_peer("b", 3)).unwrap();
    let env = data_envelope("origin", "x", now);
    let step = g.handle_message_at(env, now).unwrap();
    // half of the fanout of 3, at least one
    assert_eq!(step.outbound.len(), 1);
    let (addr, fwd) = &step.outbound[0];
    assert_eq!(fwd.hop_count, 1);
    assert_ne!(*addr, SocketAddress::v4(10, 0, 0, 1, 1));
}

#[test]
fn expired_and_exhausted_envelopes_are_dropped() {
    let mut g = GossipProtocol::new("me".to_string(), GossipConfig::default());
    g.add_peer(healthy_peer("a", 2)).unwrap();
    let mut old = data_envelope("origin", "old", 100);
    old.envelope_ttl = 10;
    let step = g.handle_message_at(old, 200).unwrap();
    assert_eq!(step.delivered.len(), 0);
    let mut far = data_envelope("origin", "far", 200);
    far.hop_count = 5;
    let step = g.handle_message_at(far, 200).unwrap();
    assert_eq!(step.delivered.len(), 0);
    assert_eq!(g.get_stats().known_messages, 0);
}

#[test]
fn broadcast_reaches_fanout_distinct_peers() {
    let mut g = GossipProtocol::new("me".to_string(), GossipConfig::default());
    for i in 0..6u16 {
        g.add_peer(healthy_peer(&format!("p{}", i), 100 + i)).unwrap();
    }
    g.add_peer(Peer::new("sleepy".to_string(), SocketAddress::v4(10, 0, 0, 2, 9))).unwrap();
    let msg = Message::new(MessageType::Data("b".to_string()), "me".to_string());
    let out = g.gossip_message(msg).unwrap();
    assert_eq!(out.len(), 3);
    let mut ports: Vec<u16> = out.iter().map(|(a, _)| a.port()).collect();
    ports.sort();
    ports.dedup();
    assert_eq!(ports.len(), 3);
    assert!(ports.iter().all(|p| (100..106).contains(p)));
    assert!(out.iter().all(|(_, e)| e.hop_count == 0 && e.source_node == "me"));
}

#[test]
fn heartbeat_refreshes_its_peer() {
    let now = 10_000;
    let mut g = GossipProtocol::new("me".to_string(), GossipConfig::default());
    g.add_peer(Peer::new("a".to_string(), SocketAddress::v4(10, 0, 0, 1, 1))).unwrap();
    let mut env = MessageEnvelope::new(
        "a".to_string(),
        GossipMessage::Heartbeat { node_id: "a".to_string(), timestamp: 9_999 },
    );
    env.timestamp = now;
    g.handle_message_at(env, now).unwrap();
    assert_eq!(g.get_stats().healthy_peers, 1);
    assert_eq!(g.peer_table().at(0).last_seen, 9_999);
}

#[test]
fn sync_request_is_answered_with_missing_messages() {
    let now = 20_000;
    let mut g = GossipProtocol::new("me".to_string(), GossipConfig::default());
    g.add_peer(healthy_peer("asker", 7)).unwrap();
    let env = data_envelope("origin", "one", now);
    g.handle_message_at(env, now).unwrap();
    let mut req = MessageEnvelope::new("asker".to_string(), GossipMessage::SyncRequest { known_hashes: vec![] });
    req.timestamp = now;
    let step = g.handle_message_at(req, now).unwrap();
    assert_eq!(step.outbound.len(), 1);
    assert_eq!(step.outbound[0].0, SocketAddress::v4(10, 0, 0, 1, 7));
    match &step.outbound[0].1.message {
        GossipMessage::SyncResponse { missing_messages } => assert_eq!(missing_messages.len(), 1),
        other => panic!("unexpected reply {:?}", other),
    }
}

#[test]
fn sync_response_is_cached_and_delivered() {
    let now = 30_000;
    let mut g = GossipProtocol::new("me".to_string(), GossipConfig::default());
    let m1 = Message::new(MessageType::Data("1".to_string()), "x".to_string());
    let m2 = Message::new(MessageType::Data("2".to_string()), "x".to_string());
    let mut resp = MessageEnvelope::new(
        "x".to_string(),
        GossipMessage::SyncResponse { missing_messages: vec![m1, m2] },
    );
    resp.timestamp = now;
    let step = g.handle_message_at(resp, now).unwrap();
    assert_eq!(step.delivered.len(), 2);
    assert_eq!(g.get_stats().cached_messages, 2);
}

#[test]
fn seen_records_evict_the_oldest_quarter_when_full() {
    let now = 1_000_000;
    let mut cache = MessageCache::new(4);
    cache.mark_seen_at(1, now - 40, now);
    cache.mark_seen_at(2, now - 10, now);
    cache.mark_seen_at(3, now - 30, now);
    cache.mark_seen_at(4, now - 20, now);
    assert_eq!(cache.seen_count(), 4);
    cache.mark_seen_at(5, now, now);
    assert_eq!(cache.seen_count(), 4);
    assert!(!cache.has_seen(1));
    assert!(cache.has_seen(2) && cache.has_seen(3) && cache.has_seen(4) && cache.has_seen(5));
}

#[test]
fn seen_records_an_hour_old_are_dropped() {
    let now = 1_000_000;
    let mut cache = MessageCache::new(3);
    cache.mark_seen_at(1, now - 3600, now);
    cache.mark_seen_at(2, now - 3599, now);
    cache.mark_seen_at(3, now + 50, now);
    cache.evict_old_messages_at(now);
    assert!(!cache.has_seen(1));
    assert!(cache.has_seen(2));
    assert!(cache.has_seen(3));
}

#[test]
fn health_check_marks_quiet_peers() {
    let mut g = GossipProtocol::new("me".to_string(), GossipConfig::default());
    let mut quiet = healthy_peer("quiet", 1);
    quiet.last_seen = 1_000;
    let mut lively = healthy_peer("lively", 2);
    lively.last_seen = 1_250;
    g.add_peer(quiet).unwrap();
    g.add_peer(lively).unwrap();
    let stale = g.health_check_at(1_301);
    assert_eq!(stale, vec!["quiet".to_string()]);
    assert_eq!(g.get_stats().healthy_peers, 1);
}

#[test]
fn small_seen_records_stay_within_capacity() {
    let now = 1_000_000;
    let mut cache = MessageCache::new(1);
    cache.mark_seen_at(1, now, now);
    cache.mark_seen_at(2, now, now);
    assert_eq!(cache.seen_count(), 1);
    assert!(cache.has_seen(2));
    assert!(!cache.has_seen(1));
    let mut cache3 = MessageCache::new(3);
    for id in 0..10u64 {
        cache3.mark_seen_at(id, now - 10 + id, now);
        assert!(cache3.seen_count() <= 3);
    }
    assert!(cache3.has_seen(9));
}

#[test]
fn small_message_cache_stays_within_capacity() {
    let now = 1_000_000;
    let mut cache = MessageCache::new(1);
    let mut a = Message::new(MessageType::Data("a".to_string()), "n".to_string());
    a.timestamp = now - 5;
    let mut b = Message::new(MessageType::Data("b".to_string()), "n".to_string());
    b.timestamp = now;
    let (ida, idb) = (a.id, b.id);
    cache.cache_message_at(a, now);
    cache.cache_message_at(b, now);
    assert_eq!(cache.cached_count(), 1);
    assert!(cache.get_message(idb).is_some());
    assert!(cache.get_message(ida).is_none());
}

#[test]
fn known_hashes_hold_each_id_once() {
    let now = 1_000_000;
    let mut cache = MessageCache::new(10);
    let mut m = Message::new(MessageType::Data("x".to_string()), "n".to_string());
    m.timestamp = now;
    let id = m.id;
    cache.cache_message_at(m.clone(), now);
    cache.cache_message_at(m, now);
    assert_eq!(cache.known_message_hashes(), vec![id]);
}
