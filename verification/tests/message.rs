use ed25519_dalek::{Signer, SigningKey};
use rand::RngCore;
use somasync::gossip::GossipMessage;
use somasync::message::{priority, ttl, Message, MessageBatch, MessageEnvelope, MessageSignature, MessageType};
use somasync::{StringMap, SynapseError};

fn random_key() -> SigningKey {
    let mut csprng = rand::rngs::OsRng;
    let mut secret_bytes = [0u8; 32];
    csprng.fill_bytes(&mut secret_bytes);
    SigningKey::from_bytes(&secret_bytes)
}

#[test]
fn message_test_message_creation() {
    let msg = Message::new(MessageType::Data("test data".to_string()), "node1".to_string());

    assert_eq!(msg.source, "node1");
    assert!(!msg.is_expired());
    assert_eq!(msg.priority, 128);
}

#[test]
fn test_message_with_ttl() {
    let msg = Message::new(MessageType::Data("test".to_string()), "node1".to_string()).with_ttl(60);

    assert_eq!(msg.ttl, 60);
    assert!(msg.remaining_ttl() <= 60);
}

#[test]
fn test_message_envelope() {
    let msg = Message::new(MessageType::Data("test".to_string()), "node1".to_string());

    let envelope = MessageEnvelope::new("node1".to_string(), GossipMessage::Data(Box::new(msg)));

    assert_eq!(envelope.source_node, "node1");
    assert_eq!(envelope.hop_count, 0);
    assert!(!envelope.is_expired());
}

#[test]
fn test_message_batch() {
    let msg1 = Message::new(MessageType::Data("test1".to_string()), "node1".to_string());
    let msg2 = Message::new(MessageType::Data("test2".to_string()), "node1".to_string());

    let env1 = MessageEnvelope::new("node1".to_string(), GossipMessage::Data(Box::new(msg1)));
    let env2 = MessageEnvelope::new("node1".to_string(), GossipMessage::Data(Box::new(msg2)));

    let batch = MessageBatch::new(vec![env1, env2]).with_checksum();

    assert_eq!(batch.len(), 2);
    assert!(batch.verify_checksum());
}

#[test]
fn test_message_response() {
    let original = Message::new(
        MessageType::Command { action: "ping".to_string(), params: StringMap::new() },
        "node1".to_string(),
    )
    .with_correlation_id("test-correlation".to_string());

    let response = original.create_response(
        MessageType::Status { component: "pong".to_string(), state: "ok".to_string() },
        "node2".to_string(),
    );

    assert_eq!(response.correlation_id, Some("test-correlation".to_string()));
    assert_eq!(response.priority, original.priority);
}

#[test]
fn test_priority_constants() {
    assert_eq!(priority::CRITICAL, 255);
    assert_eq!(priority::NORMAL, 128);
    assert_eq!(priority::BACKGROUND, 0);
}

#[test]
fn test_ttl_constants() {
    assert_eq!(ttl::IMMEDIATE, 60);
    assert_eq!(ttl::MEDIUM, 3600);
    assert_eq!(ttl::PERSISTENT, 604800);
}

#[test]
fn test_message_signing() {
    let signing_key = random_key();

    let msg = Message::new(
        MessageType::Data("sensitive threat intel".to_string()),
        "threat-detector-1".to_string(),
    )
    .sign_with_ed25519(&signing_key.to_bytes());

    assert!(msg.is_signed());
    assert!(msg.signer_public_key().is_some());
    assert!(msg.verify_signature().unwrap());
}

#[test]
fn test_message_signature_verification_fails_on_tampered_content() {
    let signing_key = random_key();

    let mut msg = Message::new(MessageType::Data("original content".to_string()), "node1".to_string())
        .sign_with_ed25519(&signing_key.to_bytes());

    msg.message_type = MessageType::Data("tampered content".to_string());

    assert!(msg.verify_signature().is_err());
}

#[test]
fn test_unsigned_message_verification() {
    let msg = Message::new(MessageType::Data("unsigned message".to_string()), "node1".to_string());

    assert!(!msg.verify_signature().unwrap());
    assert!(!msg.is_signed());
    assert!(msg.signer_public_key().is_none());
}

#[test]
fn signature_public_key_is_the_signers() {
    let signing_key = random_key();
    let msg = Message::new(MessageType::Data("x".to_string()), "n".to_string()).sign_with_ed25519(&signing_key.to_bytes());
    assert_eq!(msg.signer_public_key().unwrap(), signing_key.verifying_key().as_bytes().as_slice());
}

#[test]
fn tampered_signature_is_a_security_error() {
    let signing_key = random_key();
    let mut msg = Message::new(MessageType::Data("a".to_string()), "n".to_string()).sign_with_ed25519(&signing_key.to_bytes());
    msg.source = "someone-else".to_string();
    match msg.verify_signature() {
        Err(SynapseError::Security(_)) => {}
        other => panic!("expected a security error, got {:?}", other),
    }
}

#[test]
fn signing_keeps_the_content() {
    let signing_key = random_key();
    let msg = Message::new(MessageType::Data("keep".to_string()), "src".to_string()).with_ttl(77).with_priority(9);
    let id = msg.id;
    let signed = msg.sign_with_ed25519(&signing_key.to_bytes());
    assert_eq!(signed.id, id);
    assert_eq!(signed.ttl, 77);
    assert_eq!(signed.priority, 9);
    assert_eq!(signed.message_type, MessageType::Data("keep".to_string()));
}

#[test]
fn expiry_and_age_at_given_times() {
    let mut msg = Message::new(MessageType::Data("t".to_string()), "n".to_string()).with_ttl(100);
    msg.timestamp = 1_000;
    assert!(!msg.is_expired_at(1_100));
    assert!(msg.is_expired_at(1_101));
    assert_eq!(msg.age_at(1_050), 50);
    assert_eq!(msg.age_at(900), 0);
    assert_eq!(msg.remaining_ttl_at(1_030), 70);
    assert_eq!(msg.remaining_ttl_at(1_200), 0);
}

#[test]
fn envelope_hops_and_expiry() {
    let msg = Message::new(MessageType::Data("t".to_string()), "n".to_string());
    let mut env = MessageEnvelope::new("n".to_string(), GossipMessage::Data(Box::new(msg))).with_max_hops(3);
    assert!(!env.is_hop_exceeded(5));
    env.increment_hop();
    env.increment_hop();
    assert!(!env.is_hop_exceeded(5));
    env.increment_hop();
    assert!(env.is_hop_exceeded(5));
    assert!(env.is_hop_exceeded(3));
    env.timestamp = 10;
    env.envelope_ttl = 5;
    assert!(!env.is_expired_at(15));
    assert!(env.is_expired_at(16));
    assert_eq!(env.age_at(12), 2);
}

#[test]
fn envelope_routing_hints() {
    let msg = Message::new(MessageType::Data("t".to_string()), "n".to_string());
    let env = MessageEnvelope::new("n".to_string(), GossipMessage::Data(Box::new(msg)))
        .with_routing_hint("relay-1".to_string());
    assert!(env.should_route_through(&"relay-1".to_string()));
    assert!(!env.should_route_through(&"relay-2".to_string()));
    let plain = MessageEnvelope::new("n".to_string(), GossipMessage::Ack { message_id: 1 });
    assert!(plain.should_route_through(&"anyone".to_string()));
}

#[test]
fn batch_checksum_detects_changes() {
    let env1 = MessageEnvelope::new("a".to_string(), GossipMessage::Ack { message_id: 1 });
    let env2 = MessageEnvelope::new("a".to_string(), GossipMessage::Ack { message_id: 2 });
    let batch = MessageBatch::new(vec![env1, env2]);
    assert!(batch.verify_checksum());
    let mut batch = batch.with_checksum();
    assert!(batch.verify_checksum());
    batch.checksum = batch.checksum.map(|c| c ^ 1);
    assert!(!batch.verify_checksum());
}

#[test]
fn batch_split_keeps_every_envelope_in_order() {
    let envs: Vec<MessageEnvelope> =
        (0..5u64).map(|i| MessageEnvelope::new("a".to_string(), GossipMessage::Ack { message_id: i })).collect();
    let ids: Vec<u64> = envs.iter().map(|e| e.message_id).collect();
    let parts = MessageBatch::new(envs).split(2);
    assert_eq!(parts.len(), 3);
    let lens: Vec<usize> = parts.iter().map(|b| b.len()).collect();
    assert_eq!(lens, vec![2, 2, 1]);
    let rejoined: Vec<u64> = parts.iter().flat_map(|b| b.messages.iter().map(|e| e.message_id)).collect();
    assert_eq!(rejoined, ids);
}

#[test]
fn estimated_size_of_a_data_message() {
    let msg = Message::new(MessageType::Data("abcd".to_string()), "xy".to_string());
    assert_eq!(msg.estimated_size(), std::mem::size_of::<Message>() + 4 + 2);
}

#[test]
fn signature_record_holds_the_given_bytes() {
    let signing_key = random_key();
    let sig = signing_key.sign(b"payload");
    let pk = signing_key.verifying_key().to_bytes();
    let record = MessageSignature::new_ed25519(sig.to_bytes(), pk);
    assert_eq!(record.signature, sig.to_bytes().to_vec());
    assert_eq!(record.public_key, pk.to_vec());
    assert_eq!(record.algorithm, "Ed25519");
    assert!(record.verify(b"payload").is_ok());
    assert!(record.verify(b"other").is_err());
}

#[test]
fn signing_twice_with_one_key_gives_one_signature() {
    let signing_key = random_key();
    let msg = Message::new(MessageType::Data("same".to_string()), "n".to_string());
    let a = msg.clone().sign_with_ed25519(&signing_key.to_bytes());
    let b = msg.sign_with_ed25519(&signing_key.to_bytes());
    assert_eq!(a.signature.unwrap().signature, b.signature.unwrap().signature);
}

#[test]
fn a_new_header_adds_its_lengths_to_the_size_estimate() {
    let msg = Message::new(MessageType::Data("payload".to_string()), "src".to_string());
    let before = msg.estimated_size();
    let with = msg.with_header("trace".to_string(), "abc123".to_string());
    assert_eq!(with.estimated_size(), before + "trace".len() + "abc123".len());
}

fn map_of(entries: &[(&str, &str)]) -> StringMap {
    let mut m = StringMap::new();
    for (k, v) in entries {
        m.insert(k.to_string(), v.to_string());
    }
    m
}

#[test]
fn a_signature_survives_reordered_map_entries() {
    let signing_key = SigningKey::from_bytes(&[7u8; 32]);
    let signed = Message::new(
        MessageType::Structured(map_of(&[("a", "1"), ("b", "2"), ("c", "3")])),
        "n".to_string(),
    )
    .with_header("x".to_string(), "9".to_string())
    .with_header("h".to_string(), "8".to_string())
    .sign_with_ed25519(&signing_key.to_bytes());
    let mut received = signed.clone();
    received.message_type = MessageType::Structured(map_of(&[("c", "3"), ("a", "1"), ("b", "2")]));
    received.headers = map_of(&[("h", "8"), ("x", "9")]);
    assert_eq!(received.signable_content(), signed.signable_content());
    assert_eq!(received.verify_signature().unwrap(), true);
}

#[test]
fn a_changed_map_value_breaks_the_signature() {
    let signing_key = SigningKey::from_bytes(&[7u8; 32]);
    let signed = Message::new(MessageType::Structured(map_of(&[("a", "1"), ("b", "2")])), "n".to_string())
        .sign_with_ed25519(&signing_key.to_bytes());
    let mut received = signed.clone();
    received.message_type = MessageType::Structured(map_of(&[("b", "2"), ("a", "x")]));
    assert!(received.verify_signature().is_err());
}
