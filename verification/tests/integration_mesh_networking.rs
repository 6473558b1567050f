use somasync::{Message, MessageType, Peer, SocketAddress, StringMap, SynapseNodeBuilder};

#[test]
fn test_node_creation_and_basic_setup() {
    let node1 = SynapseNodeBuilder::new()
        .with_node_id("test-node-1".to_string())
        .with_bind_address(SocketAddress::v4(127, 0, 0, 1, 17001))
        .build();

    let node2 = SynapseNodeBuilder::new()
        .with_node_id("test-node-2".to_string())
        .with_bind_address(SocketAddress::v4(127, 0, 0, 1, 17002))
        .build();

    assert_eq!(node1.node_id(), "test-node-1");
    assert_eq!(node2.node_id(), "test-node-2");

    assert_eq!(node1.config().bind_address.port(), 17001);
    assert_eq!(node2.config().bind_address.port(), 17002);
}

#[test]
fn test_peer_management() {
    let mut node1 = SynapseNodeBuilder::new()
        .with_node_id("peer-test-1".to_string())
        .with_bind_address(SocketAddress::v4(127, 0, 0, 1, 17003))
        .build();

    let mut node2 = SynapseNodeBuilder::new()
        .with_node_id("peer-test-2".to_string())
        .with_bind_address(SocketAddress::v4(127, 0, 0, 1, 17004))
        .build();

    let peer2 = Peer::new("peer-test-2".to_string(), SocketAddress::v4(127, 0, 0, 1, 17004));
    let peer1 = Peer::new("peer-test-1".to_string(), SocketAddress::v4(127, 0, 0, 1, 17003));

    node1.add_peer(peer2).expect("Should add peer2 to node1");
    node2.add_peer(peer1).expect("Should add peer1 to node2");
}

#[test]
fn integration_mesh_networking_test_message_creation() {
    let data_msg = Message::new(MessageType::Data("test payload".to_string()), "test-node".to_string());
    assert_eq!(data_msg.source, "test-node");

    let mut params = StringMap::new();
    params.insert("target".to_string(), "service".to_string());
    let command_msg = Message::new(
        MessageType::Command { action: "restart".to_string(), params },
        "control-node".to_string(),
    );
    assert_eq!(command_msg.source, "control-node");

    let status_msg = Message::new(
        MessageType::Status { component: "api".to_string(), state: "running".to_string() },
        "status-node".to_string(),
    );
    assert_eq!(status_msg.source, "status-node");
}

#[test]
fn test_threat_intel_message_structure() {
    let mut record = serde_json::Map::new();
    record.insert("threat_type".to_string(), serde_json::Value::String("brute_force".to_string()));
    record.insert("source_ip".to_string(), serde_json::Value::String("192.168.1.100".to_string()));
    record.insert("severity".to_string(), serde_json::Value::from(8u8));
    let serialized = serde_json::to_string(&serde_json::Value::Object(record)).expect("Should serialize");

    let binary_data = serialized.into_bytes();
    let threat_message = Message::new(MessageType::Binary(binary_data.clone()), "security-node".to_string());

    assert_eq!(threat_message.source, "security-node");
    assert_eq!(threat_message.message_type, MessageType::Binary(binary_data));

    let mut structured_data = StringMap::new();
    structured_data.insert("type".to_string(), "threat_intel".to_string());
    structured_data.insert("source_ip".to_string(), "192.168.1.100".to_string());
    structured_data.insert("severity".to_string(), "8".to_string());

    let structured_msg = Message::new(MessageType::Structured(structured_data.clone()), "threat-detector".to_string());

    assert_eq!(structured_msg.message_type, MessageType::Structured(structured_data));
}
