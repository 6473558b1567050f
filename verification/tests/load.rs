use somasync::load_test::{boundary_peers, config_for, create_sample_threat_data_at, estimated_real_nodes, preset};
use somasync::load_test_million_nodes::{
    port_of, create_cluster, create_sample_threat_intel_at, ClusterStats, LightweightNode, LoadTestConfig,
};

#[test]
fn presets() {
    assert_eq!(preset("small"), Some((1_000, 60, 500)));
    assert_eq!(preset("million"), Some((1_000_000, 600, 25_000)));
    assert_eq!(preset("huge"), None);
}

#[test]
fn configuration_from_node_count() {
    let c = config_for(50_000, 180, 5_000);
    assert_eq!(c.batch_size, 500);
    assert_eq!(c.batch_delay_ms, 50);
    let c = config_for(1_000_000, 600, 25_000);
    assert_eq!(c.batch_size, 1000);
    assert_eq!(c.batch_delay_ms, 100);
    assert_eq!(c.base_port, 20000);
    assert_eq!(estimated_real_nodes(1_000_000, 25_000), 5000);
    assert_eq!(estimated_real_nodes(50_000, 5_000), 1000);
    assert_eq!(estimated_real_nodes(1_000, 500), 50);
}

#[test]
fn sample_threat_data() {
    let t = create_sample_threat_data_at(300, 42);
    assert_eq!(t.threat_type, "brute_force");
    assert_eq!(t.source_ip, "192.168.1.44");
    assert_eq!(t.severity, 1);
    assert_eq!(t.timestamp, 42);
    let t = create_sample_threat_intel_at(7, 9);
    assert_eq!(t.threat_type, "malware");
    assert_eq!(t.source_ip, "192.168.0.7");
    assert_eq!(t.severity, 8);
    assert_eq!(t.cluster_id, 7);
}

#[test]
fn boundary_links() {
    assert_eq!(boundary_peers(0, 20000), vec![]);
    assert_eq!(boundary_peers(2, 20002), vec![(1, 20001), (0, 20000)]);
    assert_eq!(boundary_peers(9, 20009).len(), 5);
}

#[test]
fn clusters() {
    let node = LightweightNode::new(123_456, 20000);
    assert_eq!(node.node_id, "node-123456");
    assert_eq!(node.port, 20000 + ((123_456 % 65536) % 50000) as u16);
    let (stats, per_node) = create_cluster(3, 4, 20000);
    assert_eq!(stats.node_count, 4);
    assert_eq!(stats.representative_node, Some("node-12".to_string()));
    assert_eq!(per_node, 3);
    assert_eq!(ClusterStats::new(5).node_count, 0);
    assert_eq!(LoadTestConfig::default().total_nodes, 1_000_000);
}

#[test]
fn node_ports_stay_in_range_above_a_high_base() {
    // 100 000 nodes from port 30000, as the medium-scale run uses.
    for id in [0usize, 35_535, 35_536, 49_999, 99_999] {
        let p = port_of(id, 30000);
        assert!(p >= 30000);
    }
    assert_eq!(port_of(35_535, 30000), 65535);
    assert_eq!(port_of(35_536, 30000), 30000);
    assert_eq!(port_of(49_999, 30000), 30000 + (49_999 % 35_536) as u16);
    let node = LightweightNode::new(99_999, 30000);
    assert_eq!(node.port, port_of(99_999, 30000));
    let (stats, per_node) = create_cluster(999, 100, 30000);
    assert_eq!(stats.node_count, 100);
    assert_eq!(per_node, 5);
}
