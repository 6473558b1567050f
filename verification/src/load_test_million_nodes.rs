//! Parameters and data of the clustered million-node load test: clusters of
//! lightweight node records, each with a representative, and the threat
//! records its generators emit.

use crate::load_test::{sample_ip, sample_ip_text, threat_kind, threat_kind_text};
use crate::platform::unix_time_secs;
use crate::text::{decimal_digits, decimal_text};
use vstd::prelude::*;
use vstd::string::*;

verus! {

/// Load test parameters.
#[derive(Debug, Clone, Copy, PartialEq, Eq)]
pub struct LoadTestConfig {
    /// Nodes to simulate.
    pub total_nodes: usize,
    /// Nodes created per batch.
    pub batch_size: usize,
    /// Delay between batches, in milliseconds.
    pub batch_delay_ms: u64,
    /// Maximum concurrent connections.
    pub max_concurrent_connections: usize,
    /// Messages each node sends.
    pub messages_per_node: usize,
    /// Test duration in seconds.
    pub test_duration_secs: u64,
    /// First port of the node addresses.
    pub base_port: u16,
}

impl Default for LoadTestConfig {
    /// A million nodes in batches of 1000, 100 ms apart, 10 000 concurrent
    /// connections, 10 messages per node, five minutes, ports from 20000.
    fn default() -> (c: Self)
        ensures
            c == (LoadTestConfig {
                total_nodes: 1_000_000,
                batch_size: 1000,
                batch_delay_ms: 100,
                max_concurrent_connections: 10_000,
                messages_per_node: 10,
                test_duration_secs: 300,
                base_port: 20000,
            }),
    {
        LoadTestConfig {
            total_nodes: 1_000_000,
            batch_size: 1000,
            batch_delay_ms: 100,
            max_concurrent_connections: 10_000,
            messages_per_node: 10,
            test_duration_secs: 300,
            base_port: 20000,
        }
    }
}

/// How many ports the nodes cycle through above `base_port`: 50000, or
/// fewer where the ports would run past 65535.
pub open spec fn port_span(base_port: u16) -> int {
    if 65536 - base_port < 50000 {
        65536 - base_port
    } else {
        50000
    }
}

/// The port of node `id` with ports from `base_port`: the id, taken modulo
/// 65536 and then 50000, and wrapped into the span of ports that fit above
/// the base.
pub open spec fn node_port(id: nat, base_port: u16) -> int {
    base_port + (((id % 65536) % 50000) as int) % port_span(base_port)
}

/// The port of node `id` with ports from `base_port`; always a valid port.
pub fn port_of(id: usize, base_port: u16) -> (p: u16)
    ensures
        p == node_port(id as nat, base_port),
{
    let span: u32 = if 65536 - (base_port as u32) < 50000 {
        65536 - (base_port as u32)
    } else {
        50000
    };
    let offset: u32 = (((id % 65536) % 50000) as u32) % span;
    assert(offset < span);
    (base_port as u32 + offset) as u16
}

/// A node record, kept small so that many fit in memory.
#[derive(Debug)]
pub struct LightweightNode {
    /// `node-` and the node number.
    pub node_id: String,
    /// The node's port.
    pub port: u16,
    /// Messages counted for the node.
    pub message_count: usize,
    /// Connections counted for the node.
    pub connection_count: usize,
}

impl LightweightNode {
    /// The record of node `id`, with no messages or connections.
    pub fn new(id: usize, base_port: u16) -> (n: Self)
        ensures
            n.node_id@ == "node-"@ + decimal_digits(id as nat),
            n.port == node_port(id as nat, base_port),
            n.message_count == 0,
            n.connection_count == 0,
    {
        let mut node_id = String::from_str("node-");
        let digits = decimal_text(id as u64);
        node_id.append(digits.as_str());
        proof {
            reveal_strlit("node-");
        }
        let port = port_of(id, base_port);
        LightweightNode { node_id, port, message_count: 0, connection_count: 0 }
    }
}

/// What a cluster of the test holds.
#[derive(Debug, Clone, PartialEq, Eq)]
pub struct ClusterStats {
    pub cluster_id: usize,
    pub node_count: usize,
    pub representative_node: Option<String>,
}

impl ClusterStats {
    /// An empty cluster `cluster_id` without representative.
    pub fn new(cluster_id: usize) -> (c: Self)
        ensures
            c.cluster_id == cluster_id,
            c.node_count == 0,
            c.representative_node is None,
    {
        ClusterStats { cluster_id, node_count: 0, representative_node: None }
    }
}

/// Build cluster `cluster_id` of `nodes_in_cluster` nodes numbered from
/// `cluster_id * nodes_in_cluster`, each connected to up to five
/// neighbours. Returns the cluster (its first node as representative) and
/// the number of connections of each node.
pub fn create_cluster(cluster_id: usize, nodes_in_cluster: usize, base_port: u16) -> (r: (ClusterStats, usize))
    requires
        cluster_id * nodes_in_cluster + nodes_in_cluster <= usize::MAX,
    ensures
        r.0.cluster_id == cluster_id,
        r.0.node_count == nodes_in_cluster,
        nodes_in_cluster == 0 ==> r.0.representative_node is None && r.1 == 0,
        nodes_in_cluster > 0 ==> (r.0.representative_node matches Some(id) && id@ == "node-"@ + decimal_digits(
            (cluster_id * nodes_in_cluster) as nat,
        )),
        nodes_in_cluster > 0 ==> r.1 == if nodes_in_cluster - 1 < 5 {
            nodes_in_cluster - 1
        } else {
            5
        },
{
    let mut stats = ClusterStats::new(cluster_id);
    let first = cluster_id * nodes_in_cluster;
    let mut nodes: Vec<LightweightNode> = Vec::new();
    let mut offset: usize = 0;
    while offset < nodes_in_cluster
        invariant
            offset <= nodes_in_cluster,
            first == cluster_id * nodes_in_cluster,
            first + nodes_in_cluster <= usize::MAX,
            nodes@.len() == offset,
            offset > 0 ==> nodes@[0].node_id@ == "node-"@ + decimal_digits(first as nat),
        decreases nodes_in_cluster - offset,
    {
        let node = LightweightNode::new(first + offset, base_port);
        nodes.push(node);
        offset = offset + 1;
    }
    let mut per_node: usize = 0;
    if nodes.len() > 0 {
        per_node = if nodes.len() - 1 < 5 {
            nodes.len() - 1
        } else {
            5
        };
        let mut i: usize = 0;
        while i < nodes.len()
            invariant
                i <= nodes@.len(),
                nodes@.len() == nodes_in_cluster,
                nodes@.len() > 0,
                nodes@[0].node_id@ == "node-"@ + decimal_digits(first as nat),
            decreases nodes.len() - i,
        {
            let mut node = nodes.remove(i);
            node.connection_count = per_node;
            nodes.insert(i, node);
            i = i + 1;
        }
        stats.representative_node = Some(nodes[0].node_id.clone());
    }
    stats.node_count = nodes.len();
    (stats, per_node)
}

/// A sample threat record of a cluster.
#[derive(Debug, Clone, PartialEq, Eq)]
pub struct ThreatIntel {
    pub threat_type: String,
    pub source_ip: String,
    pub severity: u8,
    pub timestamp: u64,
    pub cluster_id: usize,
}

/// The sample threat record of cluster `cluster_id` stamped `now`: its
/// kind and severity (1 to 10) cycle with the cluster.
pub fn create_sample_threat_intel_at(cluster_id: usize, now: u64) -> (t: ThreatIntel)
    ensures
        t.threat_type@ == threat_kind((cluster_id % 5) as int),
        t.source_ip@ == sample_ip(cluster_id as nat),
        t.severity == cluster_id % 10 + 1,
        t.timestamp == now,
        t.cluster_id == cluster_id,
{
    ThreatIntel {
        threat_type: threat_kind_text(cluster_id % 5),
        source_ip: sample_ip_text(cluster_id),
        severity: (cluster_id % 10) as u8 + 1,
        timestamp: now,
        cluster_id,
    }
}

/// The sample threat record of cluster `cluster_id`, stamped now.
pub fn create_sample_threat_intel(cluster_id: usize) -> (t: ThreatIntel)
    ensures
        t.threat_type@ == threat_kind((cluster_id % 5) as int),
        t.source_ip@ == sample_ip(cluster_id as nat),
        t.severity == cluster_id % 10 + 1,
        t.cluster_id == cluster_id,
{
    let now = unix_time_secs();
    create_sample_threat_intel_at(cluster_id, now)
}

} // verus!
