//! Parameters and sample data of the demonstration load test: the presets
//! it accepts, the configuration derived from a node count, and the threat
//! records its message generators emit.

use crate::platform::unix_time_secs;
use crate::text::{decimal_digits, decimal_text};
use vstd::prelude::*;
use vstd::string::*;

verus! {

/// Load test parameters.
#[derive(Debug, Clone, Copy, PartialEq, Eq)]
pub struct LoadTestConfig {
    /// Nodes to simulate.
    pub total_nodes: usize,
    /// Nodes created per batch.
    pub batch_size: usize,
    /// Delay between batches, in milliseconds.
    pub batch_delay_ms: u64,
    /// Maximum concurrent connections.
    pub max_concurrent_connections: usize,
    /// Test duration in seconds.
    pub test_duration_secs: u64,
    /// First port of the node addresses.
    pub base_port: u16,
}

/// The node count, duration and connection limit of a named preset.
pub open spec fn preset_values(name: Seq<char>) -> Option<(usize, u64, usize)> {
    if name == "small"@ {
        Some((1_000, 60, 500))
    } else if name == "medium"@ {
        Some((50_000, 180, 5_000))
    } else if name == "large"@ {
        Some((500_000, 300, 15_000))
    } else if name == "extreme"@ {
        Some((1_000_000, 600, 30_000))
    } else if name == "million"@ {
        Some((1_000_000, 600, 25_000))
    } else {
        None
    }
}

/// The node count, duration in seconds and connection limit of the preset
/// `name` (small, medium, large, extreme or million), if it is one.
pub fn preset(name: &str) -> (r: Option<(usize, u64, usize)>)
    ensures
        r == preset_values(name@),
{
    proof {
        reveal_strlit("small");
        reveal_strlit("medium");
        reveal_strlit("large");
        reveal_strlit("extreme");
        reveal_strlit("million");
    }
    let s = String::from_str(name);
    if s == String::from_str("small") {
        Some((1_000, 60, 500))
    } else if s == String::from_str("medium") {
        Some((50_000, 180, 5_000))
    } else if s == String::from_str("large") {
        Some((500_000, 300, 15_000))
    } else if s == String::from_str("extreme") {
        Some((1_000_000, 600, 30_000))
    } else if s == String::from_str("million") {
        Some((1_000_000, 600, 25_000))
    } else {
        None
    }
}

/// The configuration for `nodes` nodes: batches of a hundredth of the
/// nodes (at most 1000), 100 ms between batches above 100 000 nodes and
/// 50 ms otherwise, ports from 20000.
pub fn config_for(nodes: usize, duration_secs: u64, connections: usize) -> (c: LoadTestConfig)
    ensures
        c == (LoadTestConfig {
            total_nodes: nodes,
            batch_size: if nodes / 100 < 1000 {
                (nodes / 100) as usize
            } else {
                1000
            },
            batch_delay_ms: if nodes > 100_000 {
                100
            } else {
                50
            },
            max_concurrent_connections: connections,
            test_duration_secs: duration_secs,
            base_port: 20000,
        }),
{
    let per_batch = nodes / 100;
    LoadTestConfig {
        total_nodes: nodes,
        batch_size: if per_batch < 1000 {
            per_batch
        } else {
            1000
        },
        batch_delay_ms: if nodes > 100_000 {
            100
        } else {
            50
        },
        max_concurrent_connections: connections,
        test_duration_secs: duration_secs,
        base_port: 20000,
    }
}

/// How many real nodes a test of `total_nodes` nodes with `connections`
/// concurrent connections creates: a third of the connections (at most
/// 5000) from 500 000 nodes, a fifth (at most 1000) from 50 000, a tenth
/// (at most 100) below.
pub fn estimated_real_nodes(total_nodes: usize, connections: usize) -> (n: usize)
    ensures
        n == if total_nodes >= 500_000 {
            if connections / 3 < 5000 {
                connections / 3
            } else {
                5000
            }
        } else if total_nodes >= 50_000 {
            if connections / 5 < 1000 {
                connections / 5
            } else {
                1000
            }
        } else if connections / 10 < 100 {
            connections / 10
        } else {
            100
        },
{
    if total_nodes >= 500_000 {
        if connections / 3 < 5000 {
            connections / 3
        } else {
            5000
        }
    } else if total_nodes >= 50_000 {
        if connections / 5 < 1000 {
            connections / 5
        } else {
            1000
        }
    } else if connections / 10 < 100 {
        connections / 10
    } else {
        100
    }
}

/// A sample threat record.
#[derive(Debug, Clone, PartialEq, Eq)]
pub struct ThreatData {
    pub threat_type: String,
    pub source_ip: String,
    pub severity: u8,
    pub timestamp: u64,
}

/// The name of the `k`-th threat kind (brute force, port scan, malware,
/// DDoS, phishing).
pub open spec fn threat_kind(k: int) -> Seq<char> {
    if k == 0 {
        "brute_force"@
    } else if k == 1 {
        "port_scan"@
    } else if k == 2 {
        "malware"@
    } else if k == 3 {
        "ddos"@
    } else {
        "phishing"@
    }
}

/// The source address of sample `id`: `192.168.a.b` with `a` and `b` the
/// two low bytes of `id`.
pub open spec fn sample_ip(id: nat) -> Seq<char> {
    "192.168."@ + decimal_digits((id / 256) % 256) + "."@ + decimal_digits(id % 256)
}

/// The name of the `k`-th threat kind.
pub fn threat_kind_text(k: usize) -> (s: String)
    requires
        k < 5,
    ensures
        s@ == threat_kind(k as int),
{
    if k == 0 {
        String::from_str("brute_force")
    } else if k == 1 {
        String::from_str("port_scan")
    } else if k == 2 {
        String::from_str("malware")
    } else if k == 3 {
        String::from_str("ddos")
    } else {
        String::from_str("phishing")
    }
}

/// The source address of sample `id`.
pub fn sample_ip_text(id: usize) -> (s: String)
    ensures
        s@ == sample_ip(id as nat),
{
    let mut s = String::from_str("192.168.");
    let a = decimal_text(((id / 256) % 256) as u64);
    s.append(a.as_str());
    s.append(".");
    let b = decimal_text((id % 256) as u64);
    s.append(b.as_str());
    proof {
        reveal_strlit("192.168.");
        reveal_strlit(".");
    }
    s
}

/// The sample threat record of generator `id` stamped `now`: its kind and
/// severity (1 to 10) cycle with `id`.
pub fn create_sample_threat_data_at(id: usize, now: u64) -> (t: ThreatData)
    ensures
        t.threat_type@ == threat_kind((id % 5) as int),
        t.source_ip@ == sample_ip(id as nat),
        t.severity == id % 10 + 1,
        t.timestamp == now,
{
    ThreatData {
        threat_type: threat_kind_text(id % 5),
        source_ip: sample_ip_text(id),
        severity: (id % 10 + 1) as u8,
        timestamp: now,
    }
}

/// The sample threat record of generator `id`, stamped now.
pub fn create_sample_threat_data(id: usize) -> (t: ThreatData)
    ensures
        t.threat_type@ == threat_kind((id % 5) as int),
        t.source_ip@ == sample_ip(id as nat),
        t.severity == id % 10 + 1,
{
    let now = unix_time_secs();
    create_sample_threat_data_at(id, now)
}

/// The peers node `i` of the boundary test links to, listening at `port`:
/// up to five predecessors, nearest first, each with its port.
pub open spec fn boundary_links(i: nat, port: u16) -> Seq<(usize, u16)> {
    Seq::new(if i < 5 { i } else { 5 }, |j: int| ((i - (j + 1)) as usize, (port - (j + 1)) as u16))
}

/// The peers node `i` of the boundary test links to, listening at `port`.
pub fn boundary_peers(i: usize, port: u16) -> (v: Vec<(usize, u16)>)
    requires
        port >= if i < 5 { i } else { 5 },
    ensures
        v@ == boundary_links(i as nat, port),
{
    let per_node = if i < 1 {
        1
    } else if i > 5 {
        5
    } else {
        i
    };
    let mut v: Vec<(usize, u16)> = Vec::new();
    let mut offset: usize = 1;
    while offset <= per_node
        invariant
            1 <= offset <= per_node + 1,
            per_node == if i < 1 { 1 } else if i > 5 { 5 } else { i },
            port >= if i < 5 { i } else { 5 },
            v@ == boundary_links(i as nat, port).take(if offset - 1 < i { offset - 1 } else { i as int }),
        decreases per_node + 1 - offset,
    {
        if i >= offset {
            v.push((i - offset, port - offset as u16));
        }
        offset = offset + 1;
        assert(v@ =~= boundary_links(i as nat, port).take(if offset - 1 < i { offset - 1 } else { i as int }));
    }
    assert(v@ =~= boundary_links(i as nat, port));
    v
}

} // verus!
