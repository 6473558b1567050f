//! Mesh network: routes to distant nodes found by flooding discovery
//! requests, a versioned view of the topology, partition handling and
//! health pings. The network is a state machine: each step takes an input
//! and returns the mesh messages to send, each with the id of the node it
//! goes to.

use crate::address::SocketAddress;
use crate::collections::{last_position, lemma_last_position, StringSet};
use crate::error::SynapseError;
use crate::message::{clone_strings, strings_model, Message};
use crate::gossip::cache::{masked, retain_flagged};
use crate::peer::{
    after_add, healthy_of, peers_model, position_of, sat_sub, seen_at, PeerManager, PeerModel,
    PeerState,
};
use crate::platform::unix_time_secs;
use vstd::prelude::*;
use vstd::string::*;

verus! {

/// Mesh network configuration. Durations are in seconds.
#[derive(Debug, Clone, Copy, PartialEq, Eq)]
pub struct MeshConfig {
    /// Maximum number of direct connections per node.
    pub max_connections: usize,
    /// Minimum number of connections to maintain.
    pub min_connections: usize,
    /// Route discovery timeout.
    pub route_timeout: u64,
    /// Route cache expiration.
    pub route_cache_ttl: u64,
    /// Maximum route hops.
    pub max_route_hops: u8,
    /// Topology update interval.
    pub topology_update_interval: u64,
    /// Connection health check interval.
    pub health_check_interval: u64,
    /// Network partition detection threshold.
    pub partition_threshold: u64,
}

impl Default for MeshConfig {
    /// 10 connections at most, 3 at least, 30 s discovery timeout, routes
    /// kept 300 s, 8 hops, topology updates every 60 s, health checks every
    /// 30 s, partitions checked every 180 s.
    fn default() -> (c: Self)
        ensures
            c == (MeshConfig {
                max_connections: 10,
                min_connections: 3,
                route_timeout: 30,
                route_cache_ttl: 300,
                max_route_hops: 8,
                topology_update_interval: 60,
                health_check_interval: 30,
                partition_threshold: 180,
            }),
    {
        MeshConfig {
            max_connections: 10,
            min_connections: 3,
            route_timeout: 30,
            route_cache_ttl: 300,
            max_route_hops: 8,
            topology_update_interval: 60,
            health_check_interval: 30,
            partition_threshold: 180,
        }
    }
}

/// Abstract value of a [`Route`].
pub struct RouteModel {
    pub destination: Seq<char>,
    pub next_hop: Seq<char>,
    pub hop_count: u8,
    pub cost: u32,
    pub created_at: u64,
    pub last_used: u64,
    pub reliability: u8,
    pub alternatives: Seq<Seq<char>>,
}

/// Network route information.
#[derive(Debug)]
pub struct Route {
    /// Destination node id.
    pub destination: String,
    /// Next hop in the route.
    pub next_hop: String,
    /// Total number of hops to the destination.
    pub hop_count: u8,
    /// Route cost.
    pub cost: u32,
    /// Creation time (seconds since the Unix epoch).
    pub created_at: u64,
    /// Last use (seconds since the Unix epoch).
    pub last_used: u64,
    /// Reliability score (0-100).
    pub reliability: u8,
    /// Alternative next hops.
    pub alternatives: Vec<String>,
}

impl View for Route {
    type V = RouteModel;

    open spec fn view(&self) -> RouteModel {
        RouteModel {
            destination: self.destination@,
            next_hop: self.next_hop@,
            hop_count: self.hop_count,
            cost: self.cost,
            created_at: self.created_at,
            last_used: self.last_used,
            reliability: self.reliability,
            alternatives: strings_model(self.alternatives@),
        }
    }
}

impl Clone for Route {
    /// A copy with the same contents.
    fn clone(&self) -> (c: Self)
        ensures
            c@ == self@,
    {
        Route {
            destination: self.destination.clone(),
            next_hop: self.next_hop.clone(),
            hop_count: self.hop_count,
            cost: self.cost,
            created_at: self.created_at,
            last_used: self.last_used,
            reliability: self.reliability,
            alternatives: clone_strings(&self.alternatives),
        }
    }
}

/// A route created at `now`: fully reliable, used at creation, no
/// alternatives.
pub open spec fn fresh_route(destination: Seq<char>, next_hop: Seq<char>, hop_count: u8, cost: u32, now: u64) -> RouteModel {
    RouteModel {
        destination,
        next_hop,
        hop_count,
        cost,
        created_at: now,
        last_used: now,
        reliability: 100,
        alternatives: seq![],
    }
}

/// The route is expired at `now`: more than `ttl` seconds have passed since
/// its creation.
pub open spec fn route_expired(r: RouteModel, ttl: u64, now: u64) -> bool {
    now > r.created_at && now - r.created_at > ttl
}

impl Route {
    /// A route to `destination` via `next_hop`, created at `now`.
    pub fn new_at(destination: String, next_hop: String, hop_count: u8, cost: u32, now: u64) -> (r: Self)
        ensures
            r@ == fresh_route(destination@, next_hop@, hop_count, cost, now),
    {
        let r = Route {
            destination,
            next_hop,
            hop_count,
            cost,
            created_at: now,
            last_used: now,
            reliability: 100,
            alternatives: Vec::new(),
        };
        assert(r@.alternatives =~= Seq::<Seq<char>>::empty());
        r
    }

    /// A route to `destination` via `next_hop`, created now.
    pub fn new(destination: String, next_hop: String, hop_count: u8, cost: u32) -> (r: Self)
        ensures
            exists|now: u64| r@ == #[trigger] fresh_route(destination@, next_hop@, hop_count, cost, now),
    {
        let now = unix_time_secs();
        Self::new_at(destination, next_hop, hop_count, cost, now)
    }

    /// Whether more than `ttl` seconds have passed at `now` since creation.
    pub fn is_expired_at(&self, ttl: u64, now: u64) -> (b: bool)
        ensures
            b == route_expired(self@, ttl, now),
    {
        now > self.created_at && now - self.created_at > ttl
    }

    /// Whether the route is expired by the current clock.
    pub fn is_expired(&self, ttl: u64) -> (b: bool)
        ensures
            exists|now: u64| b == #[trigger] route_expired(self@, ttl, now),
    {
        let now = unix_time_secs();
        self.is_expired_at(ttl, now)
    }

    /// Record a use at `now`.
    pub fn mark_used_at(&mut self, now: u64)
        ensures
            final(self)@ == (RouteModel { last_used: now, ..old(self)@ }),
    {
        self.last_used = now;
    }

    /// Record a use now.
    pub fn mark_used(&mut self)
        ensures
            final(self)@ == (RouteModel { last_used: final(self).last_used, ..old(self)@ }),
    {
        let now = unix_time_secs();
        self.mark_used_at(now);
    }

    /// Lower the reliability by 10 (not below 0).
    pub fn mark_failed(&mut self)
        ensures
            final(self)@ == (RouteModel { reliability: sat_sub(old(self).reliability as int, 10) as u8, ..old(self)@ }),
    {
        self.reliability = self.reliability.saturating_sub(10);
    }

    /// Raise the reliability by 2, up to 100.
    pub fn mark_successful(&mut self)
        requires
            old(self).reliability + 2 <= 255,
        ensures
            final(self)@ == (RouteModel {
                reliability: if old(self).reliability + 2 < 100 {
                    (old(self).reliability + 2) as u8
                } else {
                    100
                },
                ..old(self)@
            }),
    {
        let r = self.reliability + 2;
        self.reliability = if r < 100 {
            r
        } else {
            100
        };
    }
}

/// Abstract value of a [`NodeInfo`].
pub struct NodeInfoModel {
    pub id: Seq<char>,
    pub address: SocketAddress,
    pub capabilities: Seq<Seq<char>>,
    pub load: u8,
    pub uptime: u64,
    pub version: Option<Seq<char>>,
}

/// Information about a network node.
#[derive(Debug)]
pub struct NodeInfo {
    /// Node identifier.
    pub id: String,
    /// Node network address.
    pub address: SocketAddress,
    /// Node capabilities.
    pub capabilities: StringSet,
    /// Load factor (0-100).
    pub load: u8,
    /// Uptime in seconds.
    pub uptime: u64,
    /// Software version.
    pub version: Option<String>,
}

impl View for NodeInfo {
    type V = NodeInfoModel;

    open spec fn view(&self) -> NodeInfoModel {
        NodeInfoModel {
            id: self.id@,
            address: self.address,
            capabilities: self.capabilities@,
            load: self.load,
            uptime: self.uptime,
            version: match self.version {
                Some(v) => Some(v@),
                None => None,
            },
        }
    }
}

impl Clone for NodeInfo {
    /// A copy with the same contents.
    fn clone(&self) -> (c: Self)
        ensures
            c@ == self@,
    {
        NodeInfo {
            id: self.id.clone(),
            address: self.address,
            capabilities: self.capabilities.clone(),
            load: self.load,
            uptime: self.uptime,
            version: match &self.version {
                Some(v) => Some(v.clone()),
                None => None,
            },
        }
    }
}

/// Abstract value of a [`NetworkTopology`].
pub struct TopologyModel {
    pub connections: Seq<(Seq<char>, Seq<Seq<char>>)>,
    pub node_info: Seq<(Seq<char>, NodeInfoModel)>,
    pub version: u64,
    pub updated_at: u64,
}

/// Network topology: each node's connections and information, under a
/// version number.
#[derive(Debug)]
pub struct NetworkTopology {
    /// Each node's connections, keyed by node id.
    pub connections: Vec<(String, StringSet)>,
    /// Each node's information, keyed by node id.
    pub node_info: Vec<(String, NodeInfo)>,
    /// Topology version.
    pub version: u64,
    /// Time of the last update (seconds since the Unix epoch).
    pub updated_at: u64,
}

impl View for NetworkTopology {
    type V = TopologyModel;

    open spec fn view(&self) -> TopologyModel {
        TopologyModel {
            connections: self.connections@.map_values(|e: (String, StringSet)| (e.0@, e.1@)),
            node_info: self.node_info@.map_values(|e: (String, NodeInfo)| (e.0@, e.1@)),
            version: self.version,
            updated_at: self.updated_at,
        }
    }
}

/// `s` with `v` stored under `k`: replacing the last entry for `k` in
/// place, or appended.
pub open spec fn keyed_upsert<V>(s: Seq<(Seq<char>, V)>, k: Seq<char>, v: V) -> Seq<(Seq<char>, V)> {
    let p = last_position(s.map_values(|e: (Seq<char>, V)| e.0), k);
    if p >= 0 {
        s.update(p, (k, v))
    } else {
        s.push((k, v))
    }
}

/// The topology after an update from `node_id` carrying version `version`,
/// at time `now`: applied only when the version is newer.
pub open spec fn topology_after_update(
    t: TopologyModel,
    node_id: Seq<char>,
    connections: Seq<Seq<char>>,
    info: NodeInfoModel,
    version: u64,
    now: u64,
) -> TopologyModel {
    if version > t.version {
        TopologyModel {
            connections: keyed_upsert(t.connections, node_id, connections),
            node_info: keyed_upsert(t.node_info, node_id, info),
            version,
            updated_at: now,
        }
    } else {
        t
    }
}

impl NetworkTopology {
    /// An empty topology at version 0, stamped `now`.
    pub fn empty_at(now: u64) -> (t: Self)
        ensures
            t@ == (TopologyModel { connections: seq![], node_info: seq![], version: 0, updated_at: now }),
    {
        let t = NetworkTopology { connections: Vec::new(), node_info: Vec::new(), version: 0, updated_at: now };
        assert(t@.connections =~= seq![]);
        assert(t@.node_info =~= seq![]);
        t
    }

    /// Apply an update from `node_id` at time `now` if `version` is newer
    /// than the current one.
    pub fn update_at(
        &mut self,
        node_id: String,
        connections: StringSet,
        node_info: NodeInfo,
        version: u64,
        now: u64,
    )
        ensures
            final(self)@ == topology_after_update(old(self)@, node_id@, connections@, node_info@, version, now),
    {
        if version > self.version {
            let ghost c0 = self@.connections;
            let ghost n0 = self@.node_info;
            let ghost ck = c0.map_values(|e: (Seq<char>, Seq<Seq<char>>)| e.0);
            let ghost nk = n0.map_values(|e: (Seq<char>, NodeInfoModel)| e.0);
            let ghost id = node_id@;
            let ghost cm = connections@;
            let ghost im = node_info@;
            let mut i: usize = 0;
            let mut found: Option<usize> = None;
            while i < self.connections.len()
                invariant
                    i <= self.connections@.len(),
                    self@.connections == c0,
                    id == node_id@,
                    ck == c0.map_values(|e: (Seq<char>, Seq<Seq<char>>)| e.0),
                    match found {
                        Some(p) => p < i && p == last_position(ck.take(i as int), id),
                        None => last_position(ck.take(i as int), id) == -1,
                    },
                decreases self.connections.len() - i,
            {
                proof {
                    assert(ck.take(i as int + 1).drop_last() =~= ck.take(i as int));
                    assert(ck[i as int] == self.connections@[i as int].0@);
                    assert(ck.take(i as int + 1).last() == ck[i as int]);
                }
                let hit = self.connections[i].0 == node_id;
                if hit {
                    found = Some(i);
                }
                i = i + 1;
            }
            assert(ck.take(ck.len() as int) =~= ck);
            match found {
                Some(p) => {
                    self.connections.set(p, (node_id.clone(), connections));
                },
                None => {
                    self.connections.push((node_id.clone(), connections));
                },
            }
            assert(self@.connections =~= keyed_upsert(c0, id, cm));
            let mut j: usize = 0;
            let mut found2: Option<usize> = None;
            while j < self.node_info.len()
                invariant
                    j <= self.node_info@.len(),
                    self@.node_info == n0,
                    id == node_id@,
                    nk == n0.map_values(|e: (Seq<char>, NodeInfoModel)| e.0),
                    match found2 {
                        Some(p) => p < j && p == last_position(nk.take(j as int), id),
                        None => last_position(nk.take(j as int), id) == -1,
                    },
                decreases self.node_info.len() - j,
            {
                proof {
                    assert(nk.take(j as int + 1).drop_last() =~= nk.take(j as int));
                    assert(nk[j as int] == self.node_info@[j as int].0@);
                    assert(nk.take(j as int + 1).last() == nk[j as int]);
                }
                if self.node_info[j].0 == node_id {
                    found2 = Some(j);
                }
                j = j + 1;
            }
            assert(nk.take(nk.len() as int) =~= nk);
            match found2 {
                Some(p) => {
                    self.node_info.set(p, (node_id, node_info));
                },
                None => {
                    self.node_info.push((node_id, node_info));
                },
            }
            assert(self@.node_info =~= keyed_upsert(n0, id, im));
            self.version = version;
            self.updated_at = now;
        }
    }
}

/// Abstract value of a [`MeshMessage`].
pub enum MeshMessageModel {
    RouteDiscovery { target: Seq<char>, origin: Seq<char>, trace: Seq<Seq<char>>, timestamp: u64 },
    RouteResponse { target: Seq<char>, origin: Seq<char>, route: Seq<Seq<char>>, cost: u32, timestamp: u64 },
    TopologyUpdate { node_id: Seq<char>, connections: Seq<Seq<char>>, node_info: NodeInfoModel, version: u64 },
    PartitionDetected { partition_id: Seq<char>, affected_nodes: Seq<Seq<char>>, timestamp: u64 },
    HealthPing { node_id: Seq<char>, timestamp: u64, sequence: u64 },
    HealthPong { node_id: Seq<char>, timestamp: u64, sequence: u64, original_timestamp: u64 },
}

/// Mesh network protocol messages.
#[derive(Debug)]
pub enum MeshMessage {
    /// Route discovery request.
    RouteDiscovery { target: String, origin: String, trace: Vec<String>, timestamp: u64 },
    /// Route discovery response.
    RouteResponse { target: String, origin: String, route: Vec<String>, cost: u32, timestamp: u64 },
    /// Topology update announcement.
    TopologyUpdate { node_id: String, connections: StringSet, node_info: NodeInfo, version: u64 },
    /// Network partition detection.
    PartitionDetected { partition_id: String, affected_nodes: StringSet, timestamp: u64 },
    /// Health check ping.
    HealthPing { node_id: String, timestamp: u64, sequence: u64 },
    /// Health check pong.
    HealthPong { node_id: String, timestamp: u64, sequence: u64, original_timestamp: u64 },
}

impl View for MeshMessage {
    type V = MeshMessageModel;

    open spec fn view(&self) -> MeshMessageModel {
        match self {
            MeshMessage::RouteDiscovery { target, origin, trace, timestamp } => MeshMessageModel::RouteDiscovery {
                target: target@,
                origin: origin@,
                trace: strings_model(trace@),
                timestamp: *timestamp,
            },
            MeshMessage::RouteResponse { target, origin, route, cost, timestamp } => MeshMessageModel::RouteResponse {
                target: target@,
                origin: origin@,
                route: strings_model(route@),
                cost: *cost,
                timestamp: *timestamp,
            },
            MeshMessage::TopologyUpdate { node_id, connections, node_info, version } => MeshMessageModel::TopologyUpdate {
                node_id: node_id@,
                connections: connections@,
                node_info: node_info@,
                version: *version,
            },
            MeshMessage::PartitionDetected { partition_id, affected_nodes, timestamp } => MeshMessageModel::PartitionDetected {
                partition_id: partition_id@,
                affected_nodes: affected_nodes@,
                timestamp: *timestamp,
            },
            MeshMessage::HealthPing { node_id, timestamp, sequence } => MeshMessageModel::HealthPing {
                node_id: node_id@,
                timestamp: *timestamp,
                sequence: *sequence,
            },
            MeshMessage::HealthPong { node_id, timestamp, sequence, original_timestamp } => MeshMessageModel::HealthPong {
                node_id: node_id@,
                timestamp: *timestamp,
                sequence: *sequence,
                original_timestamp: *original_timestamp,
            },
        }
    }
}

impl Clone for MeshMessage {
    /// A copy with the same contents.
    fn clone(&self) -> (c: Self)
        ensures
            c@ == self@,
    {
        match self {
            MeshMessage::RouteDiscovery { target, origin, trace, timestamp } => MeshMessage::RouteDiscovery {
                target: target.clone(),
                origin: origin.clone(),
                trace: clone_strings(trace),
                timestamp: *timestamp,
            },
            MeshMessage::RouteResponse { target, origin, route, cost, timestamp } => MeshMessage::RouteResponse {
                target: target.clone(),
                origin: origin.clone(),
                route: clone_strings(route),
                cost: *cost,
                timestamp: *timestamp,
            },
            MeshMessage::TopologyUpdate { node_id, connections, node_info, version } => MeshMessage::TopologyUpdate {
                node_id: node_id.clone(),
                connections: connections.clone(),
                node_info: node_info.clone(),
                version: *version,
            },
            MeshMessage::PartitionDetected { partition_id, affected_nodes, timestamp } => MeshMessage::PartitionDetected {
                partition_id: partition_id.clone(),
                affected_nodes: affected_nodes.clone(),
                timestamp: *timestamp,
            },
            MeshMessage::HealthPing { node_id, timestamp, sequence } => MeshMessage::HealthPing {
                node_id: node_id.clone(),
                timestamp: *timestamp,
                sequence: *sequence,
            },
            MeshMessage::HealthPong { node_id, timestamp, sequence, original_timestamp } => MeshMessage::HealthPong {
                node_id: node_id.clone(),
                timestamp: *timestamp,
                sequence: *sequence,
                original_timestamp: *original_timestamp,
            },
        }
    }
}

/// Mesh network statistics.
#[derive(Debug, Clone, Copy, PartialEq, Eq)]
pub struct MeshStats {
    pub routes_cached: usize,
    pub healthy_connections: usize,
    pub topology_version: u64,
    pub known_nodes: usize,
}


/// Destinations of routes.
pub open spec fn route_keys(routes: Seq<RouteModel>) -> Seq<Seq<char>> {
    routes.map_values(|r: RouteModel| r.destination)
}

/// Routes with `r` stored under its destination: replacing the route there
/// in place, or appended.
pub open spec fn route_upsert(routes: Seq<RouteModel>, r: RouteModel) -> Seq<RouteModel> {
    let p = last_position(route_keys(routes), r.destination);
    if p >= 0 {
        routes.update(p, r)
    } else {
        routes.push(r)
    }
}

/// Routes without the one to `key`.
pub open spec fn route_remove(routes: Seq<RouteModel>, key: Seq<char>) -> Seq<RouteModel> {
    let p = last_position(route_keys(routes), key);
    if p >= 0 {
        routes.remove(p)
    } else {
        routes
    }
}

/// Routes without those to any of `keys`, removed in order.
pub open spec fn routes_without(routes: Seq<RouteModel>, keys: Seq<Seq<char>>) -> Seq<RouteModel>
    decreases keys.len(),
{
    if keys.len() == 0 {
        routes
    } else {
        route_remove(routes_without(routes, keys.drop_last()), keys.last())
    }
}

/// Targets of pending discoveries.
pub open spec fn pending_keys(pending: Seq<(Seq<char>, Seq<char>, u64)>) -> Seq<Seq<char>> {
    pending.map_values(|e: (Seq<char>, Seq<char>, u64)| e.0)
}

/// Pending discoveries without the one for `key`.
pub open spec fn pending_remove(pending: Seq<(Seq<char>, Seq<char>, u64)>, key: Seq<char>) -> Seq<(Seq<char>, Seq<char>, u64)> {
    let p = last_position(pending_keys(pending), key);
    if p >= 0 {
        pending.remove(p)
    } else {
        pending
    }
}

/// Peers after each of `keys` in turn, if known, is marked disconnected.
pub open spec fn peers_disconnected(peers: Seq<PeerModel>, keys: Seq<Seq<char>>) -> Seq<PeerModel>
    decreases keys.len(),
{
    if keys.len() == 0 {
        peers
    } else {
        let s = peers_disconnected(peers, keys.drop_last());
        let p = position_of(s, keys.last());
        if p >= 0 {
            s.update(p, PeerModel { state: PeerState::Disconnected, ..s[p] })
        } else {
            s
        }
    }
}

/// `m` addressed to each of `peers` by id, in order.
pub open spec fn to_all(peers: Seq<PeerModel>, m: MeshMessageModel) -> Seq<(Seq<char>, MeshMessageModel)> {
    Seq::new(peers.len(), |i: int| (peers[i].id, m))
}

/// Recipient ids and message models of queued mesh messages.
pub open spec fn mesh_outbound(v: Seq<(String, MeshMessage)>) -> Seq<(Seq<char>, MeshMessageModel)> {
    v.map_values(|x: (String, MeshMessage)| (x.0@, x.1@))
}

/// Round-trip latency in milliseconds of a pong answering a ping sent at
/// `original` and received at `now` (0 when `original` is later; at most
/// `u64::MAX`).
pub open spec fn pong_latency_ms(now: u64, original: u64) -> u64 {
    let ms = sat_sub(now as int, original as int) * 1000;
    if ms > u64::MAX {
        u64::MAX
    } else {
        ms as u64
    }
}

/// Whether a healthy peer of `peers` has id `target`.
pub open spec fn directly_connected(peers: Seq<PeerModel>, target: Seq<char>) -> bool {
    exists|i: int| 0 <= i < healthy_of(peers).len() && #[trigger] healthy_of(peers)[i].id == target
}

/// The peers after the one with id `id`, if known, is seen at `now`.
pub open spec fn peers_seen(peers: Seq<PeerModel>, id: Seq<char>, now: u64) -> Seq<PeerModel> {
    if position_of(peers, id) >= 0 {
        peers.update(position_of(peers, id), seen_at(peers[position_of(peers, id)], now))
    } else {
        peers
    }
}

/// Which routes of `routes` have not expired at `now` under `ttl`.
pub open spec fn live_mask(routes: Seq<RouteModel>, ttl: u64, now: u64) -> Seq<bool> {
    Seq::new(routes.len(), |i: int| !route_expired(routes[i], ttl, now))
}

proof fn lemma_masked_routes(s: Seq<Route>, m: Seq<bool>)
    ensures
        masked(s, m).map_values(|r: Route| r@) == masked(s.map_values(|r: Route| r@), m),
    decreases s.len(),
{
    if s.len() > 0 {
        lemma_masked_routes(s.drop_last(), m.drop_last());
        assert(s.map_values(|r: Route| r@).drop_last() =~= s.drop_last().map_values(|r: Route| r@));
        assert(masked(s.drop_last(), m.drop_last()).push(s.last()).map_values(|r: Route| r@) =~= masked(
            s.drop_last(),
            m.drop_last(),
        ).map_values(|r: Route| r@).push(s.last()@));
    } else {
        assert(masked(s, m).map_values(|r: Route| r@) =~= masked(s.map_values(|r: Route| r@), m));
    }
}

/// Abstract state of a [`MeshNetwork`].
pub struct MeshState {
    pub node_id: Seq<char>,
    pub config: MeshConfig,
    pub routes: Seq<RouteModel>,
    pub topology: TopologyModel,
    pub pending: Seq<(Seq<char>, Seq<char>, u64)>,
    pub health_sequence: u64,
}

/// A route response whose hop count the node can compute: one meant for
/// the node, with a next hop, and a route length that is not a multiple
/// of 256.
pub open spec fn response_in_range(own: Seq<char>, m: MeshMessageModel) -> bool {
    match m {
        MeshMessageModel::RouteResponse { origin, route, .. } => origin == own && route.len() >= 2 ==> route.len()
            % 256 != 0,
        _ => true,
    }
}

/// The route installed by a response for `target` along `route` at `now`:
/// via the second node of the route, with one hop fewer than its length.
pub open spec fn installed_route(target: Seq<char>, route: Seq<Seq<char>>, cost: u32, now: u64) -> RouteModel {
    fresh_route(target, route[1], ((route.len() % 256) - 1) as u8, cost, now)
}

/// The node info a node announces of itself.
pub open spec fn own_node_info(own: Seq<char>) -> NodeInfoModel {
    NodeInfoModel {
        id: own,
        address: SocketAddress::V4 { octets: [127u8, 0u8, 0u8, 1u8], port: 0 },
        capabilities: seq![],
        load: 50,
        uptime: 0,
        version: Some("1.0.0"@),
    }
}

/// The ids of `s`, each once, in order of first appearance.
pub open spec fn distinct_ids(s: Seq<PeerModel>) -> Seq<Seq<char>>
    decreases s.len(),
{
    if s.len() == 0 {
        seq![]
    } else if distinct_ids(s.drop_last()).contains(s.last().id) {
        distinct_ids(s.drop_last())
    } else {
        distinct_ids(s.drop_last()).push(s.last().id)
    }
}

/// Handling mesh message `m` at time `now` takes the mesh from `s` to `t`
/// and the peer table from `peers` to `peers2`, and queues `out`; the peer
/// manager belongs to node `peer_node` and keeps at most `max_peers`.
pub open spec fn mesh_handled(
    s: MeshState,
    peers: Seq<PeerModel>,
    peer_node: Seq<char>,
    max_peers: usize,
    m: MeshMessageModel,
    now: u64,
    t: MeshState,
    peers2: Seq<PeerModel>,
    out: Seq<(Seq<char>, MeshMessageModel)>,
) -> bool {
    match m {
        MeshMessageModel::RouteDiscovery { target, origin, trace, timestamp } => {
            &&& t == s
            &&& peers2 == peers
            &&& if trace.contains(s.node_id) {
                out.len() == 0
            } else if target == s.node_id {
                out == seq![
                    (
                        origin,
                        MeshMessageModel::RouteResponse {
                            target,
                            origin,
                            route: trace.push(s.node_id),
                            cost: (trace.len() + 1) as u32,
                            timestamp,
                        },
                    ),
                ]
            } else {
                out == to_all(
                    healthy_of(peers),
                    MeshMessageModel::RouteDiscovery { target, origin, trace: trace.push(s.node_id), timestamp },
                )
            }
        },
        MeshMessageModel::RouteResponse { target, origin, route, cost, .. } => {
            &&& peers2 == peers
            &&& out.len() == 0
            &&& t == if origin == s.node_id && route.len() >= 2 {
                MeshState {
                    routes: route_upsert(s.routes, installed_route(target, route, cost, now)),
                    pending: pending_remove(s.pending, target),
                    ..s
                }
            } else {
                s
            }
        },
        MeshMessageModel::TopologyUpdate { node_id, connections, node_info, version } => {
            &&& peers2 == peers
            &&& out.len() == 0
            &&& t == (MeshState {
                topology: topology_after_update(s.topology, node_id, connections, node_info, version, now),
                ..s
            })
        },
        MeshMessageModel::PartitionDetected { affected_nodes, .. } => {
            &&& peers2 == peers_disconnected(peers, affected_nodes)
            &&& out.len() == 0
            &&& t == (MeshState { routes: routes_without(s.routes, affected_nodes), ..s })
        },
        MeshMessageModel::HealthPing { node_id, timestamp, sequence } => {
            &&& t == s
            &&& peers2 == peers
            &&& out == seq![
                (
                    node_id,
                    MeshMessageModel::HealthPong {
                        node_id: s.node_id,
                        timestamp: now,
                        sequence,
                        original_timestamp: timestamp,
                    },
                ),
            ]
        },
        MeshMessageModel::HealthPong { node_id, original_timestamp, .. } => {
            &&& t == s
            &&& out.len() == 0
            &&& peers2 == if position_of(peers, node_id) >= 0 {
                after_add(
                    peers,
                    PeerModel {
                        latency_ms: Some(pong_latency_ms(now, original_timestamp)),
                        bandwidth_estimate: Some(0),
                        ..peers[position_of(peers, node_id)]
                    },
                    peer_node,
                    max_peers,
                )
            } else {
                peers
            }
        },
    }
}

/// Starting a discovery for `target` at `now` takes `s` to `t` and queues
/// `out`: nothing happens while one is pending; otherwise it is recorded
/// as pending and a discovery request traced through this node goes to
/// every healthy peer.
pub open spec fn discovery_started(
    s: MeshState,
    peers: Seq<PeerModel>,
    target: Seq<char>,
    now: u64,
    t: MeshState,
    out: Seq<(Seq<char>, MeshMessageModel)>,
) -> bool {
    if last_position(pending_keys(s.pending), target) >= 0 {
        t == s && out.len() == 0
    } else {
        &&& t == (MeshState { pending: s.pending.push((target, s.node_id, now)), ..s })
        &&& out == to_all(
            healthy_of(peers),
            MeshMessageModel::RouteDiscovery { target, origin: s.node_id, trace: seq![s.node_id], timestamp: now },
        )
    }
}

/// Routing a message to `target` at `now` takes the mesh from `s` to `t`
/// and the peers from `peers` to `peers2`, with result `r` and queued
/// messages `out`: a healthy direct peer is marked seen; a live cached
/// route is marked used; otherwise a discovery starts and the result is a
/// network error.
pub open spec fn routed(
    s: MeshState,
    peers: Seq<PeerModel>,
    target: Seq<char>,
    now: u64,
    t: MeshState,
    peers2: Seq<PeerModel>,
    r: Result<(), SynapseError>,
    out: Seq<(Seq<char>, MeshMessageModel)>,
) -> bool {
    let p = last_position(route_keys(s.routes), target);
    if directly_connected(peers, target) {
        &&& r is Ok
        &&& out.len() == 0
        &&& t == s
        &&& peers2 == peers_seen(peers, target, now)
    } else if p >= 0 && !route_expired(s.routes[p], s.config.route_cache_ttl, now) {
        &&& r is Ok
        &&& out.len() == 0
        &&& t == (MeshState { routes: s.routes.update(p, RouteModel { last_used: now, ..s.routes[p] }), ..s })
        &&& peers2 == peers
    } else {
        &&& r matches Err(SynapseError::Network { message, endpoint }) && message@ == "Route discovery in progress"@
            && endpoint@ == target
        &&& discovery_started(s, peers, target, now, t, out)
        &&& peers2 == peers
    }
}

/// The mesh network state of one node: routes, topology, pending route
/// discoveries and the health-ping counter. The peers it routes over are
/// those of the node's peer manager, passed to each operation.
#[derive(Debug)]
pub struct MeshNetwork {
    /// Our node identifier.
    node_id: String,
    /// Mesh configuration.
    config: MeshConfig,
    /// Routing table, keyed by destination.
    routing_table: Vec<Route>,
    /// Network topology.
    topology: NetworkTopology,
    /// Pending route discoveries: target, origin and start time.
    pending_discoveries: Vec<(String, String, u64)>,
    /// Health check sequence counter.
    health_sequence: u64,
}

impl View for MeshNetwork {
    type V = MeshState;

    closed spec fn view(&self) -> MeshState {
        MeshState {
            node_id: self.node_id@,
            config: self.config,
            routes: self.routing_table@.map_values(|r: Route| r@),
            topology: self.topology@,
            pending: self.pending_discoveries@.map_values(|e: (String, String, u64)| (e.0@, e.1@, e.2)),
            health_sequence: self.health_sequence,
        }
    }
}

impl MeshNetwork {
    /// A mesh network for node `node_id` with no routes, an empty topology
    /// stamped `now` and no pending discoveries.
    pub fn new_at(node_id: String, config: MeshConfig, now: u64) -> (m: Self)
        ensures
            m@ == (MeshState {
                node_id: node_id@,
                config,
                routes: seq![],
                topology: TopologyModel { connections: seq![], node_info: seq![], version: 0, updated_at: now },
                pending: seq![],
                health_sequence: 0,
            }),
    {
        let m = MeshNetwork {
            node_id,
            config,
            routing_table: Vec::new(),
            topology: NetworkTopology::empty_at(now),
            pending_discoveries: Vec::new(),
            health_sequence: 0,
        };
        assert(m@.routes =~= seq![]);
        assert(m@.pending =~= seq![]);
        m
    }

    /// A mesh network for node `node_id`, its topology stamped now.
    pub fn new(node_id: String, config: MeshConfig) -> (m: Self)
        ensures
            m@ == (MeshState {
                node_id: node_id@,
                config,
                routes: seq![],
                topology: TopologyModel { connections: seq![], node_info: seq![], version: 0, updated_at: m@.topology.updated_at },
                pending: seq![],
                health_sequence: 0,
            }),
    {
        let now = unix_time_secs();
        Self::new_at(node_id, config, now)
    }

    /// `message` addressed to each healthy peer of `peers`, by id.
    pub fn broadcast_to_neighbors(&self, peers: &PeerManager, message: MeshMessage) -> (out: Vec<(String, MeshMessage)>)
        ensures
            mesh_outbound(out@) == to_all(healthy_of(peers.table()), message@),
    {
        let healthy = peers.get_healthy_peers();
        let mut out: Vec<(String, MeshMessage)> = Vec::new();
        let mut i: usize = 0;
        while i < healthy.len()
            invariant
                i <= healthy@.len(),
                peers_model(healthy@) == healthy_of(peers.table()),
                mesh_outbound(out@) == to_all(peers_model(healthy@).take(i as int), message@),
            decreases healthy.len() - i,
        {
            let ghost before = mesh_outbound(out@);
            out.push((healthy[i].id.clone(), message.clone()));
            assert(mesh_outbound(out@) =~= to_all(peers_model(healthy@).take(i as int + 1), message@)) by {
                assert(mesh_outbound(out@) =~= before.push((healthy@[i as int].id@, message@)));
            }
            i = i + 1;
        }
        assert(peers_model(healthy@).take(healthy@.len() as int) =~= peers_model(healthy@));
        out
    }

    /// Position of the route to `key`, if any.
    fn find_route(&self, key: &String) -> (r: Option<usize>)
        ensures
            match r {
                Some(p) => p == last_position(route_keys(self@.routes), key@) && p < self@.routes.len(),
                None => last_position(route_keys(self@.routes), key@) == -1,
            },
    {
        let ghost ks = route_keys(self@.routes);
        let mut i: usize = 0;
        let mut found: Option<usize> = None;
        while i < self.routing_table.len()
            invariant
                i <= self.routing_table@.len(),
                ks == route_keys(self@.routes),
                match found {
                    Some(p) => p < i && p == last_position(ks.take(i as int), key@),
                    None => last_position(ks.take(i as int), key@) == -1,
                },
            decreases self.routing_table.len() - i,
        {
            proof {
                assert(ks.take(i as int + 1).drop_last() =~= ks.take(i as int));
                assert(ks.take(i as int + 1).last() == self.routing_table@[i as int].destination@);
            }
            if self.routing_table[i].destination == *key {
                found = Some(i);
            }
            i = i + 1;
        }
        assert(ks.take(ks.len() as int) =~= ks);
        found
    }

    /// Position of the pending discovery for `key`, if any.
    fn find_pending(&self, key: &String) -> (r: Option<usize>)
        ensures
            match r {
                Some(p) => p == last_position(pending_keys(self@.pending), key@) && p < self@.pending.len(),
                None => last_position(pending_keys(self@.pending), key@) == -1,
            },
    {
        let ghost ks = pending_keys(self@.pending);
        let mut i: usize = 0;
        let mut found: Option<usize> = None;
        while i < self.pending_discoveries.len()
            invariant
                i <= self.pending_discoveries@.len(),
                ks == pending_keys(self@.pending),
                match found {
                    Some(p) => p < i && p == last_position(ks.take(i as int), key@),
                    None => last_position(ks.take(i as int), key@) == -1,
                },
            decreases self.pending_discoveries.len() - i,
        {
            proof {
                assert(ks.take(i as int + 1).drop_last() =~= ks.take(i as int));
                assert(ks.take(i as int + 1).last() == self.pending_discoveries@[i as int].0@);
            }
            if self.pending_discoveries[i].0 == *key {
                found = Some(i);
            }
            i = i + 1;
        }
        assert(ks.take(ks.len() as int) =~= ks);
        found
    }

    /// Store `route` under its destination.
    fn upsert_route(&mut self, route: Route)
        ensures
            final(self)@ == (MeshState { routes: route_upsert(old(self)@.routes, route@), ..old(self)@ }),
    {
        let ghost before = self@.routes;
        let ghost r = route@;
        match self.find_route(&route.destination) {
            Some(p) => {
                self.routing_table.set(p, route);
            },
            None => {
                self.routing_table.push(route);
            },
        }
        assert(self@.routes =~= route_upsert(before, r));
    }

    /// Remove the route to `key`, if any.
    fn remove_route(&mut self, key: &String)
        ensures
            final(self)@ == (MeshState { routes: route_remove(old(self)@.routes, key@), ..old(self)@ }),
    {
        let ghost before = self@.routes;
        match self.find_route(key) {
            Some(p) => {
                self.routing_table.remove(p);
            },
            None => {},
        }
        assert(self@.routes =~= route_remove(before, key@));
    }

    /// Remove the pending discovery for `key`, if any.
    fn remove_pending(&mut self, key: &String)
        ensures
            final(self)@ == (MeshState { pending: pending_remove(old(self)@.pending, key@), ..old(self)@ }),
    {
        let ghost before = self@.pending;
        match self.find_pending(key) {
            Some(p) => {
                self.pending_discoveries.remove(p);
            },
            None => {},
        }
        assert(self@.pending =~= pending_remove(before, key@));
    }

    /// Start discovering a route to `target` at time `now`, unless a
    /// discovery for it is pending.
    pub fn discover_route_at(&mut self, peers: &PeerManager, target: &String, now: u64) -> (out: Vec<(String, MeshMessage)>)
        ensures
            discovery_started(old(self)@, peers.table(), target@, now, final(self)@, mesh_outbound(out@)),
    {
        match self.find_pending(target) {
            Some(_) => {
                let out: Vec<(String, MeshMessage)> = Vec::new();
                assert(mesh_outbound(out@) =~= seq![]);
                out
            },
            None => {
                let ghost before = self@.pending;
                self.pending_discoveries.push((target.clone(), self.node_id.clone(), now));
                assert(self@.pending =~= before.push((target@, self@.node_id, now)));
                let mut trace: Vec<String> = Vec::new();
                trace.push(self.node_id.clone());
                assert(strings_model(trace@) =~= seq![self@.node_id]);
                let discovery = MeshMessage::RouteDiscovery {
                    target: target.clone(),
                    origin: self.node_id.clone(),
                    trace,
                    timestamp: now,
                };
                self.broadcast_to_neighbors(peers, discovery)
            },
        }
    }

    /// Whether a healthy peer of `peers` has id `target`.
    fn has_direct(peers: &PeerManager, target: &String) -> (b: bool)
        ensures
            b == directly_connected(peers.table(), target@),
    {
        let healthy = peers.get_healthy_peers();
        let mut i: usize = 0;
        while i < healthy.len()
            invariant
                i <= healthy@.len(),
                peers_model(healthy@) == healthy_of(peers.table()),
                forall|j: int| 0 <= j < i ==> #[trigger] healthy@[j].id@ != target@,
            decreases healthy.len() - i,
        {
            if healthy[i].id == *target {
                assert(healthy_of(peers.table())[i as int].id == target@);
                return true;
            }
            i = i + 1;
        }
        proof {
            if directly_connected(peers.table(), target@) {
                let w = choose|w: int|
                    0 <= w < healthy_of(peers.table()).len() && #[trigger] healthy_of(peers.table())[w].id == target@;
                assert(healthy@[w].id@ == target@);
            }
        }
        false
    }

    /// Route `message` to `target` at time `now`. A healthy direct peer is
    /// marked seen and the message goes to it; a cached route that has not
    /// expired is marked used and the message goes via its next hop.
    /// Otherwise a route discovery starts (its requests are returned) and
    /// the result is a network error: the message is not sent.
    pub fn route_message_at(&mut self, peers: &mut PeerManager, target: &String, message: Message, now: u64) -> (r: (
        Result<(), SynapseError>,
        Vec<(String, MeshMessage)>,
    ))
        ensures
            final(peers).own_id() == old(peers).own_id(),
            final(peers).settings() == old(peers).settings(),
            routed(
                old(self)@,
                old(peers).table(),
                target@,
                now,
                final(self)@,
                final(peers).table(),
                r.0,
                mesh_outbound(r.1@),
            ),
    {
        if Self::has_direct(peers, target) {
            let _ = peers.mark_peer_seen_at(target, now);
            let out: Vec<(String, MeshMessage)> = Vec::new();
            return (Ok(()), out);
        }
        match self.find_route(target) {
            Some(p) => {
                if !self.routing_table[p].is_expired_at(self.config.route_cache_ttl, now) {
                    let ghost before = self@.routes;
                    let mut route = self.routing_table[p].clone();
                    route.mark_used_at(now);
                    self.routing_table.set(p, route);
                    assert(self@.routes =~= before.update(p as int, RouteModel { last_used: now, ..before[p as int] }));
                    let out: Vec<(String, MeshMessage)> = Vec::new();
                    return (Ok(()), out);
                }
            },
            None => {},
        }
        let out = self.discover_route_at(peers, target, now);
        let msg = "Route discovery in progress";
        let err = SynapseError::network(String::from_str(msg), target.clone());
        proof {
            reveal_strlit("Route discovery in progress");
        }
        (Err(err), out)
    }

    /// Route `message` to `target` by the current clock.
    pub fn route_message(&mut self, peers: &mut PeerManager, target: &String, message: Message) -> (r: (
        Result<(), SynapseError>,
        Vec<(String, MeshMessage)>,
    ))
        ensures
            final(peers).own_id() == old(peers).own_id(),
            final(peers).settings() == old(peers).settings(),
            exists|now: u64|
                #[trigger] routed(
                    old(self)@,
                    old(peers).table(),
                    target@,
                    now,
                    final(self)@,
                    final(peers).table(),
                    r.0,
                    mesh_outbound(r.1@),
                ),
    {
        let now = unix_time_secs();
        self.route_message_at(peers, target, message, now)
    }

    /// Remove the routes to the affected nodes and mark those peers
    /// disconnected.
    fn handle_partition(&mut self, peers: &mut PeerManager, affected: &StringSet)
        ensures
            final(self)@ == (MeshState { routes: routes_without(old(self)@.routes, affected@), ..old(self)@ }),
            final(peers).table() == peers_disconnected(old(peers).table(), affected@),
            final(peers).own_id() == old(peers).own_id(),
            final(peers).settings() == old(peers).settings(),
    {
        let n = affected.len();
        let mut i: usize = 0;
        while i < n
            invariant
                i <= n,
                n == affected@.len(),
                self@ == (MeshState { routes: routes_without(old(self)@.routes, affected@.take(i as int)), ..old(self)@ }),
            decreases n - i,
        {
            proof {
                assert(affected@.take(i as int + 1).drop_last() =~= affected@.take(i as int));
            }
            self.remove_route(affected.item_at(i));
            i = i + 1;
        }
        let mut j: usize = 0;
        while j < n
            invariant
                j <= n,
                n == affected@.len(),
                peers.table() == peers_disconnected(old(peers).table(), affected@.take(j as int)),
                peers.own_id() == old(peers).own_id(),
                peers.settings() == old(peers).settings(),
            decreases n - j,
        {
            proof {
                assert(affected@.take(j as int + 1).drop_last() =~= affected@.take(j as int));
            }
            let _ = peers.update_peer_state(affected.item_at(j), PeerState::Disconnected);
            j = j + 1;
        }
        assert(affected@.take(n as int) =~= affected@);
    }

    /// Handle mesh message `message` at time `now`. A route discovery that
    /// has already passed through this node is dropped; one for this node
    /// is answered to its origin with the full trace; others are passed on
    /// to every healthy peer. A route response for this node installs a
    /// route via the second node of the route and ends the pending
    /// discovery. A topology update is applied when its version is newer. A
    /// partition removes the affected routes and disconnects the affected
    /// peers. A ping is answered with a pong; a pong records the round-trip
    /// latency of its peer. Always succeeds.
    pub fn handle_mesh_message_at(&mut self, peers: &mut PeerManager, from: &String, message: MeshMessage, now: u64) -> (r: Result<
        Vec<(String, MeshMessage)>,
        SynapseError,
    >)
        requires
            response_in_range(old(self)@.node_id, message@),
        ensures
            r is Ok,
            mesh_handled(
                old(self)@,
                old(peers).table(),
                old(peers).own_id(),
                old(peers).settings().max_peers,
                message@,
                now,
                final(self)@,
                final(peers).table(),
                mesh_outbound(r->Ok_0@),
            ),
            final(peers).own_id() == old(peers).own_id(),
            final(peers).settings() == old(peers).settings(),
    {
        let ghost m = message@;
        let mut out: Vec<(String, MeshMessage)> = Vec::new();
        assert(mesh_outbound(out@) =~= seq![]);
        match message {
            MeshMessage::RouteDiscovery { target, origin, trace, timestamp } => {
                let mut seen = false;
                let mut i: usize = 0;
                while i < trace.len()
                    invariant
                        i <= trace@.len(),
                        seen == strings_model(trace@).take(i as int).contains(self@.node_id),
                    decreases trace.len() - i,
                {
                    proof {
                        let t = strings_model(trace@).take(i as int + 1);
                        let t0 = strings_model(trace@).take(i as int);
                        assert(t.drop_last() =~= t0);
                        if t.contains(self@.node_id) {
                            let w = choose|w: int| 0 <= w < t.len() && t[w] == self@.node_id;
                            if w < i {
                                assert(t0[w] == self@.node_id);
                            }
                        }
                        if t0.contains(self@.node_id) {
                            let w = choose|w: int| 0 <= w < t0.len() && t0[w] == self@.node_id;
                            assert(t[w] == self@.node_id);
                        }
                        if trace@[i as int]@ == self@.node_id {
                            assert(t[i as int] == self@.node_id);
                        }
                    }
                    if trace[i] == self.node_id {
                        seen = true;
                    }
                    i = i + 1;
                }
                assert(strings_model(trace@).take(trace@.len() as int) =~= strings_model(trace@));
                if seen {
                    let r: Result<Vec<(String, MeshMessage)>, SynapseError> = Ok(out);
                    return r;
                }
                let mut trace = trace;
                let ghost t0 = strings_model(trace@);
                trace.push(self.node_id.clone());
                assert(strings_model(trace@) =~= t0.push(self@.node_id));
                if target == self.node_id {
                    let cost = trace.len() as u32;
                    let response = MeshMessage::RouteResponse {
                        target: target,
                        origin: origin.clone(),
                        route: trace,
                        cost,
                        timestamp,
                    };
                    out.push((origin, response));
                    assert(mesh_outbound(out@) =~= seq![(out@[0].0@, out@[0].1@)]);
                } else {
                    let discovery = MeshMessage::RouteDiscovery { target, origin, trace, timestamp };
                    out = self.broadcast_to_neighbors(peers, discovery);
                }
            },
            MeshMessage::RouteResponse { target, origin, route, cost, timestamp: _ } => {
                if origin == self.node_id && route.len() >= 2 {
                    let hops = (route.len() % 256) as u8 - 1;
                    let next_hop = route[1].clone();
                    let new_route = Route::new_at(target.clone(), next_hop, hops, cost, now);
                    assert(new_route@ == installed_route(target@, strings_model(route@), cost, now));
                    self.upsert_route(new_route);
                    self.remove_pending(&target);
                }
            },
            MeshMessage::TopologyUpdate { node_id, connections, node_info, version } => {
                self.topology.update_at(node_id, connections, node_info, version, now);
            },
            MeshMessage::PartitionDetected { partition_id: _, affected_nodes, timestamp: _ } => {
                self.handle_partition(peers, &affected_nodes);
            },
            MeshMessage::HealthPing { node_id, timestamp, sequence } => {
                let pong = MeshMessage::HealthPong {
                    node_id: self.node_id.clone(),
                    timestamp: now,
                    sequence,
                    original_timestamp: timestamp,
                };
                out.push((node_id, pong));
                assert(mesh_outbound(out@) =~= seq![(out@[0].0@, out@[0].1@)]);
            },
            MeshMessage::HealthPong { node_id, timestamp: _, sequence: _, original_timestamp } => {
                let latency = now.saturating_sub(original_timestamp);
                let ms = match latency.checked_mul(1000) {
                    Some(x) => x,
                    None => u64::MAX,
                };
                assert(ms == pong_latency_ms(now, original_timestamp));
                match peers.get_peer(&node_id) {
                    Some(peer) => {
                        let mut peer = peer;
                        peer.update_metrics(ms, 0);
                        let _ = peers.add_peer(peer);
                    },
                    None => {},
                }
            },
        }
        let r: Result<Vec<(String, MeshMessage)>, SynapseError> = Ok(out);
        r
    }

    /// Handle mesh message `message` by the current clock.
    pub fn handle_mesh_message(&mut self, peers: &mut PeerManager, from: &String, message: MeshMessage) -> (r: Result<
        Vec<(String, MeshMessage)>,
        SynapseError,
    >)
        requires
            response_in_range(old(self)@.node_id, message@),
        ensures
            r is Ok,
            exists|now: u64|
                #[trigger] mesh_handled(
                    old(self)@,
                    old(peers).table(),
                    old(peers).own_id(),
                    old(peers).settings().max_peers,
                    message@,
                    now,
                    final(self)@,
                    final(peers).table(),
                    mesh_outbound(r->Ok_0@),
                ),
            final(peers).own_id() == old(peers).own_id(),
            final(peers).settings() == old(peers).settings(),
    {
        let now = unix_time_secs();
        self.handle_mesh_message_at(peers, from, message, now)
    }

    /// One topology round: an update listing the ids of the healthy peers
    /// and this node's information, under the next topology version, for
    /// every healthy peer.
    pub fn topology_round(&self, peers: &PeerManager) -> (out: Vec<(String, MeshMessage)>)
        requires
            self@.topology.version < u64::MAX,
        ensures
            mesh_outbound(out@) == to_all(
                healthy_of(peers.table()),
                MeshMessageModel::TopologyUpdate {
                    node_id: self@.node_id,
                    connections: distinct_ids(healthy_of(peers.table())),
                    node_info: own_node_info(self@.node_id),
                    version: (self@.topology.version + 1) as u64,
                },
            ),
    {
        let healthy = peers.get_healthy_peers();
        let mut connections = StringSet::new();
        let mut i: usize = 0;
        while i < healthy.len()
            invariant
                i <= healthy@.len(),
                connections@ == distinct_ids(peers_model(healthy@).take(i as int)),
            decreases healthy.len() - i,
        {
            proof {
                let t = peers_model(healthy@).take(i as int + 1);
                assert(t.drop_last() =~= peers_model(healthy@).take(i as int));
                assert(t.last() == healthy@[i as int]@);
            }
            connections.insert(healthy[i].id.clone());
            i = i + 1;
        }
        assert(peers_model(healthy@).take(healthy@.len() as int) =~= peers_model(healthy@));
        let version_text = "1.0.0";
        let node_info = NodeInfo {
            id: self.node_id.clone(),
            address: SocketAddress::v4(127, 0, 0, 1, 0),
            capabilities: StringSet::new(),
            load: 50,
            uptime: 0,
            version: Some(String::from_str(version_text)),
        };
        assert(node_info@ == own_node_info(self@.node_id));
        let update = MeshMessage::TopologyUpdate {
            node_id: self.node_id.clone(),
            connections,
            node_info,
            version: self.topology.version + 1,
        };
        self.broadcast_to_neighbors(peers, update)
    }

    /// One health round at time `now`: the sequence counter advances and a
    /// ping carrying it goes to every healthy peer.
    pub fn health_ping_round_at(&mut self, peers: &PeerManager, now: u64) -> (out: Vec<(String, MeshMessage)>)
        requires
            old(self)@.health_sequence < u64::MAX,
        ensures
            final(self)@ == (MeshState { health_sequence: (old(self)@.health_sequence + 1) as u64, ..old(self)@ }),
            mesh_outbound(out@) == to_all(
                healthy_of(peers.table()),
                MeshMessageModel::HealthPing {
                    node_id: old(self)@.node_id,
                    timestamp: now,
                    sequence: (old(self)@.health_sequence + 1) as u64,
                },
            ),
    {
        self.health_sequence = self.health_sequence + 1;
        let ping = MeshMessage::HealthPing { node_id: self.node_id.clone(), timestamp: now, sequence: self.health_sequence };
        self.broadcast_to_neighbors(peers, ping)
    }

    /// One health round by the current clock.
    pub fn health_ping_round(&mut self, peers: &PeerManager) -> (out: Vec<(String, MeshMessage)>)
        requires
            old(self)@.health_sequence < u64::MAX,
        ensures
            final(self)@ == (MeshState { health_sequence: (old(self)@.health_sequence + 1) as u64, ..old(self)@ }),
            exists|now: u64|
                mesh_outbound(out@) == #[trigger] to_all(
                    healthy_of(peers.table()),
                    MeshMessageModel::HealthPing {
                        node_id: old(self)@.node_id,
                        timestamp: now,
                        sequence: (old(self)@.health_sequence + 1) as u64,
                    },
                ),
    {
        let now = unix_time_secs();
        self.health_ping_round_at(peers, now)
    }

    /// Drop the routes expired at time `now`, keeping the rest in order.
    pub fn route_cleanup_at(&mut self, now: u64)
        ensures
            final(self)@ == (MeshState {
                routes: masked(old(self)@.routes, live_mask(old(self)@.routes, old(self)@.config.route_cache_ttl, now)),
                ..old(self)@
            }),
    {
        let ghost rs = self@.routes;
        let ttl = self.config.route_cache_ttl;
        let mut flags: Vec<bool> = Vec::new();
        let mut i: usize = 0;
        while i < self.routing_table.len()
            invariant
                i <= self.routing_table@.len(),
                rs == self@.routes,
                ttl == self@.config.route_cache_ttl,
                flags@.len() == i,
                forall|j: int| 0 <= j < i ==> #[trigger] flags@[j] == !route_expired(rs[j], ttl, now),
            decreases self.routing_table.len() - i,
        {
            flags.push(!self.routing_table[i].is_expired_at(ttl, now));
            i = i + 1;
        }
        assert(flags@ =~= live_mask(rs, ttl, now));
        let ghost before = self.routing_table@;
        retain_flagged(&mut self.routing_table, &flags);
        proof {
            lemma_masked_routes(before, flags@);
        }
    }

    /// Drop the routes expired by the current clock.
    pub fn route_cleanup(&mut self)
        ensures
            exists|now: u64|
                final(self)@.routes == masked(
                    old(self)@.routes,
                    #[trigger] live_mask(old(self)@.routes, old(self)@.config.route_cache_ttl, now),
                ),
            final(self)@ == (MeshState { routes: final(self)@.routes, ..old(self)@ }),
    {
        let now = unix_time_secs();
        self.route_cleanup_at(now);
    }

    /// The health-ping sequence counter.
    pub fn health_sequence(&self) -> (n: u64)
        ensures
            n == self@.health_sequence,
    {
        self.health_sequence
    }

    /// The topology version.
    pub fn topology_version(&self) -> (v: u64)
        ensures
            v == self@.topology.version,
    {
        self.topology.version
    }

    /// Whether the node has fewer healthy peers than the configured
    /// minimum, a sign of a network partition.
    pub fn partition_suspected(&self, peers: &PeerManager) -> (b: bool)
        ensures
            b == (healthy_of(peers.table()).len() < self@.config.min_connections),
    {
        let healthy = peers.get_healthy_peers();
        healthy.len() < self.config.min_connections
    }

    /// Mesh statistics: cached routes, healthy peers, topology version and
    /// known nodes.
    pub fn get_stats(&self, peers: &PeerManager) -> (st: MeshStats)
        ensures
            st == (MeshStats {
                routes_cached: self@.routes.len() as usize,
                healthy_connections: healthy_of(peers.table()).len() as usize,
                topology_version: self@.topology.version,
                known_nodes: self@.topology.node_info.len() as usize,
            }),
    {
        let healthy = peers.get_healthy_peers();
        MeshStats {
            routes_cached: self.routing_table.len(),
            healthy_connections: healthy.len(),
            topology_version: self.topology.version,
            known_nodes: self.topology.node_info.len(),
        }
    }
}

/// A discovery request whose trace holds the node is dropped there.
proof fn lemma_visited_discovery_dropped(
    s: MeshState,
    peers: Seq<PeerModel>,
    peer_node: Seq<char>,
    max_peers: usize,
    m: MeshMessageModel,
    now: u64,
    t: MeshState,
    peers2: Seq<PeerModel>,
    out: Seq<(Seq<char>, MeshMessageModel)>,
)
    requires
        m matches MeshMessageModel::RouteDiscovery { trace, .. } && trace.contains(s.node_id),
        mesh_handled(s, peers, peer_node, max_peers, m, now, t, peers2, out),
    ensures
        t == s,
        peers2 == peers,
        out.len() == 0,
{
}

/// Loop freedom of route discovery: a discovery request a node passes on
/// is dropped, with no effect and no output, if it ever reaches that node
/// again.
pub proof fn lemma_discovery_never_revisits(
    s: MeshState,
    peers: Seq<PeerModel>,
    peer_node: Seq<char>,
    max_peers: usize,
    m: MeshMessageModel,
    now: u64,
    t: MeshState,
    peers2: Seq<PeerModel>,
    out: Seq<(Seq<char>, MeshMessageModel)>,
    i: int,
    s2: MeshState,
    peers3: Seq<PeerModel>,
    peer_node2: Seq<char>,
    max_peers2: usize,
    now2: u64,
    t2: MeshState,
    peers4: Seq<PeerModel>,
    out2: Seq<(Seq<char>, MeshMessageModel)>,
)
    requires
        mesh_handled(s, peers, peer_node, max_peers, m, now, t, peers2, out),
        0 <= i < out.len(),
        out[i].1 is RouteDiscovery,
        s2.node_id == s.node_id,
        mesh_handled(s2, peers3, peer_node2, max_peers2, out[i].1, now2, t2, peers4, out2),
    ensures
        t2 == s2,
        peers4 == peers3,
        out2.len() == 0,
{
    match m {
        MeshMessageModel::RouteDiscovery { target, origin, trace, timestamp } => {
            let fwd = trace.push(s.node_id);
            assert(fwd[fwd.len() - 1] == s.node_id);
            assert(fwd.contains(s.node_id));
            assert(out[i].1 == MeshMessageModel::RouteDiscovery { target, origin, trace: fwd, timestamp });
        },
        _ => {},
    }
    lemma_visited_discovery_dropped(s2, peers3, peer_node2, max_peers2, out[i].1, now2, t2, peers4, out2);
}

/// A discovery a node starts is likewise dropped if it reaches the node
/// again.
pub proof fn lemma_started_discovery_never_revisits(
    s: MeshState,
    peers: Seq<PeerModel>,
    target: Seq<char>,
    now: u64,
    t: MeshState,
    out: Seq<(Seq<char>, MeshMessageModel)>,
    i: int,
    s2: MeshState,
    peers3: Seq<PeerModel>,
    peer_node2: Seq<char>,
    max_peers2: usize,
    now2: u64,
    t2: MeshState,
    peers4: Seq<PeerModel>,
    out2: Seq<(Seq<char>, MeshMessageModel)>,
)
    requires
        discovery_started(s, peers, target, now, t, out),
        0 <= i < out.len(),
        s2.node_id == s.node_id,
        mesh_handled(s2, peers3, peer_node2, max_peers2, out[i].1, now2, t2, peers4, out2),
    ensures
        t2 == s2,
        peers4 == peers3,
        out2.len() == 0,
{
    assert(seq![s.node_id][0] == s.node_id);
    assert(seq![s.node_id].contains(s.node_id));
    lemma_visited_discovery_dropped(s2, peers3, peer_node2, max_peers2, out[i].1, now2, t2, peers4, out2);
}

/// The topology version never decreases: handling any mesh message leaves
/// it at least where it was.
pub proof fn lemma_topology_version_monotone(
    s: MeshState,
    peers: Seq<PeerModel>,
    peer_node: Seq<char>,
    max_peers: usize,
    m: MeshMessageModel,
    now: u64,
    t: MeshState,
    peers2: Seq<PeerModel>,
    out: Seq<(Seq<char>, MeshMessageModel)>,
)
    requires
        mesh_handled(s, peers, peer_node, max_peers, m, now, t, peers2, out),
    ensures
        t.topology.version >= s.topology.version,
        t.node_id == s.node_id,
        t.config == s.config,
{
}

/// A route installed from a response leads to the second node of the
/// route and counts one hop less than the route has nodes.
pub proof fn lemma_installed_route_shape(target: Seq<char>, route: Seq<Seq<char>>, cost: u32, now: u64)
    requires
        2 <= route.len(),
        route.len() % 256 != 0,
        route.len() < 256,
    ensures
        installed_route(target, route, cost, now).next_hop == route[1],
        installed_route(target, route, cost, now).hop_count == route.len() - 1,
        installed_route(target, route, cost, now).destination == target,
        installed_route(target, route, cost, now).reliability == 100,
{
}

/// Law: a cached route is used only while it is live. Routing to a target
/// that is not a healthy direct peer succeeds only when a cached route to
/// the target has not expired at `now`; when every cached route to the
/// target has expired, or there is none, routing fails and a discovery for
/// the target is pending afterwards.
pub proof fn lemma_expired_routes_unused(
    s: MeshState,
    peers: Seq<PeerModel>,
    target: Seq<char>,
    now: u64,
    t: MeshState,
    peers2: Seq<PeerModel>,
    r: Result<(), SynapseError>,
    out: Seq<(Seq<char>, MeshMessageModel)>,
)
    requires
        routed(s, peers, target, now, t, peers2, r, out),
        !directly_connected(peers, target),
    ensures
        r is Ok ==> exists|i: int|
            0 <= i < s.routes.len() && (#[trigger] s.routes[i]).destination == target && !(now > s.routes[i].created_at
                && now - s.routes[i].created_at > s.config.route_cache_ttl),
        (forall|i: int|
            0 <= i < s.routes.len() && (#[trigger] s.routes[i]).destination == target ==> now > s.routes[i].created_at
                && now - s.routes[i].created_at > s.config.route_cache_ttl) ==> r is Err && exists|j: int|
            0 <= j < t.pending.len() && (#[trigger] t.pending[j]).0 == target,
{
    let keys = route_keys(s.routes);
    lemma_last_position(keys, target);
    let p = last_position(keys, target);
    if p >= 0 {
        assert(keys[p] == s.routes[p].destination);
    }
    let pk = pending_keys(s.pending);
    lemma_last_position(pk, target);
    let q = last_position(pk, target);
    if !(p >= 0 && !route_expired(s.routes[p], s.config.route_cache_ttl, now)) {
        assert(discovery_started(s, peers, target, now, t, out));
        if q >= 0 {
            assert(pk[q] == s.pending[q].0);
            assert(t.pending[q].0 == target);
        } else {
            assert(t.pending[s.pending.len() as int].0 == target);
        }
    }
}

/// No node id occurs twice among `s`.
pub open spec fn node_ids_distinct<V>(s: Seq<(Seq<char>, V)>) -> bool {
    forall|i: int, j: int| 0 <= i < j < s.len() ==> #[trigger] s[i].0 != #[trigger] s[j].0
}

proof fn lemma_keyed_upsert<V>(s: Seq<(Seq<char>, V)>, k: Seq<char>, v: V)
    requires
        node_ids_distinct(s),
    ensures
        node_ids_distinct(keyed_upsert(s, k, v)),
        keyed_upsert(s, k, v).contains((k, v)),
        forall|e: (Seq<char>, V)| s.contains(e) && e.0 != k ==> #[trigger] keyed_upsert(s, k, v).contains(e),
        forall|e: (Seq<char>, V)| #[trigger] keyed_upsert(s, k, v).contains(e) && e.0 != k ==> s.contains(e),
        keyed_upsert(s, k, v).len() == s.len() + if exists|i: int| 0 <= i < s.len() && #[trigger] s[i].0 == k {
            0int
        } else {
            1int
        },
{
    let keys = s.map_values(|e: (Seq<char>, V)| e.0);
    lemma_last_position(keys, k);
    let p = last_position(keys, k);
    let r = keyed_upsert(s, k, v);
    if p >= 0 {
        assert(keys[p] == s[p].0);
        assert(r[p] == (k, v));
        assert forall|e: (Seq<char>, V)| s.contains(e) && e.0 != k implies #[trigger] r.contains(e) by {
            let w = choose|w: int| 0 <= w < s.len() && s[w] == e;
            assert(r[w] == e);
        }
        assert forall|e: (Seq<char>, V)| #[trigger] r.contains(e) && e.0 != k implies s.contains(e) by {
            let w = choose|w: int| 0 <= w < r.len() && r[w] == e;
            assert(s[w] == e);
        }
        assert forall|i: int, j: int| 0 <= i < j < r.len() implies #[trigger] r[i].0 != #[trigger] r[j].0 by {
            if i == p {
                assert(s[j].0 != s[p].0);
            } else if j == p {
                assert(s[i].0 != s[p].0);
            } else {
                assert(r[i] == s[i] && r[j] == s[j]);
            }
        }
    } else {
        assert(r[s.len() as int] == (k, v));
        assert forall|i: int| 0 <= i < s.len() implies #[trigger] s[i].0 != k by {
            assert(keys[i] == s[i].0);
        }
        assert forall|e: (Seq<char>, V)| s.contains(e) && e.0 != k implies #[trigger] r.contains(e) by {
            let w = choose|w: int| 0 <= w < s.len() && s[w] == e;
            assert(r[w] == e);
        }
        assert forall|e: (Seq<char>, V)| #[trigger] r.contains(e) && e.0 != k implies s.contains(e) by {
            let w = choose|w: int| 0 <= w < r.len() && r[w] == e;
            if w < s.len() {
                assert(s[w] == e);
            }
        }
        assert forall|i: int, j: int| 0 <= i < j < r.len() implies #[trigger] r[i].0 != #[trigger] r[j].0 by {
            if j == s.len() {
                assert(r[i] == s[i]);
            } else {
                assert(r[i] == s[i] && r[j] == s[j]);
            }
        }
    }
}

/// Law: a newer topology update keeps one entry per node id in both the
/// connections and the node-information tables. The updating node's entry
/// is the new one, every other node keeps its entry and gains none, and a
/// table grows by one only when the node was not in it before.
pub proof fn lemma_topology_update_keyed(
    t: TopologyModel,
    node_id: Seq<char>,
    connections: Seq<Seq<char>>,
    info: NodeInfoModel,
    version: u64,
    now: u64,
)
    requires
        version > t.version,
        node_ids_distinct(t.connections),
        node_ids_distinct(t.node_info),
    ensures
        ({
            let u = topology_after_update(t, node_id, connections, info, version, now);
            &&& node_ids_distinct(u.connections)
            &&& node_ids_distinct(u.node_info)
            &&& u.connections.contains((node_id, connections))
            &&& u.node_info.contains((node_id, info))
            &&& forall|e: (Seq<char>, NodeInfoModel)| t.node_info.contains(e) && e.0 != node_id ==> #[trigger] u.node_info.contains(e)
            &&& forall|e: (Seq<char>, NodeInfoModel)| #[trigger] u.node_info.contains(e) && e.0 != node_id ==> t.node_info.contains(e)
            &&& forall|e: (Seq<char>, Seq<Seq<char>>)| t.connections.contains(e) && e.0 != node_id ==> #[trigger] u.connections.contains(e)
            &&& forall|e: (Seq<char>, Seq<Seq<char>>)| #[trigger] u.connections.contains(e) && e.0 != node_id ==> t.connections.contains(e)
            &&& u.node_info.len() == t.node_info.len() + if exists|i: int| 0 <= i < t.node_info.len() && #[trigger] t.node_info[i].0 == node_id {
                0int
            } else {
                1int
            }
            &&& u.connections.len() == t.connections.len() + if exists|i: int| 0 <= i < t.connections.len() && #[trigger] t.connections[i].0 == node_id {
                0int
            } else {
                1int
            }
        }),
{
    lemma_keyed_upsert(t.connections, node_id, connections);
    lemma_keyed_upsert(t.node_info, node_id, info);
}

} // verus!
