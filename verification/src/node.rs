//! A node: its configuration, its peer manager, and the gossip protocol and
//! mesh network it runs once started, with counters of the messages it
//! handled. Each operation returns what the node emits (events, envelopes,
//! mesh messages) for the caller to deliver.

use crate::address::SocketAddress;
use crate::error::SynapseError;
use crate::gossip::cache::{masked, message_ids};
use crate::gossip::{
    broadcast_fanout, fresh_envelope, gossip_targets, handled, heartbeat_envelope, initial_gossip_state, messages_model,
    outbound_model, sends_to, spread, stale_ids,
    GossipConfig, GossipMessageModel, GossipProtocol, GossipState, GossipStats, GossipStep,
};
use crate::mesh::{
    distinct_ids, live_mask, mesh_handled, mesh_outbound, own_node_info, routed, to_all, MeshConfig, MeshMessage,
    MeshMessageModel, MeshNetwork, MeshState, MeshStats,
};
use crate::message::{
    clone_strings, strings_model, EnvelopeModel, Message, MessageEnvelope, MessageModel, MessageType,
    MessageTypeModel,
};
use crate::peer::{
    after_add, after_bootstrap, healthy_of, is_best_selection, kept_after_cleanup, peer_stale, peers_model, stats_of,
    table_remove, unhealthy, DiscoveryConfig, DiscoveryMethod, DiscoveryModel, Peer, PeerManager,
    PeerModel, PeerStats,
};
use crate::platform::{is_uuid_v4, random_uuid_v4};
use crate::text::{uuid_hyphenated, uuid_text};
use vstd::prelude::*;
use vstd::string::*;

verus! {

/// Abstract value of a [`SynapseConfig`].
pub struct ConfigModel {
    pub node_id: Option<Seq<char>>,
    pub bind_address: SocketAddress,
    pub gossip: GossipConfig,
    pub mesh: MeshConfig,
    pub discovery: DiscoveryModel,
    pub message_buffer_size: usize,
    pub auto_discovery: bool,
    pub interface: Option<Seq<char>>,
}

/// Configuration for a node.
#[derive(Debug)]
pub struct SynapseConfig {
    /// Node identifier (a UUID is generated when absent).
    pub node_id: Option<String>,
    /// Local bind address.
    pub bind_address: SocketAddress,
    /// Gossip protocol configuration.
    pub gossip: GossipConfig,
    /// Mesh network configuration.
    pub mesh: MeshConfig,
    /// Peer discovery configuration.
    pub discovery: DiscoveryConfig,
    /// Message processing buffer size.
    pub message_buffer_size: usize,
    /// Whether peer discovery starts with the node.
    pub auto_discovery: bool,
    /// Network interface name.
    pub interface: Option<String>,
}

/// Model of an optional string.
pub open spec fn opt_text(s: Option<String>) -> Option<Seq<char>> {
    match s {
        Some(v) => Some(v@),
        None => None,
    }
}

impl View for SynapseConfig {
    type V = ConfigModel;

    open spec fn view(&self) -> ConfigModel {
        ConfigModel {
            node_id: opt_text(self.node_id),
            bind_address: self.bind_address,
            gossip: self.gossip,
            mesh: self.mesh,
            discovery: self.discovery@,
            message_buffer_size: self.message_buffer_size,
            auto_discovery: self.auto_discovery,
            interface: opt_text(self.interface),
        }
    }
}

/// A copy of an optional string.
fn clone_opt(s: &Option<String>) -> (c: Option<String>)
    ensures
        opt_text(c) == opt_text(*s),
{
    match s {
        Some(v) => Some(v.clone()),
        None => None,
    }
}

impl Clone for SynapseConfig {
    /// A copy with the same settings.
    fn clone(&self) -> (c: Self)
        ensures
            c@ == self@,
    {
        SynapseConfig {
            node_id: clone_opt(&self.node_id),
            bind_address: self.bind_address,
            gossip: self.gossip,
            mesh: self.mesh,
            discovery: self.discovery.clone(),
            message_buffer_size: self.message_buffer_size,
            auto_discovery: self.auto_discovery,
            interface: clone_opt(&self.interface),
        }
    }
}

/// The default node configuration: no node id, bound to 127.0.0.1:0,
/// default gossip, mesh and discovery settings, a buffer of 1000 messages,
/// automatic discovery, no interface.
pub open spec fn default_config(c: ConfigModel) -> bool {
    &&& c.node_id is None
    &&& c.bind_address == SocketAddress::V4 { octets: [127u8, 0u8, 0u8, 1u8], port: 0 }
    &&& c.gossip == (GossipConfig {
        fanout: 3,
        gossip_interval: 30,
        max_message_age: 3600,
        max_stored_messages: 10000,
        network_timeout: 5,
        max_hops: 5,
        sync_interval: 300,
    })
    &&& c.mesh == (MeshConfig {
        max_connections: 10,
        min_connections: 3,
        route_timeout: 30,
        route_cache_ttl: 300,
        max_route_hops: 8,
        topology_update_interval: 60,
        health_check_interval: 30,
        partition_threshold: 180,
    })
    &&& c.discovery.methods == seq![crate::peer::DiscoveryMethod::Bootstrap, crate::peer::DiscoveryMethod::Gossip]
    &&& c.discovery.bootstrap_peers.len() == 0
    &&& c.discovery.discovery_interval == 60
    &&& c.discovery.max_peers == 50
    &&& c.discovery.min_peers == 3
    &&& c.discovery.validation_timeout == 10
    &&& c.discovery.local_port_range is None
    &&& c.message_buffer_size == 1000
    &&& c.auto_discovery
    &&& c.interface is None
}

impl Default for SynapseConfig {
    /// See [`default_config`].
    fn default() -> (c: Self)
        ensures
            default_config(c@),
    {
        SynapseConfig {
            node_id: None,
            bind_address: SocketAddress::v4(127, 0, 0, 1, 0),
            gossip: GossipConfig::default(),
            mesh: MeshConfig::default(),
            discovery: DiscoveryConfig::default(),
            message_buffer_size: 1000,
            auto_discovery: true,
            interface: None,
        }
    }
}

/// Statistics for a whole node.
#[derive(Debug)]
pub struct SynapseStats {
    /// Node identifier.
    pub node_id: String,
    /// Uptime in seconds.
    pub uptime: u64,
    /// Messages received and processed.
    pub messages_processed: u64,
    /// Messages sent.
    pub messages_sent: u64,
    /// Peer statistics.
    pub peer_stats: PeerStats,
    /// Gossip statistics.
    pub gossip_stats: GossipStats,
    /// Mesh statistics.
    pub mesh_stats: MeshStats,
}

impl Clone for SynapseStats {
    /// A copy with the same figures.
    fn clone(&self) -> (c: Self)
        ensures
            c.node_id@ == self.node_id@,
            c.uptime == self.uptime,
            c.messages_processed == self.messages_processed,
            c.messages_sent == self.messages_sent,
            c.peer_stats == self.peer_stats,
            c.gossip_stats == self.gossip_stats,
            c.mesh_stats == self.mesh_stats,
    {
        SynapseStats {
            node_id: self.node_id.clone(),
            uptime: self.uptime,
            messages_processed: self.messages_processed,
            messages_sent: self.messages_sent,
            peer_stats: self.peer_stats,
            gossip_stats: self.gossip_stats,
            mesh_stats: self.mesh_stats,
        }
    }
}

/// Abstract value of a [`SynapseEvent`].
pub enum EventModel {
    NodeStarted { node_id: Seq<char>, address: SocketAddress },
    NodeStopping { node_id: Seq<char> },
    PeerConnected { peer_id: Seq<char>, address: SocketAddress },
    PeerDisconnected { peer_id: Seq<char>, reason: Seq<char> },
    MessageReceived { from: Seq<char>, message: MessageModel },
    MessageSent { to: Seq<char>, message_id: u64 },
    PartitionDetected { affected_peers: Seq<Seq<char>> },
    RouteDiscovered { destination: Seq<char>, hops: u8 },
    Error { error: Seq<char> },
}

/// Events a node emits.
#[derive(Debug)]
pub enum SynapseEvent {
    /// The node started.
    NodeStarted { node_id: String, address: SocketAddress },
    /// The node is shutting down.
    NodeStopping { node_id: String },
    /// A peer was added.
    PeerConnected { peer_id: String, address: SocketAddress },
    /// A peer was removed.
    PeerDisconnected { peer_id: String, reason: String },
    /// A message arrived from the network.
    MessageReceived { from: String, message: Box<Message> },
    /// A message was sent.
    MessageSent { to: String, message_id: u64 },
    /// A network partition was detected.
    PartitionDetected { affected_peers: Vec<String> },
    /// A route was discovered.
    RouteDiscovered { destination: String, hops: u8 },
    /// An error occurred.
    Error { error: String },
}

impl View for SynapseEvent {
    type V = EventModel;

    open spec fn view(&self) -> EventModel {
        match self {
            SynapseEvent::NodeStarted { node_id, address } => EventModel::NodeStarted { node_id: node_id@, address: *address },
            SynapseEvent::NodeStopping { node_id } => EventModel::NodeStopping { node_id: node_id@ },
            SynapseEvent::PeerConnected { peer_id, address } => EventModel::PeerConnected { peer_id: peer_id@, address: *address },
            SynapseEvent::PeerDisconnected { peer_id, reason } => EventModel::PeerDisconnected {
                peer_id: peer_id@,
                reason: reason@,
            },
            SynapseEvent::MessageReceived { from, message } => EventModel::MessageReceived { from: from@, message: message@ },
            SynapseEvent::MessageSent { to, message_id } => EventModel::MessageSent { to: to@, message_id: *message_id },
            SynapseEvent::PartitionDetected { affected_peers } => EventModel::PartitionDetected {
                affected_peers: strings_model(affected_peers@),
            },
            SynapseEvent::RouteDiscovered { destination, hops } => EventModel::RouteDiscovered {
                destination: destination@,
                hops: *hops,
            },
            SynapseEvent::Error { error } => EventModel::Error { error: error@ },
        }
    }
}

impl Clone for SynapseEvent {
    /// A copy with the same contents.
    fn clone(&self) -> (c: Self)
        ensures
            c@ == self@,
    {
        match self {
            SynapseEvent::NodeStarted { node_id, address } => SynapseEvent::NodeStarted { node_id: node_id.clone(), address: *address },
            SynapseEvent::NodeStopping { node_id } => SynapseEvent::NodeStopping { node_id: node_id.clone() },
            SynapseEvent::PeerConnected { peer_id, address } => SynapseEvent::PeerConnected {
                peer_id: peer_id.clone(),
                address: *address,
            },
            SynapseEvent::PeerDisconnected { peer_id, reason } => SynapseEvent::PeerDisconnected {
                peer_id: peer_id.clone(),
                reason: reason.clone(),
            },
            SynapseEvent::MessageReceived { from, message } => SynapseEvent::MessageReceived {
                from: from.clone(),
                message: Box::new((**message).clone()),
            },
            SynapseEvent::MessageSent { to, message_id } => SynapseEvent::MessageSent { to: to.clone(), message_id: *message_id },
            SynapseEvent::PartitionDetected { affected_peers } => SynapseEvent::PartitionDetected {
                affected_peers: clone_strings(affected_peers),
            },
            SynapseEvent::RouteDiscovered { destination, hops } => SynapseEvent::RouteDiscovered {
                destination: destination.clone(),
                hops: *hops,
            },
            SynapseEvent::Error { error } => SynapseEvent::Error { error: error.clone() },
        }
    }
}


/// A node of the mesh: its configuration and identity, its peer manager,
/// the gossip protocol and mesh network it runs once started, and counters
/// of the messages it handled.
#[derive(Debug)]
pub struct SynapseNode {
    /// Node configuration.
    config: SynapseConfig,
    /// Node identifier.
    node_id: String,
    /// Peer manager.
    peer_manager: PeerManager,
    /// Gossip protocol, once started.
    gossip: Option<GossipProtocol>,
    /// Mesh network, once started.
    mesh: Option<MeshNetwork>,
    /// Uptime in seconds, as last recorded.
    uptime: u64,
    /// Messages received and processed.
    messages_processed: u64,
    /// Messages sent.
    messages_sent: u64,
}

/// Abstract state of a [`SynapseNode`].
pub struct NodeState {
    pub config: ConfigModel,
    pub node_id: Seq<char>,
    pub peers: Seq<PeerModel>,
    pub gossip: Option<GossipState>,
    pub mesh: Option<MeshState>,
    pub uptime: u64,
    pub messages_processed: u64,
    pub messages_sent: u64,
}

/// `out` gossips a fresh data envelope from `g`'s node holding a message
/// of type `message_type` from that node with id `id` (see
/// [`GossipProtocol::gossip_message`]).
pub open spec fn gossiped(g: GossipState, message_type: MessageTypeModel, id: u64, out: Seq<(SocketAddress, EnvelopeModel)>) -> bool {
    exists|e: EnvelopeModel|
        #[trigger] spread(
            out,
            gossip_targets(g.peers, g.node_id, g.node_id),
            broadcast_fanout(g.config.fanout, gossip_targets(g.peers, g.node_id, g.node_id).len()),
            e,
        ) && fresh_envelope(e, g.node_id, e.message) && (e.message matches GossipMessageModel::Data(m)
            && m.message_type == message_type && m.source == g.node_id && m.id == id)
}

/// Zero gossip statistics, reported before the protocol starts.
pub open spec fn no_gossip_stats() -> GossipStats {
    GossipStats { healthy_peers: 0, total_peers: 0, cached_messages: 0, known_messages: 0 }
}

/// Zero mesh statistics, reported before the network starts.
pub open spec fn no_mesh_stats() -> MeshStats {
    MeshStats { routes_cached: 0, healthy_connections: 0, topology_version: 0, known_nodes: 0 }
}

impl View for SynapseNode {
    type V = NodeState;

    closed spec fn view(&self) -> NodeState {
        NodeState {
            config: self.config@,
            node_id: self.node_id@,
            peers: self.peer_manager.table(),
            gossip: match self.gossip {
                Some(g) => Some(g@),
                None => None,
            },
            mesh: match self.mesh {
                Some(m) => Some(m@),
                None => None,
            },
            uptime: self.uptime,
            messages_processed: self.messages_processed,
            messages_sent: self.messages_sent,
        }
    }
}

impl SynapseNode {
    /// The peer manager and the components run under the node's id, and
    /// the peer manager with the configured discovery settings.
    pub closed spec fn wf(&self) -> bool {
        &&& self.peer_manager.own_id() == self.node_id@
        &&& self.peer_manager.settings()@ == self.config.discovery@
        &&& self.gossip matches Some(g) ==> g@.node_id == self.node_id@
        &&& self.mesh matches Some(m) ==> m@.node_id == self.node_id@
    }

    /// A node with configuration `config`, named by its node id or, when
    /// there is none, by a fresh random UUID; no peers, nothing started,
    /// all counters zero.
    pub fn new(config: SynapseConfig) -> (n: Self)
        ensures
            n@.config == config@,
            match config@.node_id {
                Some(id) => n@.node_id == id,
                None => exists|u: u128| is_uuid_v4(u) && n@.node_id == #[trigger] uuid_hyphenated(u),
            },
            n@.peers == Seq::<PeerModel>::empty(),
            n@.gossip is None,
            n@.mesh is None,
            n@.uptime == 0,
            n@.messages_processed == 0,
            n@.messages_sent == 0,
            n.wf(),
    {
        let node_id = match &config.node_id {
            Some(id) => id.clone(),
            None => {
                let u = random_uuid_v4();
                uuid_text(u)
            },
        };
        let peer_manager = PeerManager::new(node_id.clone(), config.discovery.clone());
        SynapseNode {
            config,
            node_id,
            peer_manager,
            gossip: None,
            mesh: None,
            uptime: 0,
            messages_processed: 0,
            messages_sent: 0,
        }
    }

    /// Start the node: the gossip protocol and the mesh network are created
    /// and, when automatic discovery is on, the bootstrap peers are added.
    /// Returns the start event. Always succeeds.
    pub fn start(&mut self) -> (r: Result<SynapseEvent, SynapseError>)
        requires
            old(self).wf(),
        ensures
            r matches Ok(e) && e@ == (EventModel::NodeStarted {
                node_id: old(self)@.node_id,
                address: old(self)@.config.bind_address,
            }),
            final(self)@.gossip == Some(initial_gossip_state(old(self)@.node_id, old(self)@.config.gossip)),
            final(self)@.mesh matches Some(m) && m.node_id == old(self)@.node_id && m.config == old(self)@.config.mesh
                && m.routes.len() == 0 && m.pending.len() == 0 && m.health_sequence == 0 && m.topology.version == 0,
            !(old(self)@.config.auto_discovery && old(self)@.config.discovery.methods.contains(DiscoveryMethod::Bootstrap))
                ==> final(self)@.peers == old(self)@.peers,
            old(self)@.config.auto_discovery && old(self)@.config.discovery.methods.contains(DiscoveryMethod::Bootstrap)
                ==> exists|seen: Seq<u64>|
                seen.len() == old(self)@.config.discovery.bootstrap_peers.len() && #[trigger] after_bootstrap(
                    old(self)@.peers,
                    old(self)@.config.discovery.bootstrap_peers,
                    seen,
                    seen.len() as int,
                    old(self)@.node_id,
                    old(self)@.config.discovery.max_peers,
                ) == final(self)@.peers,
            final(self)@ == (NodeState { peers: final(self)@.peers, gossip: final(self)@.gossip, mesh: final(self)@.mesh, ..old(self)@ }),
            final(self).wf(),
    {
        let event = SynapseEvent::NodeStarted { node_id: self.node_id.clone(), address: self.config.bind_address };
        self.gossip = Some(GossipProtocol::new(self.node_id.clone(), self.config.gossip));
        self.mesh = Some(MeshNetwork::new(self.node_id.clone(), self.config.mesh));
        if self.config.auto_discovery {
            let _ = self.peer_manager.start_discovery();
            proof {
                assert(old(self).peer_manager.settings()@ == old(self).config.discovery@);
                if old(self)@.config.discovery.methods.contains(DiscoveryMethod::Bootstrap) {
                    assert(old(self).peer_manager.settings().methods@.contains(DiscoveryMethod::Bootstrap));
                    let seen = choose|seen: Seq<u64>|
                        seen.len() == old(self).peer_manager.settings().bootstrap_peers@.len() && #[trigger] after_bootstrap(
                            old(self).peer_manager.table(),
                            old(self).peer_manager.settings().bootstrap_peers@,
                            seen,
                            seen.len() as int,
                            old(self).peer_manager.own_id(),
                            old(self).peer_manager.settings().max_peers,
                        ) == self.peer_manager.table();
                    assert(after_bootstrap(
                        old(self)@.peers,
                        old(self)@.config.discovery.bootstrap_peers,
                        seen,
                        seen.len() as int,
                        old(self)@.node_id,
                        old(self)@.config.discovery.max_peers,
                    ) == self@.peers);
                }
            }
        }
        Ok(event)
    }

    /// Add a peer through the peer manager. Returns the connection event.
    pub fn add_peer(&mut self, peer: Peer) -> (r: Result<SynapseEvent, SynapseError>)
        requires
            old(self).wf(),
        ensures
            r matches Ok(e) && e@ == (EventModel::PeerConnected { peer_id: peer@.id, address: peer@.address }),
            final(self)@ == (NodeState {
                peers: after_add(old(self)@.peers, peer@, old(self)@.node_id, old(self)@.config.discovery.max_peers),
                ..old(self)@
            }),
            final(self).wf(),
    {
        let peer_id = peer.id.clone();
        let address = peer.address;
        let r = self.peer_manager.add_peer(peer);
        match r {
            Ok(()) => Ok(SynapseEvent::PeerConnected { peer_id, address }),
            Err(e) => Err(e),
        }
    }

    /// Remove a peer through the peer manager. Returns the disconnection
    /// event, with reason "Manual removal".
    pub fn remove_peer(&mut self, peer_id: &String) -> (r: Result<SynapseEvent, SynapseError>)
        requires
            old(self).wf(),
        ensures
            r matches Ok(e) && e@ == (EventModel::PeerDisconnected { peer_id: peer_id@, reason: "Manual removal"@ }),
            final(self)@ == (NodeState { peers: table_remove(old(self)@.peers, peer_id@), ..old(self)@ }),
            final(self).wf(),
    {
        let r = self.peer_manager.remove_peer(peer_id);
        proof {
            reveal_strlit("Manual removal");
        }
        match r {
            Ok(()) => Ok(SynapseEvent::PeerDisconnected {
                peer_id: peer_id.clone(),
                reason: String::from_str("Manual removal"),
            }),
            Err(e) => Err(e),
        }
    }

    /// Send a message of type `message_type` towards `target`: it is
    /// gossiped to the network when the protocol runs. Counts one message
    /// sent and returns the envelopes to send and the sent event.
    pub fn send_message(&mut self, target: &String, message_type: MessageType) -> (r: Result<
        (Vec<(SocketAddress, MessageEnvelope)>, SynapseEvent),
        SynapseError,
    >)
        requires
            old(self).wf(),
            old(self)@.messages_sent < u64::MAX,
        ensures
            r matches Ok(x) && (x.1@ matches EventModel::MessageSent { to, message_id } && to == target@ && match old(
                self,
            )@.gossip {
                Some(g) => gossiped(g, message_type@, message_id, outbound_model(x.0@)),
                None => x.0@.len() == 0,
            }),
            final(self)@ == (NodeState { messages_sent: (old(self)@.messages_sent + 1) as u64, ..old(self)@ }),
            final(self).wf(),
    {
        let ghost mt = message_type@;
        let message = Message::new(message_type, self.node_id.clone());
        let message_id = message.id;
        let ghost mm = message@;
        let mut out: Vec<(SocketAddress, MessageEnvelope)> = Vec::new();
        match &self.gossip {
            Some(g) => {
                match g.gossip_message(message) {
                    Ok(o) => {
                        out = o;
                        proof {
                            let gm = g@;
                            assert(self@.gossip matches Some(gg) && gg == gm);
                            let e = choose|e: EnvelopeModel|
                                fresh_envelope(e, gm.node_id, GossipMessageModel::Data(mm)) && #[trigger] spread(
                                    outbound_model(out@),
                                    gossip_targets(gm.peers, gm.node_id, gm.node_id),
                                    broadcast_fanout(gm.config.fanout, gossip_targets(gm.peers, gm.node_id, gm.node_id).len()),
                                    e,
                                );
                            assert(fresh_envelope(e, gm.node_id, e.message));
                            assert(gossiped(gm, mt, message_id, outbound_model(out@)));
                        }
                    },
                    Err(e) => {
                        return Err(e);
                    },
                }
            },
            None => {},
        }
        self.messages_sent = self.messages_sent + 1;
        Ok((out, SynapseEvent::MessageSent { to: target.clone(), message_id }))
    }

    /// Broadcast a message of type `message_type`: it is gossiped to the
    /// network when the protocol runs. Counts one message sent and returns
    /// the envelopes to send.
    pub fn broadcast_message(&mut self, message_type: MessageType) -> (r: Result<Vec<(SocketAddress, MessageEnvelope)>, SynapseError>)
        requires
            old(self).wf(),
            old(self)@.messages_sent < u64::MAX,
        ensures
            r matches Ok(out) && match old(self)@.gossip {
                Some(g) => exists|id: u64| #[trigger] gossiped(g, message_type@, id, outbound_model(out@)),
                None => out@.len() == 0,
            },
            final(self)@ == (NodeState { messages_sent: (old(self)@.messages_sent + 1) as u64, ..old(self)@ }),
            final(self).wf(),
    {
        let ghost mt = message_type@;
        let message = Message::new(message_type, self.node_id.clone());
        let ghost mm = message@;
        let mut out: Vec<(SocketAddress, MessageEnvelope)> = Vec::new();
        match &self.gossip {
            Some(g) => {
                match g.gossip_message(message) {
                    Ok(o) => {
                        out = o;
                        proof {
                            let gm = g@;
                            assert(self@.gossip matches Some(gg) && gg == gm);
                            let e = choose|e: EnvelopeModel|
                                fresh_envelope(e, gm.node_id, GossipMessageModel::Data(mm)) && #[trigger] spread(
                                    outbound_model(out@),
                                    gossip_targets(gm.peers, gm.node_id, gm.node_id),
                                    broadcast_fanout(gm.config.fanout, gossip_targets(gm.peers, gm.node_id, gm.node_id).len()),
                                    e,
                                );
                            assert(fresh_envelope(e, gm.node_id, e.message));
                            assert(gossiped(gm, mt, mm.id, outbound_model(out@)));
                        }
                    },
                    Err(e) => {
                        return Err(e);
                    },
                }
            },
            None => {},
        }
        self.messages_sent = self.messages_sent + 1;
        Ok(out)
    }

    /// Route a message of type `message_type` to `target` through the mesh
    /// network when it runs. On success counts one message sent and returns
    /// the sent event; a failed routing (a route discovery started) is
    /// returned as it is, with nothing counted. The mesh messages to send
    /// come back either way.
    pub fn route_message(&mut self, target: &String, message_type: MessageType) -> (r: (
        Result<SynapseEvent, SynapseError>,
        Vec<(String, MeshMessage)>,
    ))
        requires
            old(self).wf(),
            old(self)@.messages_sent < u64::MAX,
        ensures
            final(self)@.config == old(self)@.config,
            final(self)@.node_id == old(self)@.node_id,
            final(self)@.gossip == old(self)@.gossip,
            final(self)@.uptime == old(self)@.uptime,
            final(self)@.messages_processed == old(self)@.messages_processed,
            old(self)@.mesh is None ==> r.1@.len() == 0 && final(self)@ == (NodeState {
                messages_sent: (old(self)@.messages_sent + 1) as u64,
                ..old(self)@
            }),
            r.0 matches Ok(e) ==> (e@ matches EventModel::MessageSent { to, .. } && to == target@)
                && final(self)@.messages_sent == old(self)@.messages_sent + 1,
            r.0 is Err ==> final(self)@.messages_sent == old(self)@.messages_sent,
            old(self)@.mesh is Some ==> final(self)@.mesh is Some && exists|now: u64, res: Result<(), SynapseError>|
                #[trigger] routed(
                    old(self)@.mesh->Some_0,
                    old(self)@.peers,
                    target@,
                    now,
                    final(self)@.mesh->Some_0,
                    final(self)@.peers,
                    res,
                    mesh_outbound(r.1@),
                ) && (res is Ok <==> r.0 is Ok) && (res matches Err(e) ==> r.0 == Err::<SynapseEvent, SynapseError>(e)),
            final(self).wf(),
    {
        let message = Message::new(message_type, self.node_id.clone());
        let message_id = message.id;
        let mut out: Vec<(String, MeshMessage)> = Vec::new();
        let ghost s0 = self@;
        let ghost mut m0: MeshState = arbitrary();
        let ghost mut m1: MeshState = arbitrary();
        let ghost mut now_g: u64 = 0;
        let ghost mut res_g: Result<(), SynapseError> = Ok(());
        match &mut self.mesh {
            Some(m) => {
                proof {
                    m0 = m@;
                }
                let ghost p0 = self.peer_manager.table();
                assert(s0.mesh matches Some(mm) && mm == m0);
                assert(s0.peers == p0);
                let r = m.route_message(&mut self.peer_manager, target, message);
                proof {
                    m1 = m@;
                    now_g = choose|now: u64|
                        #[trigger] routed(m0, p0, target@, now, m1, self.peer_manager.table(), r.0, mesh_outbound(r.1@));
                    res_g = r.0;
                }
                let (res, o) = r;
                out = o;
                match res {
                    Ok(()) => {},
                    Err(e) => {
                        let result: (Result<SynapseEvent, SynapseError>, Vec<(String, MeshMessage)>) = (Err(e), out);
                        assert(self@.mesh == Some(m1));
                        assert(routed(m0, s0.peers, target@, now_g, m1, self@.peers, res_g, mesh_outbound(result.1@)));
                        assert(res_g matches Err(e2) ==> result.0 == Err::<SynapseEvent, SynapseError>(e2));
                        assert(old(self)@.mesh->Some_0 == m0);
                        assert(self@.mesh->Some_0 == m1);
                        assert(exists|now: u64, res: Result<(), SynapseError>|
                            #[trigger] routed(
                                old(self)@.mesh->Some_0,
                                old(self)@.peers,
                                target@,
                                now,
                                self@.mesh->Some_0,
                                self@.peers,
                                res,
                                mesh_outbound(result.1@),
                            ) && (res is Ok <==> result.0 is Ok) && (res matches Err(e) ==> result.0 == Err::<
                                SynapseEvent,
                                SynapseError,
                            >(e)));
                        return result;
                    },
                }
            },
            None => {},
        }
        self.messages_sent = self.messages_sent + 1;
        let result: (Result<SynapseEvent, SynapseError>, Vec<(String, MeshMessage)>) = (
            Ok(SynapseEvent::MessageSent { to: target.clone(), message_id }),
            out,
        );
        proof {
            if s0.mesh is Some {
                assert(self@.mesh == Some(m1));
                assert(routed(m0, s0.peers, target@, now_g, m1, self@.peers, res_g, mesh_outbound(result.1@)));
                assert(res_g is Ok);
                assert(old(self)@.mesh == Some(m0));
                assert(old(self)@.peers == s0.peers);
                assert(old(self)@.mesh->Some_0 == m0);
                assert(self@.mesh->Some_0 == m1);
                assert(exists|now: u64, res: Result<(), SynapseError>|
                    #[trigger] routed(
                        old(self)@.mesh->Some_0,
                        old(self)@.peers,
                        target@,
                        now,
                        self@.mesh->Some_0,
                        self@.peers,
                        res,
                        mesh_outbound(result.1@),
                    ) && (res is Ok <==> result.0 is Ok) && (res matches Err(e) ==> result.0 == Err::<
                        SynapseEvent,
                        SynapseError,
                    >(e)));
            }
        }
        result
    }

    /// Node statistics: identity, counters, and the current statistics of
    /// the peer manager, the gossip protocol and the mesh network (zero for
    /// a component not started).
    pub fn get_stats(&self) -> (st: SynapseStats)
        ensures
            st.node_id@ == self@.node_id,
            st.uptime == self@.uptime,
            st.messages_processed == self@.messages_processed,
            st.messages_sent == self@.messages_sent,
            st.peer_stats == stats_of(self@.peers),
            st.gossip_stats == match self@.gossip {
                Some(g) => GossipStats {
                    healthy_peers: healthy_of(g.peers).len() as usize,
                    total_peers: g.peers.len() as usize,
                    cached_messages: g.cache.cached.len() as usize,
                    known_messages: g.cache.seen.len() as usize,
                },
                None => no_gossip_stats(),
            },
            st.mesh_stats == match self@.mesh {
                Some(m) => MeshStats {
                    routes_cached: m.routes.len() as usize,
                    healthy_connections: healthy_of(self@.peers).len() as usize,
                    topology_version: m.topology.version,
                    known_nodes: m.topology.node_info.len() as usize,
                },
                None => no_mesh_stats(),
            },
    {
        let gossip_stats = match &self.gossip {
            Some(g) => g.get_stats(),
            None => GossipStats { healthy_peers: 0, total_peers: 0, cached_messages: 0, known_messages: 0 },
        };
        let mesh_stats = match &self.mesh {
            Some(m) => m.get_stats(&self.peer_manager),
            None => MeshStats { routes_cached: 0, healthy_connections: 0, topology_version: 0, known_nodes: 0 },
        };
        SynapseStats {
            node_id: self.node_id.clone(),
            uptime: self.uptime,
            messages_processed: self.messages_processed,
            messages_sent: self.messages_sent,
            peer_stats: self.peer_manager.get_stats(),
            gossip_stats,
            mesh_stats,
        }
    }

    /// The node identifier.
    pub fn node_id(&self) -> (id: &String)
        ensures
            id@ == self@.node_id,
    {
        &self.node_id
    }

    /// The node configuration.
    pub fn config(&self) -> (c: &SynapseConfig)
        ensures
            c@ == self@.config,
    {
        &self.config
    }

    /// Copies of the healthy peers, in order.
    pub fn get_healthy_peers(&self) -> (v: Vec<Peer>)
        ensures
            peers_model(v@) == healthy_of(self@.peers),
    {
        self.peer_manager.get_healthy_peers()
    }

    /// Copies of the best `count` healthy peers by quality, best first.
    pub fn get_best_peers(&self, count: usize) -> (v: Vec<Peer>)
        ensures
            is_best_selection(healthy_of(self@.peers), count as nat, peers_model(v@)),
    {
        self.peer_manager.get_best_peers(count)
    }

    /// Take in a message from `from`: counts one message processed and
    /// returns the received event and the message for local delivery.
    pub fn handle_incoming_message(&mut self, from: &String, message: Message) -> (r: Result<(SynapseEvent, Message), SynapseError>)
        requires
            old(self).wf(),
            old(self)@.messages_processed < u64::MAX,
        ensures
            r matches Ok(x) && x.0@ == (EventModel::MessageReceived { from: from@, message: message@ }) && x.1@ == message@,
            final(self)@ == (NodeState { messages_processed: (old(self)@.messages_processed + 1) as u64, ..old(self)@ }),
            final(self).wf(),
    {
        self.messages_processed = self.messages_processed + 1;
        let event = SynapseEvent::MessageReceived { from: from.clone(), message: Box::new(message.clone()) };
        Ok((event, message))
    }

    /// Record the node's uptime in seconds.
    pub fn record_uptime(&mut self, uptime: u64)
        requires
            old(self).wf(),
        ensures
            final(self)@ == (NodeState { uptime, ..old(self)@ }),
            final(self).wf(),
    {
        self.uptime = uptime;
    }

    /// Hand an incoming gossip envelope to the protocol, if it runs (see
    /// [`GossipProtocol::handle_message`]).
    pub fn handle_gossip_envelope(&mut self, envelope: MessageEnvelope) -> (r: Result<GossipStep, SynapseError>)
        requires
            old(self).wf(),
        ensures
            r is Ok,
            old(self)@.gossip is None ==> final(self)@ == old(self)@ && r->Ok_0.delivered@.len() == 0
                && r->Ok_0.outbound@.len() == 0,
            old(self)@.gossip is Some ==> final(self)@.gossip is Some && exists|now: u64|
                #[trigger] handled(
                    old(self)@.gossip->0,
                    envelope@,
                    now,
                    final(self)@.gossip->0,
                    messages_model(r->Ok_0.delivered@),
                    outbound_model(r->Ok_0.outbound@),
                ),
            final(self)@ == (NodeState { gossip: final(self)@.gossip, ..old(self)@ }),
            final(self).wf(),
    {
        match self.gossip.take() {
            Some(mut g) => {
                let ghost g0 = g@;
                let ghost e0 = envelope@;
                let r = g.handle_message(envelope);
                self.gossip = Some(g);
                assert(envelope@ == e0);
                assert(old(self)@.gossip->0 == g0);
                assert(self@.gossip->0 == g@);
                r
            },
            None => {
                let step = GossipStep { delivered: Vec::new(), outbound: Vec::new() };
                Ok(step)
            },
        }
    }

    /// Hand an incoming mesh message to the network, if it runs (see
    /// [`MeshNetwork::handle_mesh_message`]).
    pub fn handle_mesh_message(&mut self, from: &String, message: MeshMessage) -> (r: Result<Vec<(String, MeshMessage)>, SynapseError>)
        requires
            old(self).wf(),
            crate::mesh::response_in_range(old(self)@.node_id, message@),
        ensures
            r is Ok,
            old(self)@.mesh is None ==> final(self)@ == old(self)@ && r->Ok_0@.len() == 0,
            old(self)@.mesh is Some ==> final(self)@.mesh is Some && exists|now: u64|
                #[trigger] mesh_handled(
                    old(self)@.mesh->0,
                    old(self)@.peers,
                    old(self)@.node_id,
                    old(self)@.config.discovery.max_peers,
                    message@,
                    now,
                    final(self)@.mesh->0,
                    final(self)@.peers,
                    mesh_outbound(r->Ok_0@),
                ),
            final(self)@ == (NodeState { mesh: final(self)@.mesh, peers: final(self)@.peers, ..old(self)@ }),
            final(self).wf(),
    {
        match self.mesh.take() {
            Some(mut m) => {
                let ghost m0 = m@;
                let ghost msg0 = message@;
                let ghost t0 = self.peer_manager.table();
                let ghost max0 = self.peer_manager.settings().max_peers;
                let r = m.handle_mesh_message(&mut self.peer_manager, from, message);
                self.mesh = Some(m);
                assert(message@ == msg0);
                assert(old(self)@.mesh->0 == m0);
                assert(old(self)@.peers == t0);
                assert(old(self)@.config.discovery.max_peers == max0);
                assert(self@.mesh->0 == m@);
                assert(self@.peers == self.peer_manager.table());
                r
            },
            None => {
                let out: Vec<(String, MeshMessage)> = Vec::new();
                Ok(out)
            },
        }
    }

    /// The gossip protocol, once started.
    pub fn gossip(&self) -> (g: Option<&GossipProtocol>)
        ensures
            match g {
                Some(x) => self@.gossip == Some(x@),
                None => self@.gossip is None,
            },
    {
        match &self.gossip {
            Some(x) => Some(x),
            None => None,
        }
    }

    /// The mesh network, once started.
    pub fn mesh(&self) -> (m: Option<&MeshNetwork>)
        ensures
            match m {
                Some(x) => self@.mesh == Some(x@),
                None => self@.mesh is None,
            },
    {
        match &self.mesh {
            Some(x) => Some(x),
            None => None,
        }
    }

    /// Whether the node has fewer peers than the configured minimum.
    pub fn needs_more_peers(&self) -> (b: bool)
        requires
            self.wf(),
        ensures
            b == (self@.peers.len() < self@.config.discovery.min_peers),
    {
        self.peer_manager.needs_more_peers()
    }

    /// Drop the peers the cleanup by the current clock drops (see
    /// [`PeerManager::cleanup_stale_peers`]).
    pub fn cleanup_stale_peers(&mut self)
        requires
            old(self).wf(),
        ensures
            final(self).wf(),
            final(self)@ == (NodeState { peers: final(self)@.peers, ..old(self)@ }),
            exists|now: u64| final(self)@.peers == #[trigger] kept_after_cleanup(old(self)@.peers, now),
    {
        let ghost before = self.peer_manager.table();
        self.peer_manager.cleanup_stale_peers();
        proof {
            let now = choose|now: u64| self.peer_manager.table() == #[trigger] kept_after_cleanup(before, now);
            assert(self@.peers == kept_after_cleanup(old(self)@.peers, now));
        }
    }

    /// The gossip protocol's heartbeat round, if it runs (see
    /// [`GossipProtocol::heartbeat_round`]).
    pub fn gossip_heartbeat(&self) -> (out: Vec<(SocketAddress, MessageEnvelope)>)
        ensures
            match self@.gossip {
                Some(g) => exists|e: EnvelopeModel|
                    heartbeat_envelope(e, g.node_id) && #[trigger] sends_to(outbound_model(out@), healthy_of(g.peers), e),
                None => out@.len() == 0,
            },
    {
        match &self.gossip {
            Some(g) => {
                let out = g.heartbeat_round();
                let ghost gm = g@;
                assert(self@.gossip matches Some(gg) && gg == gm);
                let ghost e = choose|e: EnvelopeModel|
                    heartbeat_envelope(e, gm.node_id) && #[trigger] sends_to(outbound_model(out@), healthy_of(gm.peers), e);
                assert(heartbeat_envelope(e, gm.node_id) && sends_to(outbound_model(out@), healthy_of(gm.peers), e));
                out
            },
            None => Vec::new(),
        }
    }

    /// The gossip protocol's anti-entropy round, if it runs (see
    /// [`GossipProtocol::sync_round`]).
    pub fn gossip_sync(&self) -> (r: Option<(SocketAddress, MessageEnvelope)>)
        ensures
            match self@.gossip {
                Some(g) => {
                    &&& (r is None <==> healthy_of(g.peers).len() == 0)
                    &&& r matches Some(x) ==> (exists|i: int|
                        0 <= i < healthy_of(g.peers).len() && x.0 == #[trigger] healthy_of(g.peers)[i].address)
                        && fresh_envelope(
                        x.1@,
                        g.node_id,
                        GossipMessageModel::SyncRequest { known_hashes: message_ids(g.cache.cached) },
                    )
                },
                None => r is None,
            },
    {
        match &self.gossip {
            Some(g) => g.sync_round(),
            None => None,
        }
    }

    /// The gossip protocol's health check, if it runs (see
    /// [`GossipProtocol::health_check`]).
    pub fn gossip_health_check(&mut self) -> (stale: Vec<String>)
        requires
            old(self).wf(),
            old(self)@.gossip matches Some(g) ==> forall|i: int|
                0 <= i < g.peers.len() ==> #[trigger] g.peers[i].failure_count < u32::MAX,
        ensures
            final(self).wf(),
            final(self)@ == (NodeState { gossip: final(self)@.gossip, ..old(self)@ }),
            old(self)@.gossip is None ==> final(self)@.gossip is None && stale@.len() == 0,
            old(self)@.gossip matches Some(g) ==> final(self)@.gossip matches Some(g2) && exists|now: u64|
                #[trigger] stale_ids(g.peers, now) == stale@.map_values(|s: String| s@) && g2 == (GossipState {
                    peers: Seq::new(
                        g.peers.len(),
                        |i: int|
                            if peer_stale(g.peers[i], 300, now) {
                                unhealthy(g.peers[i])
                            } else {
                                g.peers[i]
                            },
                    ),
                    ..g
                }),
    {
        let ghost s0 = self@;
        match &mut self.gossip {
            Some(g) => {
                let ghost gm = g@;
                assert(s0.gossip == Some(gm));
                assert(old(self)@.gossip == Some(gm));
                assert(old(self)@.gossip matches Some(gg) && gg == gm);
                assert(forall|i: int| 0 <= i < gm.peers.len() ==> #[trigger] gm.peers[i].failure_count < u32::MAX);
                let stale = g.health_check();
                stale
            },
            None => Vec::new(),
        }
    }

    /// The mesh network's topology round, if it runs (see
    /// [`MeshNetwork::topology_round`]).
    pub fn mesh_topology_round(&self) -> (out: Vec<(String, MeshMessage)>)
        requires
            self@.mesh matches Some(m) ==> m.topology.version < u64::MAX,
        ensures
            match self@.mesh {
                Some(m) => mesh_outbound(out@) == to_all(
                    healthy_of(self@.peers),
                    MeshMessageModel::TopologyUpdate {
                        node_id: m.node_id,
                        connections: distinct_ids(healthy_of(self@.peers)),
                        node_info: own_node_info(m.node_id),
                        version: (m.topology.version + 1) as u64,
                    },
                ),
                None => out@.len() == 0,
            },
    {
        match &self.mesh {
            Some(m) => m.topology_round(&self.peer_manager),
            None => Vec::new(),
        }
    }

    /// The mesh network's health round, if it runs (see
    /// [`MeshNetwork::health_ping_round`]).
    pub fn mesh_health_round(&mut self) -> (out: Vec<(String, MeshMessage)>)
        requires
            old(self).wf(),
            old(self)@.mesh matches Some(m) ==> m.health_sequence < u64::MAX,
        ensures
            final(self).wf(),
            final(self)@ == (NodeState { mesh: final(self)@.mesh, ..old(self)@ }),
            old(self)@.mesh is None ==> final(self)@.mesh is None && out@.len() == 0,
            old(self)@.mesh matches Some(m) ==> final(self)@.mesh == Some(
                MeshState { health_sequence: (m.health_sequence + 1) as u64, ..m },
            ) && exists|now: u64|
                mesh_outbound(out@) == #[trigger] to_all(
                    healthy_of(old(self)@.peers),
                    MeshMessageModel::HealthPing {
                        node_id: m.node_id,
                        timestamp: now,
                        sequence: (m.health_sequence + 1) as u64,
                    },
                ),
    {
        match &mut self.mesh {
            Some(m) => m.health_ping_round(&self.peer_manager),
            None => Vec::new(),
        }
    }

    /// The mesh network's route cleanup, if it runs (see
    /// [`MeshNetwork::route_cleanup`]).
    pub fn mesh_route_cleanup(&mut self)
        requires
            old(self).wf(),
        ensures
            final(self).wf(),
            final(self)@ == (NodeState { mesh: final(self)@.mesh, ..old(self)@ }),
            old(self)@.mesh is None ==> final(self)@.mesh is None,
            old(self)@.mesh matches Some(m) ==> final(self)@.mesh matches Some(m2) && m2 == (MeshState {
                routes: m2.routes,
                ..m
            }) && exists|now: u64|
                m2.routes == masked(m.routes, #[trigger] live_mask(m.routes, m.config.route_cache_ttl, now)),
    {
        match &mut self.mesh {
            Some(m) => m.route_cleanup(),
            None => {},
        }
    }

    /// Whether the running mesh network has fewer healthy peers than its
    /// configured minimum.
    pub fn mesh_partition_suspected(&self) -> (b: bool)
        ensures
            b == (self@.mesh matches Some(m) && healthy_of(self@.peers).len() < m.config.min_connections),
    {
        match &self.mesh {
            Some(m) => m.partition_suspected(&self.peer_manager),
            None => false,
        }
    }
}

/// Builder for configuring and creating nodes.
#[derive(Debug)]
pub struct SynapseNodeBuilder {
    config: SynapseConfig,
}

impl View for SynapseNodeBuilder {
    type V = ConfigModel;

    closed spec fn view(&self) -> ConfigModel {
        self.config@
    }
}

impl SynapseNodeBuilder {
    /// A builder holding the default configuration.
    pub fn new() -> (b: Self)
        ensures
            default_config(b@),
    {
        SynapseNodeBuilder { config: SynapseConfig::default() }
    }

    /// Set the node id.
    pub fn with_node_id(self, node_id: String) -> (b: Self)
        ensures
            b@ == (ConfigModel { node_id: Some(node_id@), ..self@ }),
    {
        let mut b = self;
        b.config.node_id = Some(node_id);
        b
    }

    /// Set the bind address.
    pub fn with_bind_address(self, address: SocketAddress) -> (b: Self)
        ensures
            b@ == (ConfigModel { bind_address: address, ..self@ }),
    {
        let mut b = self;
        b.config.bind_address = address;
        b
    }

    /// Set the gossip configuration.
    pub fn with_gossip_config(self, gossip: GossipConfig) -> (b: Self)
        ensures
            b@ == (ConfigModel { gossip, ..self@ }),
    {
        let mut b = self;
        b.config.gossip = gossip;
        b
    }

    /// Set the mesh configuration.
    pub fn with_mesh_config(self, mesh: MeshConfig) -> (b: Self)
        ensures
            b@ == (ConfigModel { mesh, ..self@ }),
    {
        let mut b = self;
        b.config.mesh = mesh;
        b
    }

    /// Set the discovery configuration.
    pub fn with_discovery_config(self, discovery: DiscoveryConfig) -> (b: Self)
        ensures
            b@ == (ConfigModel { discovery: discovery@, ..self@ }),
    {
        let mut b = self;
        b.config.discovery = discovery;
        b
    }

    /// Add a bootstrap peer address.
    pub fn add_bootstrap_peer(self, address: SocketAddress) -> (b: Self)
        ensures
            b@ == (ConfigModel {
                discovery: DiscoveryModel {
                    bootstrap_peers: self@.discovery.bootstrap_peers.push(address),
                    ..self@.discovery
                },
                ..self@
            }),
    {
        let mut b = self;
        b.config.discovery.bootstrap_peers.push(address);
        b
    }

    /// Turn automatic discovery on or off.
    pub fn with_auto_discovery(self, enabled: bool) -> (b: Self)
        ensures
            b@ == (ConfigModel { auto_discovery: enabled, ..self@ }),
    {
        let mut b = self;
        b.config.auto_discovery = enabled;
        b
    }

    /// Set the message buffer size.
    pub fn with_message_buffer_size(self, size: usize) -> (b: Self)
        ensures
            b@ == (ConfigModel { message_buffer_size: size, ..self@ }),
    {
        let mut b = self;
        b.config.message_buffer_size = size;
        b
    }

    /// The node this configuration describes (see [`SynapseNode::new`]).
    pub fn build(self) -> (n: SynapseNode)
        ensures
            n@.config == self@,
            match self@.node_id {
                Some(id) => n@.node_id == id,
                None => exists|u: u128| is_uuid_v4(u) && n@.node_id == #[trigger] uuid_hyphenated(u),
            },
            n@.peers == Seq::<PeerModel>::empty(),
            n@.gossip is None,
            n@.mesh is None,
            n@.uptime == 0,
            n@.messages_processed == 0,
            n@.messages_sent == 0,
            n.wf(),
    {
        SynapseNode::new(self.config)
    }
}

impl Default for SynapseNodeBuilder {
    /// A builder holding the default configuration.
    fn default() -> (b: Self)
        ensures
            default_config(b@),
    {
        Self::new()
    }
}

} // verus!
