//! SomaSync: a self-organising mesh of nodes that exchange messages by
//! gossip. This crate holds the protocol's state machines and data model;
//! every decision (which peer to evict, which envelope to forward, what a
//! route response installs) is a verified function from state and input to
//! new state and output.

pub mod address;
pub mod codec;
pub mod collections;
pub mod crypto;
pub mod error;
pub mod gossip;
pub mod load_test;
pub mod load_test_million_nodes;
pub mod logging;
pub mod mesh;
pub mod message;
pub mod node;
pub mod peer;
pub mod platform;
pub mod text;

pub use address::SocketAddress;
pub use collections::{StringMap, StringSet};
pub use error::SynapseError;
pub use gossip::{GossipConfig, GossipProtocol, GossipStats};
pub use logging::{
    development_config, production_config, CorrelationId, LogConfig, PerformanceMetrics,
    PerformanceTimer, SecurityEvent,
};
pub use mesh::{MeshConfig, MeshNetwork, MeshStats, NetworkTopology, Route};
pub use message::{priority, ttl, Message, MessageBatch, MessageEnvelope, MessageType};
pub use node::{SynapseConfig, SynapseEvent, SynapseNode, SynapseNodeBuilder, SynapseStats};
pub use peer::{DiscoveryConfig, DiscoveryMethod, Peer, PeerManager, PeerState, PeerStats};

use vstd::prelude::*;

verus! {

/// Result of the crate's fallible operations.
pub type Result<T> = std::result::Result<T, SynapseError>;

} // verus!
