//! Error type of the library.

use vstd::prelude::*;

verus! {

/// Opaque I/O error carried by [`SynapseError::Io`].
#[verifier::external_type_specification]
#[verifier::external_body]
pub struct ExIoError(std::io::Error);

/// Opaque JSON error carried by [`SynapseError::Serialization`].
#[verifier::external_type_specification]
#[verifier::external_body]
pub struct ExJsonError(serde_json::Error);

/// Opaque task-join error carried by [`SynapseError::Join`].
#[verifier::external_type_specification]
#[verifier::external_body]
pub struct ExJoinError(tokio::task::JoinError);

/// Main error type for Synapse operations.
#[derive(Debug)]
pub enum SynapseError {
    /// Network-related errors.
    Network { message: String, endpoint: String },
    /// Peer discovery and connection errors.
    Peer { message: String, peer_id: String },
    /// Message serialization/deserialization errors.
    Message { message: String },
    /// Configuration errors.
    Config { message: String },
    /// Gossip protocol errors.
    Gossip { message: String },
    /// Signature and key handling errors.
    Security(String),
    /// I/O errors.
    Io(std::io::Error),
    /// Serialization errors.
    Serialization(serde_json::Error),
    /// Task join errors.
    Join(tokio::task::JoinError),
}

impl SynapseError {
    /// Create a network error.
    pub fn network(message: String, endpoint: String) -> (e: Self)
        ensures
            e == (SynapseError::Network { message, endpoint }),
    {
        SynapseError::Network { message, endpoint }
    }

    /// Create a peer error.
    pub fn peer(message: String, peer_id: String) -> (e: Self)
        ensures
            e == (SynapseError::Peer { message, peer_id }),
    {
        SynapseError::Peer { message, peer_id }
    }

    /// Create a message error.
    pub fn message(message: String) -> (e: Self)
        ensures
            e == (SynapseError::Message { message }),
    {
        SynapseError::Message { message }
    }

    /// Create a configuration error.
    pub fn config(message: String) -> (e: Self)
        ensures
            e == (SynapseError::Config { message }),
    {
        SynapseError::Config { message }
    }

    /// Create a gossip protocol error.
    pub fn gossip(message: String) -> (e: Self)
        ensures
            e == (SynapseError::Gossip { message }),
    {
        SynapseError::Gossip { message }
    }
}

} // verus!
