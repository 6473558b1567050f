# somasync

A self-organising mesh of nodes that exchange threat-intelligence messages by
gossip, with routes discovered on demand and messages signed with Ed25519.

The protocol logic is written in Verus and proved against its contracts:

- `src/` — the verified library. Messages, envelopes and batches
  (`message.rs`), the peer table (`peer.rs`), the gossip protocol and its
  message cache (`gossip.rs`, `gossip/cache.rs`), route discovery and the
  mesh topology (`mesh.rs`), the node that ties them together (`node.rs`),
  logging records (`logging.rs`) and the data models of the load-test
  programs. Each operation is a function from state and input to new state
  and output; calls into outside crates (Ed25519, random choice, UUIDs, the
  clock) go through small trusted wrappers whose contracts state what the
  outside code does.
- `tests/` — ordinary Rust tests run against the compiled library.
- `app/` — what cannot be verified: the async runtime with its timers and
  channels, logging set-up, serialisable copies of the data types, and the
  load-test programs.
