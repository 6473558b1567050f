//! Gossip protocol: epidemic dissemination of messages with duplicate
//! suppression, hop limits and anti-entropy synchronisation. The protocol is
//! a state machine: each step takes the current state and an input and
//! returns what to deliver locally and what to send to which peer.

pub mod cache;

use crate::address::SocketAddress;
use crate::error::SynapseError;
use crate::gossip::cache::{
    cache_after_insert, id_position, lemma_id_position, lemma_missing_of, message_ids, missing_of, seen_after_evict,
    seen_after_mark, seen_ids, seen_upsert, CacheModel, MessageCache,
};
use crate::message::{
    envelope_expired_at, hop_exceeded, EnvelopeModel, Message, MessageEnvelope, MessageModel,
};
use crate::peer::{
    healthy_of, is_peer_selection, peer_healthy, peer_stale, peers_model, position_of, seen_at,
    table_remove, table_upsert, unhealthy, Peer, PeerModel, PeerTable,
};
use crate::platform::{choose_multiple, choose_one, is_selection, shuffle, unix_time_secs};
use vstd::prelude::*;

verus! {

/// Configuration for the gossip protocol. Durations are in seconds.
#[derive(Debug, Clone, Copy, PartialEq, Eq)]
pub struct GossipConfig {
    /// Maximum number of peers to gossip with per round (fanout).
    pub fanout: usize,
    /// Interval between gossip rounds.
    pub gossip_interval: u64,
    /// Maximum age of gossip messages.
    pub max_message_age: u64,
    /// Maximum number of messages to store.
    pub max_stored_messages: usize,
    /// Network timeout for peer communication.
    pub network_timeout: u64,
    /// Maximum number of hops for message propagation.
    pub max_hops: u8,
    /// Anti-entropy sync interval.
    pub sync_interval: u64,
}

impl Default for GossipConfig {
    /// Fanout 3, 30 s rounds, one hour message age, 10000 stored messages,
    /// 5 s timeout, 5 hops, 300 s sync interval.
    fn default() -> (c: Self)
        ensures
            c == (GossipConfig {
                fanout: 3,
                gossip_interval: 30,
                max_message_age: 3600,
                max_stored_messages: 10000,
                network_timeout: 5,
                max_hops: 5,
                sync_interval: 300,
            }),
    {
        GossipConfig {
            fanout: 3,
            gossip_interval: 30,
            max_message_age: 3600,
            max_stored_messages: 10000,
            network_timeout: 5,
            max_hops: 5,
            sync_interval: 300,
        }
    }
}

/// Abstract value of a [`GossipMessage`].
pub enum GossipMessageModel {
    Data(MessageModel),
    MessageRequest(u64),
    Heartbeat { node_id: Seq<char>, timestamp: u64 },
    SyncRequest { known_hashes: Seq<u64> },
    SyncResponse { missing_messages: Seq<MessageModel> },
    Ack { message_id: u64 },
}

/// Types of gossip messages.
#[derive(Debug)]
pub enum GossipMessage {
    /// User data message.
    Data(Box<Message>),
    /// Request for a specific message by id.
    MessageRequest(u64),
    /// Heartbeat to maintain peer connections.
    Heartbeat { node_id: String, timestamp: u64 },
    /// Anti-entropy synchronization request.
    SyncRequest { known_hashes: Vec<u64> },
    /// Anti-entropy synchronization response.
    SyncResponse { missing_messages: Vec<Message> },
    /// Acknowledgment of a received message.
    Ack { message_id: u64 },
}

/// Models of a sequence of messages.
pub open spec fn messages_model(v: Seq<Message>) -> Seq<MessageModel> {
    v.map_values(|m: Message| m@)
}

impl View for GossipMessage {
    type V = GossipMessageModel;

    open spec fn view(&self) -> GossipMessageModel {
        match self {
            GossipMessage::Data(m) => GossipMessageModel::Data(m@),
            GossipMessage::MessageRequest(h) => GossipMessageModel::MessageRequest(*h),
            GossipMessage::Heartbeat { node_id, timestamp } => GossipMessageModel::Heartbeat {
                node_id: node_id@,
                timestamp: *timestamp,
            },
            GossipMessage::SyncRequest { known_hashes } => GossipMessageModel::SyncRequest {
                known_hashes: known_hashes@,
            },
            GossipMessage::SyncResponse { missing_messages } => GossipMessageModel::SyncResponse {
                missing_messages: messages_model(missing_messages@),
            },
            GossipMessage::Ack { message_id } => GossipMessageModel::Ack { message_id: *message_id },
        }
    }
}

/// A copy of a list of messages.
pub fn clone_messages(v: &Vec<Message>) -> (c: Vec<Message>)
    ensures
        messages_model(c@) == messages_model(v@),
{
    let mut c: Vec<Message> = Vec::new();
    let mut i: usize = 0;
    while i < v.len()
        invariant
            i <= v.len(),
            c@.len() == i,
            forall|j: int| 0 <= j < i ==> (#[trigger] c@[j])@ == v@[j]@,
        decreases v.len() - i,
    {
        c.push(v[i].clone());
        i = i + 1;
    }
    assert(messages_model(c@) =~= messages_model(v@));
    c
}

/// A copy of a list of ids.
pub fn clone_ids(v: &Vec<u64>) -> (c: Vec<u64>)
    ensures
        c@ == v@,
{
    let mut c: Vec<u64> = Vec::new();
    let mut i: usize = 0;
    while i < v.len()
        invariant
            i <= v.len(),
            c@ == v@.take(i as int),
        decreases v.len() - i,
    {
        c.push(v[i]);
        i = i + 1;
        assert(c@ =~= v@.take(i as int));
    }
    assert(v@.take(v@.len() as int) =~= v@);
    c
}

impl Clone for GossipMessage {
    /// A copy with the same contents.
    fn clone(&self) -> (c: Self)
        ensures
            c@ == self@,
    {
        match self {
            GossipMessage::Data(m) => GossipMessage::Data(Box::new((**m).clone())),
            GossipMessage::MessageRequest(h) => GossipMessage::MessageRequest(*h),
            GossipMessage::Heartbeat { node_id, timestamp } => GossipMessage::Heartbeat {
                node_id: node_id.clone(),
                timestamp: *timestamp,
            },
            GossipMessage::SyncRequest { known_hashes } => GossipMessage::SyncRequest {
                known_hashes: clone_ids(known_hashes),
            },
            GossipMessage::SyncResponse { missing_messages } => GossipMessage::SyncResponse {
                missing_messages: clone_messages(missing_messages),
            },
            GossipMessage::Ack { message_id } => GossipMessage::Ack { message_id: *message_id },
        }
    }
}


/// A peer a message may go to: healthy, not the node itself and not the
/// node the message came from.
pub open spec fn gossip_eligible(p: PeerModel, own: Seq<char>, source: Seq<char>) -> bool {
    peer_healthy(p) && p.id != own && p.id != source
}

/// The peers of `s` a message from `source` may go to, in order.
pub open spec fn gossip_targets(s: Seq<PeerModel>, own: Seq<char>, source: Seq<char>) -> Seq<PeerModel>
    decreases s.len(),
{
    if s.len() == 0 {
        seq![]
    } else if gossip_eligible(s.last(), own, source) {
        gossip_targets(s.drop_last(), own, source).push(s.last())
    } else {
        gossip_targets(s.drop_last(), own, source)
    }
}

/// Number of peers a broadcast goes to: the fanout, or all candidates when
/// there are fewer.
pub open spec fn broadcast_fanout(fanout: usize, n: nat) -> nat {
    if (fanout as nat) < n {
        fanout as nat
    } else {
        n
    }
}

/// Number of peers a forwarded message goes to: half the fanout, at least
/// one, and no more than there are candidates.
pub open spec fn forward_fanout(fanout: usize, n: nat) -> nat {
    let half: nat = if fanout / 2 > 0 {
        (fanout / 2) as nat
    } else {
        1
    };
    if half < n {
        half
    } else {
        n
    }
}

/// Addresses and envelope models of queued sends.
pub open spec fn outbound_model(v: Seq<(SocketAddress, MessageEnvelope)>) -> Seq<(SocketAddress, EnvelopeModel)> {
    v.map_values(|x: (SocketAddress, MessageEnvelope)| (x.0, x.1@))
}

/// `out` sends `e` to each of `chosen`, in order.
pub open spec fn sends_to(out: Seq<(SocketAddress, EnvelopeModel)>, chosen: Seq<PeerModel>, e: EnvelopeModel) -> bool {
    &&& out.len() == chosen.len()
    &&& forall|i: int| 0 <= i < out.len() ==> #[trigger] out[i] == (chosen[i].address, e)
}

/// `out` sends `e` to `count` distinct peers drawn from `candidates`.
pub open spec fn spread(out: Seq<(SocketAddress, EnvelopeModel)>, candidates: Seq<PeerModel>, count: nat, e: EnvelopeModel) -> bool {
    exists|chosen: Seq<PeerModel>|
        #[trigger] is_peer_selection(candidates, chosen) && chosen.len() == count && sends_to(out, chosen, e)
}

/// The numbers `0..n`, in order.
fn index_list(n: usize) -> (v: Vec<usize>)
    ensures
        v@.len() == n,
        forall|j: int| 0 <= j < n ==> #[trigger] v@[j] == j,
{
    let mut v: Vec<usize> = Vec::new();
    let mut i: usize = 0;
    while i < n
        invariant
            i <= n,
            v@.len() == i,
            forall|j: int| 0 <= j < i ==> #[trigger] v@[j] == j,
        decreases n - i,
    {
        v.push(i);
        i = i + 1;
    }
    v
}

/// Copies of the peers of `cands` at the first `count` positions of
/// `picked`, which are distinct positions of `cands`.
fn peers_at(cands: &Vec<Peer>, picked: &Vec<usize>, count: usize) -> (r: Vec<Peer>)
    requires
        count <= picked@.len(),
        forall|i: int| 0 <= i < picked@.len() ==> #[trigger] picked@[i] < cands@.len(),
        forall|i: int, j: int| 0 <= i < j < picked@.len() ==> #[trigger] picked@[i] != #[trigger] picked@[j],
    ensures
        r@.len() == count,
        is_peer_selection(peers_model(cands@), peers_model(r@)),
{
    let ghost cm = peers_model(cands@);
    let mut r: Vec<Peer> = Vec::new();
    let mut k: usize = 0;
    while k < count
        invariant
            k <= count,
            count <= picked@.len(),
            cm == peers_model(cands@),
            r@.len() == k,
            forall|i: int| 0 <= i < picked@.len() ==> #[trigger] picked@[i] < cands@.len(),
            forall|j: int| 0 <= j < k ==> (#[trigger] r@[j])@ == cm[picked@[j] as int],
        decreases count - k,
    {
        let q = cands[picked[k]].clone();
        let ghost r0 = r@;
        r.push(q);
        proof {
            assert forall|j: int| 0 <= j < k + 1 implies (#[trigger] r@[j])@ == cm[picked@[j] as int] by {
                if j < k {
                    assert(r@[j] == r0[j]);
                }
            }
        }
        k = k + 1;
    }
    proof {
        let pos = Seq::new(count as nat, |i: int| picked@[i] as int);
        assert(pos.len() == peers_model(r@).len());
        assert forall|i: int| 0 <= i < pos.len() implies 0 <= #[trigger] pos[i] < cm.len() && peers_model(r@)[i]
            == cm[pos[i]] by {}
        assert forall|i: int, j: int| 0 <= i < j < pos.len() implies #[trigger] pos[i] != #[trigger] pos[j] by {
            assert(picked@[i] != picked@[j]);
        }
    }
    r
}

/// Positions drawn without repetition from `0..n` are distinct and in range.
proof fn lemma_index_selection(idx: Seq<usize>, picked: Seq<usize>, n: nat)
    requires
        idx.len() == n,
        forall|j: int| 0 <= j < n ==> #[trigger] idx[j] == j,
        is_selection(idx, picked),
    ensures
        forall|i: int| 0 <= i < picked.len() ==> #[trigger] picked[i] < n,
        forall|i: int, j: int| 0 <= i < j < picked.len() ==> #[trigger] picked[i] != #[trigger] picked[j],
{
    let pos = choose|pos: Seq<int>|
        #![trigger pos.len()]
        pos.len() == picked.len() && (forall|i: int|
            0 <= i < pos.len() ==> 0 <= #[trigger] pos[i] < idx.len() && picked[i] == idx[pos[i]]) && (
        forall|i: int, j: int| 0 <= i < j < pos.len() ==> #[trigger] pos[i] != #[trigger] pos[j]);
    assert forall|i: int| 0 <= i < picked.len() implies #[trigger] picked[i] < n by {
        assert(picked[i] == idx[pos[i]]);
    }
    assert forall|i: int, j: int| 0 <= i < j < picked.len() implies #[trigger] picked[i] != #[trigger] picked[j] by {
        assert(picked[i] == idx[pos[i]]);
        assert(picked[j] == idx[pos[j]]);
        assert(pos[i] != pos[j]);
    }
}

/// Sends of a copy of `env` to each of `chosen`.
fn address_all(chosen: &Vec<Peer>, env: &MessageEnvelope) -> (out: Vec<(SocketAddress, MessageEnvelope)>)
    ensures
        sends_to(outbound_model(out@), peers_model(chosen@), env@),
{
    let mut out: Vec<(SocketAddress, MessageEnvelope)> = Vec::new();
    let mut i: usize = 0;
    while i < chosen.len()
        invariant
            i <= chosen@.len(),
            out@.len() == i,
            forall|j: int| 0 <= j < i ==> #[trigger] outbound_model(out@)[j] == (chosen@[j]@.address, env@),
        decreases chosen.len() - i,
    {
        let ghost o0 = out@;
        let c = env.clone();
        out.push((chosen[i].address, c));
        proof {
            assert forall|j: int| 0 <= j < i + 1 implies #[trigger] outbound_model(out@)[j] == (chosen@[j]@.address, env@) by {
                if j < i {
                    assert(out@[j] == o0[j]);
                    assert(outbound_model(o0)[j] == (chosen@[j]@.address, env@));
                } else {
                    assert(out@[j] == (chosen@[j]@.address, c));
                }
            }
        }
        i = i + 1;
    }
    proof {
        assert forall|j: int| 0 <= j < outbound_model(out@).len() implies #[trigger] outbound_model(out@)[j]
            == (peers_model(chosen@)[j].address, env@) by {}
    }
    out
}

/// Cached messages after storing each of `ms` in turn at time `now`.
pub open spec fn cache_after_inserts(s: Seq<MessageModel>, ms: Seq<MessageModel>, now: u64, max: usize) -> Seq<MessageModel>
    decreases ms.len(),
{
    if ms.len() == 0 {
        s
    } else {
        cache_after_insert(cache_after_inserts(s, ms.drop_last(), now, max), ms.last(), now, max)
    }
}

/// Peers after a heartbeat from `id` stamped `ts`: that peer, if known, is
/// seen at `ts` and marked connected.
pub open spec fn heartbeat_update(s: Seq<PeerModel>, id: Seq<char>, ts: u64) -> Seq<PeerModel> {
    if position_of(s, id) >= 0 {
        s.update(position_of(s, id), seen_at(s[position_of(s, id)], ts))
    } else {
        s
    }
}

/// An envelope freshly made by the node `own` for `message`: no hops taken,
/// at most 10 hops, one hour TTL, no routing hints.
pub open spec fn fresh_envelope(e: EnvelopeModel, own: Seq<char>, message: GossipMessageModel) -> bool {
    &&& e.message == message
    &&& e.source_node == own
    &&& e.hop_count == 0
    &&& e.max_hops == 10
    &&& e.envelope_ttl == 3600
    &&& e.routing_hints.len() == 0
}

/// A fresh heartbeat envelope of the node `own`, carrying its id and some
/// clock reading.
pub open spec fn heartbeat_envelope(e: EnvelopeModel, own: Seq<char>) -> bool {
    match e.message {
        GossipMessageModel::Heartbeat { node_id, timestamp } => fresh_envelope(
            e,
            own,
            GossipMessageModel::Heartbeat { node_id: own, timestamp },
        ),
        _ => false,
    }
}

/// The reply to a sync request from `requester` knowing `known`: the
/// messages it lacks, sent to it when there are any and it is a known peer.
pub open spec fn sync_reply(
    out: Seq<(SocketAddress, EnvelopeModel)>,
    cached: Seq<MessageModel>,
    peers: Seq<PeerModel>,
    own: Seq<char>,
    requester: Seq<char>,
    known: Seq<u64>,
) -> bool {
    let missing = missing_of(cached, known);
    if missing.len() > 0 && position_of(peers, requester) >= 0 {
        &&& out.len() == 1
        &&& out[0].0 == peers[position_of(peers, requester)].address
        &&& fresh_envelope(out[0].1, own, GossipMessageModel::SyncResponse { missing_messages: missing })
    } else {
        out.len() == 0
    }
}

/// Ids of the peers of `s` stale for five minutes at time `now`, in order.
pub open spec fn stale_ids(s: Seq<PeerModel>, now: u64) -> Seq<Seq<char>>
    decreases s.len(),
{
    if s.len() == 0 {
        seq![]
    } else if peer_stale(s.last(), 300, now) {
        stale_ids(s.drop_last(), now).push(s.last().id)
    } else {
        stale_ids(s.drop_last(), now)
    }
}

/// Abstract state of a [`GossipProtocol`].
pub struct GossipState {
    pub node_id: Seq<char>,
    pub config: GossipConfig,
    pub peers: Seq<PeerModel>,
    pub cache: CacheModel,
}

/// The state of a fresh protocol instance: no peers, an empty cache.
pub open spec fn initial_gossip_state(node_id: Seq<char>, config: GossipConfig) -> GossipState {
    GossipState {
        node_id,
        config,
        peers: Seq::empty(),
        cache: CacheModel { seen: Seq::empty(), cached: Seq::empty(), max_size: config.max_stored_messages },
    }
}

/// Whether the node processes `e` at time `now`: not expired, within the
/// hop limit, and not seen before.
pub open spec fn accepted(s: GossipState, e: EnvelopeModel, now: u64) -> bool {
    !envelope_expired_at(e, now) && !hop_exceeded(e, s.config.max_hops) && !seen_ids(s.cache.seen).contains(
        e.message_id,
    )
}

/// Handling `e` at time `now` takes state `s` to `t`, delivers `delivered`
/// locally and queues `out`.
pub open spec fn handled(
    s: GossipState,
    e: EnvelopeModel,
    now: u64,
    t: GossipState,
    delivered: Seq<MessageModel>,
    out: Seq<(SocketAddress, EnvelopeModel)>,
) -> bool {
    if !accepted(s, e, now) {
        t == s && delivered.len() == 0 && out.len() == 0
    } else {
        let marked = CacheModel {
            seen: seen_after_mark(s.cache.seen, e.message_id, e.timestamp, now, s.cache.max_size),
            ..s.cache
        };
        &&& t.node_id == s.node_id
        &&& t.config == s.config
        &&& match e.message {
            GossipMessageModel::Data(m) => {
                let targets = gossip_targets(s.peers, s.node_id, e.source_node);
                &&& t.peers == s.peers
                &&& t.cache == (CacheModel { cached: cache_after_insert(marked.cached, m, now, marked.max_size), ..marked })
                &&& delivered == seq![m]
                &&& spread(
                    out,
                    targets,
                    forward_fanout(s.config.fanout, targets.len()),
                    EnvelopeModel { hop_count: (e.hop_count + 1) as u8, ..e },
                )
            },
            GossipMessageModel::Heartbeat { node_id, timestamp } => {
                &&& t.peers == heartbeat_update(s.peers, node_id, timestamp)
                &&& t.cache == marked
                &&& delivered.len() == 0
                &&& out.len() == 0
            },
            GossipMessageModel::SyncRequest { known_hashes } => {
                &&& t.peers == s.peers
                &&& t.cache == marked
                &&& delivered.len() == 0
                &&& sync_reply(out, marked.cached, s.peers, s.node_id, e.source_node, known_hashes)
            },
            GossipMessageModel::SyncResponse { missing_messages } => {
                &&& t.peers == s.peers
                &&& t.cache == (CacheModel {
                    cached: cache_after_inserts(marked.cached, missing_messages, now, marked.max_size),
                    ..marked
                })
                &&& delivered == missing_messages
                &&& out.len() == 0
            },
            _ => {
                &&& t.peers == s.peers
                &&& t.cache == marked
                &&& delivered.len() == 0
                &&& out.len() == 0
            },
        }
    }
}

/// What handling one envelope yields: messages for the local node and
/// envelopes to send, each with the address of its peer.
#[derive(Debug)]
pub struct GossipStep {
    /// Messages delivered to the local node.
    pub delivered: Vec<Message>,
    /// Envelopes to send, with the address of the peer each goes to.
    pub outbound: Vec<(SocketAddress, MessageEnvelope)>,
}

/// Gossip protocol statistics.
#[derive(Debug, Clone, Copy, PartialEq, Eq)]
pub struct GossipStats {
    pub healthy_peers: usize,
    pub total_peers: usize,
    pub cached_messages: usize,
    pub known_messages: usize,
}

/// The gossip protocol of one node: its peers and its message cache. It
/// performs no I/O: each operation returns what to deliver and to send.
#[derive(Debug)]
pub struct GossipProtocol {
    /// Our node identifier.
    node_id: String,
    /// Protocol configuration.
    config: GossipConfig,
    /// Known peers.
    peers: PeerTable,
    /// Message cache.
    cache: MessageCache,
}

impl View for GossipProtocol {
    type V = GossipState;

    closed spec fn view(&self) -> GossipState {
        GossipState { node_id: self.node_id@, config: self.config, peers: self.peers@, cache: self.cache@ }
    }
}

impl GossipProtocol {
    /// A protocol instance for node `node_id` with no peers and an empty
    /// cache holding up to `config.max_stored_messages` entries.
    pub fn new(node_id: String, config: GossipConfig) -> (g: Self)
        ensures
            g@ == initial_gossip_state(node_id@, config),
    {
        GossipProtocol {
            node_id,
            config,
            peers: PeerTable::new(),
            cache: MessageCache::new(config.max_stored_messages),
        }
    }

    /// The known peers.
    pub fn peer_table(&self) -> (t: &PeerTable)
        ensures
            t@ == self@.peers,
    {
        &self.peers
    }

    /// Add a peer, replacing one with the same id. Always succeeds.
    pub fn add_peer(&mut self, peer: Peer) -> (r: Result<(), SynapseError>)
        ensures
            r is Ok,
            final(self)@ == (GossipState { peers: table_upsert(old(self)@.peers, peer@), ..old(self)@ }),
    {
        self.peers.upsert(peer);
        Ok(())
    }

    /// Remove the peer with id `node_id`, if known. Always succeeds.
    pub fn remove_peer(&mut self, node_id: &String) -> (r: Result<(), SynapseError>)
        ensures
            r is Ok,
            final(self)@ == (GossipState { peers: table_remove(old(self)@.peers, node_id@), ..old(self)@ }),
    {
        self.peers.remove(node_id);
        Ok(())
    }

    /// Copies of the peers a message from `source` may go to, in order.
    fn targets(&self, source: &String) -> (v: Vec<Peer>)
        ensures
            peers_model(v@) == gossip_targets(self@.peers, self@.node_id, source@),
    {
        let mut v: Vec<Peer> = Vec::new();
        let mut i: usize = 0;
        let n = self.peers.len();
        while i < n
            invariant
                i <= n,
                n == self@.peers.len(),
                peers_model(v@) == gossip_targets(self@.peers.take(i as int), self@.node_id, source@),
            decreases n - i,
        {
            let p = self.peers.at(i);
            proof {
                let t = self@.peers.take(i + 1);
                assert(t.drop_last() =~= self@.peers.take(i as int));
                assert(t.last() == self@.peers[i as int]);
            }
            if p.is_healthy() && p.id != self.node_id && p.id != *source {
                v.push(p.clone());
            }
            i = i + 1;
            assert(peers_model(v@) =~= gossip_targets(self@.peers.take(i as int), self@.node_id, source@));
        }
        assert(self@.peers.take(n as int) =~= self@.peers);
        v
    }

    /// Send `envelope` to `fanout` healthy peers (all of them when there are
    /// fewer), picked at random.
    pub fn broadcast_message(&self, envelope: MessageEnvelope) -> (out: Vec<(SocketAddress, MessageEnvelope)>)
        ensures
            spread(
                outbound_model(out@),
                gossip_targets(self@.peers, self@.node_id, self@.node_id),
                broadcast_fanout(self@.config.fanout, gossip_targets(self@.peers, self@.node_id, self@.node_id).len()),
                envelope@,
            ),
    {
        let cands = self.targets(&self.node_id);
        let n = cands.len();
        let fanout = if self.config.fanout < n {
            self.config.fanout
        } else {
            n
        };
        let mut idx = index_list(n);
        let ghost idx0 = idx@;
        shuffle(&mut idx);
        proof {
            lemma_index_selection(idx0, idx@, n as nat);
        }
        let chosen = peers_at(&cands, &idx, fanout);
        let out = address_all(&chosen, &envelope);
        proof {
            let cm = peers_model(chosen@);
            assert(is_peer_selection(peers_model(cands@), cm) && cm.len() == fanout && sends_to(
                outbound_model(out@),
                cm,
                envelope@,
            ));
        }
        out
    }

    /// Forward `envelope` to half the fanout (at least one) of the healthy
    /// peers other than its source, picked at random.
    pub fn forward_message(&self, envelope: MessageEnvelope) -> (out: Vec<(SocketAddress, MessageEnvelope)>)
        ensures
            spread(
                outbound_model(out@),
                gossip_targets(self@.peers, self@.node_id, envelope@.source_node),
                forward_fanout(self@.config.fanout, gossip_targets(self@.peers, self@.node_id, envelope@.source_node).len()),
                envelope@,
            ),
    {
        let cands = self.targets(&envelope.source_node);
        let n = cands.len();
        let half = if self.config.fanout / 2 > 0 {
            self.config.fanout / 2
        } else {
            1
        };
        let fanout = if half < n {
            half
        } else {
            n
        };
        let idx = index_list(n);
        let picked = choose_multiple(&idx, fanout);
        proof {
            lemma_index_selection(idx@, picked@, n as nat);
        }
        let chosen = peers_at(&cands, &picked, picked.len());
        let out = address_all(&chosen, &envelope);
        proof {
            let cm = peers_model(chosen@);
            assert(is_peer_selection(peers_model(cands@), cm) && cm.len() == fanout && sends_to(
                outbound_model(out@),
                cm,
                envelope@,
            ));
        }
        out
    }

    /// Gossip `message` to the network: wrap it in a fresh envelope from
    /// this node and broadcast it. Always succeeds.
    pub fn gossip_message(&self, message: Message) -> (r: Result<Vec<(SocketAddress, MessageEnvelope)>, SynapseError>)
        ensures
            r is Ok,
            exists|e: EnvelopeModel|
                fresh_envelope(e, self@.node_id, GossipMessageModel::Data(message@)) && #[trigger] spread(
                    outbound_model(r->Ok_0@),
                    gossip_targets(self@.peers, self@.node_id, self@.node_id),
                    broadcast_fanout(self@.config.fanout, gossip_targets(self@.peers, self@.node_id, self@.node_id).len()),
                    e,
                ),
    {
        let ghost m = message@;
        let envelope = MessageEnvelope::new(self.node_id.clone(), GossipMessage::Data(Box::new(message)));
        let ghost e = envelope@;
        let out = self.broadcast_message(envelope);
        assert(fresh_envelope(e, self@.node_id, GossipMessageModel::Data(m)));
        assert(spread(
            outbound_model(out@),
            gossip_targets(self@.peers, self@.node_id, self@.node_id),
            broadcast_fanout(self@.config.fanout, gossip_targets(self@.peers, self@.node_id, self@.node_id).len()),
            e,
        ));
        let r: Result<Vec<(SocketAddress, MessageEnvelope)>, SynapseError> = Ok(out);
        assert(r->Ok_0@ == out@);
        r
    }

    /// Record a heartbeat from `node_id` stamped `timestamp`: that peer, if
    /// known, is seen at `timestamp` and marked connected.
    fn update_peer_heartbeat(&mut self, node_id: &String, timestamp: u64)
        ensures
            final(self)@ == (GossipState { peers: heartbeat_update(old(self)@.peers, node_id@, timestamp), ..old(self)@ }),
    {
        match self.peers.find(node_id) {
            Some(i) => {
                let mut p = self.peers.at(i).clone();
                p.update_last_seen(timestamp);
                p.mark_healthy();
                self.peers.replace_at(i, p);
            },
            None => {},
        }
    }

    /// The reply to a sync request from `requester` that knows the
    /// messages `known_hashes`.
    fn handle_sync_request(&self, requester: &String, known_hashes: &Vec<u64>) -> (out: Vec<(SocketAddress, MessageEnvelope)>)
        ensures
            sync_reply(outbound_model(out@), self@.cache.cached, self@.peers, self@.node_id, requester@, known_hashes@),
    {
        let missing = self.cache.missing_from(known_hashes);
        let mut out: Vec<(SocketAddress, MessageEnvelope)> = Vec::new();
        if missing.len() > 0 {
            match self.peers.find(requester) {
                Some(i) => {
                    let addr = self.peers.at(i).address;
                    let ghost mm = messages_model(missing@);
                    let response = MessageEnvelope::new(
                        self.node_id.clone(),
                        GossipMessage::SyncResponse { missing_messages: missing },
                    );
                    out.push((addr, response));
                    assert(outbound_model(out@)[0] == (addr, out@[0].1@));
                },
                None => {},
            }
        }
        out
    }

    /// Store each of `messages` in the cache at time `now`, returning
    /// copies of them for local delivery.
    fn ingest_all(&mut self, messages: &Vec<Message>, now: u64) -> (delivered: Vec<Message>)
        ensures
            final(self)@ == (GossipState {
                cache: CacheModel {
                    cached: cache_after_inserts(old(self)@.cache.cached, messages_model(messages@), now, old(self)@.cache.max_size),
                    ..old(self)@.cache
                },
                ..old(self)@
            }),
            messages_model(delivered@) == messages_model(messages@),
    {
        let mut delivered: Vec<Message> = Vec::new();
        let mut i: usize = 0;
        while i < messages.len()
            invariant
                i <= messages@.len(),
                self@ == (GossipState {
                    cache: CacheModel {
                        cached: cache_after_inserts(
                            old(self)@.cache.cached,
                            messages_model(messages@).take(i as int),
                            now,
                            old(self)@.cache.max_size,
                        ),
                        ..old(self)@.cache
                    },
                    ..old(self)@
                }),
                messages_model(delivered@) == messages_model(messages@).take(i as int),
            decreases messages.len() - i,
        {
            proof {
                let t = messages_model(messages@).take(i as int + 1);
                assert(t.drop_last() =~= messages_model(messages@).take(i as int));
                assert(t.last() == messages@[i as int]@);
            }
            self.cache.cache_message_at(messages[i].clone(), now);
            let ghost before = delivered@;
            delivered.push(messages[i].clone());
            assert(messages_model(delivered@) =~= messages_model(before).push(messages@[i as int]@));
            i = i + 1;
            assert(messages_model(delivered@) =~= messages_model(messages@).take(i as int));
        }
        assert(messages_model(messages@).take(messages@.len() as int) =~= messages_model(messages@));
        delivered
    }

    /// Process an incoming envelope at time `now`. Expired envelopes, those
    /// past the hop limit and those seen before are dropped; otherwise the
    /// envelope is recorded as seen and handled by kind: data is cached,
    /// delivered and forwarded one hop further; a heartbeat refreshes its
    /// peer; a sync request is answered with the messages the requester
    /// lacks; a sync response is cached and delivered. Always succeeds.
    pub fn handle_message_at(&mut self, envelope: MessageEnvelope, now: u64) -> (r: Result<GossipStep, SynapseError>)
        ensures
            r is Ok,
            handled(
                old(self)@,
                envelope@,
                now,
                final(self)@,
                messages_model(r->Ok_0.delivered@),
                outbound_model(r->Ok_0.outbound@),
            ),
    {
        let mut delivered: Vec<Message> = Vec::new();
        let mut outbound: Vec<(SocketAddress, MessageEnvelope)> = Vec::new();
        assert(messages_model(delivered@) =~= Seq::<MessageModel>::empty());
        assert(outbound_model(outbound@) =~= Seq::<(SocketAddress, EnvelopeModel)>::empty());
        if envelope.is_expired_at(now) || envelope.is_hop_exceeded(self.config.max_hops) || self.cache.has_seen(
            envelope.message_id,
        ) {
            let r: Result<GossipStep, SynapseError> = Ok(GossipStep { delivered, outbound });
            return r;
        }
        let ghost s0 = self@;
        self.cache.mark_seen_at(envelope.message_id, envelope.timestamp, now);
        match &envelope.message {
            GossipMessage::Data(m) => {
                self.cache.cache_message_at((**m).clone(), now);
                delivered.push((**m).clone());
                assert(messages_model(delivered@) =~= seq![m@]);
                let mut fwd = envelope.clone();
                fwd.increment_hop();
                outbound = self.forward_message(fwd);
            },
            GossipMessage::Heartbeat { node_id, timestamp } => {
                self.update_peer_heartbeat(node_id, *timestamp);
            },
            GossipMessage::SyncRequest { known_hashes } => {
                outbound = self.handle_sync_request(&envelope.source_node, known_hashes);
            },
            GossipMessage::SyncResponse { missing_messages } => {
                delivered = self.ingest_all(missing_messages, now);
            },
            _ => {},
        }
        let r: Result<GossipStep, SynapseError> = Ok(GossipStep { delivered, outbound });
        r
    }

    /// Process an incoming envelope at the current time.
    pub fn handle_message(&mut self, envelope: MessageEnvelope) -> (r: Result<GossipStep, SynapseError>)
        ensures
            r is Ok,
            exists|now: u64|
                #[trigger] handled(
                    old(self)@,
                    envelope@,
                    now,
                    final(self)@,
                    messages_model(r->Ok_0.delivered@),
                    outbound_model(r->Ok_0.outbound@),
                ),
    {
        let now = unix_time_secs();
        self.handle_message_at(envelope, now)
    }

    /// One gossip round's heartbeat: an envelope from this node carrying
    /// its id and the current time, sent to every healthy peer.
    pub fn heartbeat_round(&self) -> (out: Vec<(SocketAddress, MessageEnvelope)>)
        ensures
            exists|e: EnvelopeModel|
                heartbeat_envelope(e, self@.node_id) && #[trigger] sends_to(outbound_model(out@), healthy_of(self@.peers), e),
    {
        let now = unix_time_secs();
        let envelope = MessageEnvelope::new(
            self.node_id.clone(),
            GossipMessage::Heartbeat { node_id: self.node_id.clone(), timestamp: now },
        );
        let healthy = self.peers.healthy();
        let out = address_all(&healthy, &envelope);
        assert(heartbeat_envelope(envelope@, self@.node_id));
        assert(sends_to(outbound_model(out@), healthy_of(self@.peers), envelope@));
        out
    }

    /// One anti-entropy round: a sync request listing the ids of the cached
    /// messages, for one healthy peer picked at random (none when no peer is
    /// healthy).
    pub fn sync_round(&self) -> (r: Option<(SocketAddress, MessageEnvelope)>)
        ensures
            r is None <==> healthy_of(self@.peers).len() == 0,
            r matches Some(x) ==> (exists|i: int|
                0 <= i < healthy_of(self@.peers).len() && x.0 == #[trigger] healthy_of(self@.peers)[i].address)
                && fresh_envelope(
                x.1@,
                self@.node_id,
                GossipMessageModel::SyncRequest { known_hashes: message_ids(self@.cache.cached) },
            ),
    {
        let known_hashes = self.cache.known_message_hashes();
        let envelope = MessageEnvelope::new(self.node_id.clone(), GossipMessage::SyncRequest { known_hashes });
        let healthy = self.peers.healthy();
        let idx = index_list(healthy.len());
        match choose_one(&idx) {
            Some(k) => {
                proof {
                    let w = choose|w: int| 0 <= w < idx@.len() && idx@[w] == k;
                    assert(idx@[w] == w);
                }
                let addr = healthy[k].address;
                assert(healthy_of(self@.peers)[k as int].address == addr);
                Some((addr, envelope))
            },
            None => None,
        }
    }

    /// Mark unhealthy every peer not seen for five minutes at time `now`,
    /// returning their ids in order.
    pub fn health_check_at(&mut self, now: u64) -> (stale: Vec<String>)
        requires
            forall|i: int|
                0 <= i < old(self)@.peers.len() && peer_stale(#[trigger] old(self)@.peers[i], 300, now)
                    ==> old(self)@.peers[i].failure_count < u32::MAX,
        ensures
            final(self)@ == (GossipState {
                peers: Seq::new(
                    old(self)@.peers.len(),
                    |i: int|
                        if peer_stale(old(self)@.peers[i], 300, now) {
                            unhealthy(old(self)@.peers[i])
                        } else {
                            old(self)@.peers[i]
                        },
                ),
                ..old(self)@
            }),
            stale@.map_values(|s: String| s@) == stale_ids(old(self)@.peers, now),
    {
        let ghost s0 = self@.peers;
        let mut stale: Vec<String> = Vec::new();
        let n = self.peers.len();
        let mut i: usize = 0;
        while i < n
            invariant
                i <= n,
                n == s0.len(),
                self@ == (GossipState { peers: self@.peers, ..old(self)@ }),
                self@.peers.len() == n,
                forall|j: int|
                    0 <= j < n ==> #[trigger] self@.peers[j] == if j < i && peer_stale(s0[j], 300, now) {
                        unhealthy(s0[j])
                    } else {
                        s0[j]
                    },
                forall|j: int| 0 <= j < n && peer_stale(#[trigger] s0[j], 300, now) ==> s0[j].failure_count < u32::MAX,
                stale@.map_values(|s: String| s@) == stale_ids(s0.take(i as int), now),
            decreases n - i,
        {
            proof {
                let t = s0.take(i as int + 1);
                assert(t.drop_last() =~= s0.take(i as int));
                assert(t.last() == s0[i as int]);
            }
            let ghost before = stale@;
            if self.peers.at(i).is_stale_at(300, now) {
                let mut p = self.peers.at(i).clone();
                p.mark_unhealthy();
                let id = p.id.clone();
                let ghost t0 = self@.peers;
                self.peers.replace_at(i, p);
                stale.push(id);
                assert(stale@.map_values(|s: String| s@) =~= before.map_values(|s: String| s@).push(s0[i as int].id));
                assert forall|j: int| 0 <= j < n implies #[trigger] self@.peers[j] == if j < i + 1 && peer_stale(s0[j], 300, now) {
                    unhealthy(s0[j])
                } else {
                    s0[j]
                } by {
                    if j != i {
                        assert(self@.peers[j] == t0[j]);
                    }
                }
            }
            i = i + 1;
        }
        assert(s0.take(n as int) =~= s0);
        assert(self@.peers =~= Seq::new(
            s0.len(),
            |i: int|
                if peer_stale(s0[i], 300, now) {
                    unhealthy(s0[i])
                } else {
                    s0[i]
                },
        ));
        stale
    }

    /// Mark unhealthy every peer not seen for five minutes by the current
    /// clock, returning their ids in order.
    pub fn health_check(&mut self) -> (stale: Vec<String>)
        requires
            forall|i: int| 0 <= i < old(self)@.peers.len() ==> #[trigger] old(self)@.peers[i].failure_count < u32::MAX,
        ensures
            exists|now: u64|
                #[trigger] stale_ids(old(self)@.peers, now) == stale@.map_values(|s: String| s@) && final(self)@ == (
                GossipState {
                    peers: Seq::new(
                        old(self)@.peers.len(),
                        |i: int|
                            if peer_stale(old(self)@.peers[i], 300, now) {
                                unhealthy(old(self)@.peers[i])
                            } else {
                                old(self)@.peers[i]
                            },
                    ),
                    ..old(self)@
                }),
    {
        let now = unix_time_secs();
        self.health_check_at(now)
    }

    /// Protocol statistics: healthy and total peers, cached messages and
    /// seen-message records.
    pub fn get_stats(&self) -> (st: GossipStats)
        ensures
            st == (GossipStats {
                healthy_peers: healthy_of(self@.peers).len() as usize,
                total_peers: self@.peers.len() as usize,
                cached_messages: self@.cache.cached.len() as usize,
                known_messages: self@.cache.seen.len() as usize,
            }),
    {
        let healthy = self.peers.healthy();
        GossipStats {
            healthy_peers: healthy.len(),
            total_peers: self.peers.len(),
            cached_messages: self.cache.cached_count(),
            known_messages: self.cache.seen_count(),
        }
    }
}
/// After recording `id`, the record set holds it.
proof fn lemma_upsert_records(s: Seq<(u64, u64)>, id: u64, ts: u64)
    ensures
        seen_ids(seen_upsert(s, id, ts)).contains(id),
{
    lemma_id_position(seen_ids(s), id);
    let t = seen_upsert(s, id, ts);
    if id_position(seen_ids(s), id) >= 0 {
        assert(seen_ids(t)[id_position(seen_ids(s), id)] == id);
    } else {
        assert(seen_ids(t)[s.len() as int] == id);
    }
}

/// Duplicate suppression: once a node has processed an envelope, the same
/// envelope handled again, at any time, changes nothing and yields nothing.
pub proof fn lemma_duplicate_ignored(
    s: GossipState,
    e: EnvelopeModel,
    now: u64,
    t: GossipState,
    delivered: Seq<MessageModel>,
    out: Seq<(SocketAddress, EnvelopeModel)>,
    later: u64,
    t2: GossipState,
    delivered2: Seq<MessageModel>,
    out2: Seq<(SocketAddress, EnvelopeModel)>,
)
    requires
        accepted(s, e, now),
        handled(s, e, now, t, delivered, out),
        handled(t, e, later, t2, delivered2, out2),
    ensures
        t2 == t,
        delivered2.len() == 0,
        out2.len() == 0,
{
    let marked = if s.cache.seen.len() >= s.cache.max_size {
        seen_after_evict(s.cache.seen, now, s.cache.max_size)
    } else {
        s.cache.seen
    };
    lemma_upsert_records(marked, e.message_id, e.timestamp);
    assert(t.cache.seen == seen_after_mark(s.cache.seen, e.message_id, e.timestamp, now, s.cache.max_size));
    assert(!accepted(t, e, later));
}

/// The peers a message from `source` may go to are peers of `s` that are
/// healthy and neither the node itself nor the source.
pub proof fn lemma_targets_eligible(s: Seq<PeerModel>, own: Seq<char>, source: Seq<char>)
    ensures
        forall|j: int|
            0 <= j < gossip_targets(s, own, source).len() ==> gossip_eligible(
                #[trigger] gossip_targets(s, own, source)[j],
                own,
                source,
            ) && s.contains(gossip_targets(s, own, source)[j]),
    decreases s.len(),
{
    if s.len() > 0 {
        lemma_targets_eligible(s.drop_last(), own, source);
        let r = gossip_targets(s.drop_last(), own, source);
        assert forall|j: int| 0 <= j < gossip_targets(s, own, source).len() implies gossip_eligible(
            #[trigger] gossip_targets(s, own, source)[j],
            own,
            source,
        ) && s.contains(gossip_targets(s, own, source)[j]) by {
            if j < r.len() {
                assert(gossip_targets(s, own, source)[j] == r[j]);
                let w = choose|w: int| 0 <= w < s.drop_last().len() && s.drop_last()[w] == r[j];
                assert(s[w] == r[j]);
            } else {
                assert(s[s.len() - 1] == s.last());
            }
        }
    }
}

/// `a` is the address of a peer of `peers` that is healthy and neither the
/// node `own` nor `source`.
pub open spec fn eligible_address(peers: Seq<PeerModel>, own: Seq<char>, source: Seq<char>, a: SocketAddress) -> bool {
    exists|p: PeerModel| #![trigger peers.contains(p)] peers.contains(p) && p.address == a && gossip_eligible(p, own, source)
}

/// A forwarded envelope never goes back to its source or to the node
/// itself: every address it is sent to belongs to a healthy peer that is
/// neither.
pub proof fn lemma_forward_avoids_source(
    peers: Seq<PeerModel>,
    own: Seq<char>,
    source: Seq<char>,
    count: nat,
    e: EnvelopeModel,
    out: Seq<(SocketAddress, EnvelopeModel)>,
)
    requires
        spread(out, gossip_targets(peers, own, source), count, e),
    ensures
        forall|i: int| 0 <= i < out.len() ==> eligible_address(peers, own, source, #[trigger] out[i].0),
{
    let targets = gossip_targets(peers, own, source);
    lemma_targets_eligible(peers, own, source);
    let chosen = choose|chosen: Seq<PeerModel>|
        #[trigger] is_peer_selection(targets, chosen) && chosen.len() == count && sends_to(out, chosen, e);
    let pos = choose|pos: Seq<int>|
        #![trigger pos.len()]
        pos.len() == chosen.len() && (forall|i: int|
            0 <= i < pos.len() ==> 0 <= #[trigger] pos[i] < targets.len() && chosen[i] == targets[pos[i]]) && (
        forall|i: int, j: int| 0 <= i < j < pos.len() ==> #[trigger] pos[i] != #[trigger] pos[j]);
    assert forall|i: int| 0 <= i < out.len() implies eligible_address(peers, own, source, #[trigger] out[i].0) by {
        assert(out[i] == (chosen[i].address, e));
        let p = targets[pos[i]];
        assert(gossip_eligible(targets[pos[i]], own, source));
        assert(peers.contains(p));
    }
}

/// Law: an anti-entropy reply sends the requester nothing it reports
/// knowing. Every envelope a sync request is answered with is a sync
/// response whose messages are all cached here and have ids not among the
/// requester's known hashes.
pub proof fn lemma_sync_reply_only_missing(
    out: Seq<(SocketAddress, EnvelopeModel)>,
    cached: Seq<MessageModel>,
    peers: Seq<PeerModel>,
    own: Seq<char>,
    requester: Seq<char>,
    known: Seq<u64>,
)
    requires
        sync_reply(out, cached, peers, own, requester, known),
    ensures
        forall|k: int|
            0 <= k < out.len() ==> match (#[trigger] out[k]).1.message {
                GossipMessageModel::SyncResponse { missing_messages } => forall|i: int|
                    0 <= i < missing_messages.len() ==> !known.contains((#[trigger] missing_messages[i]).id)
                        && cached.contains(missing_messages[i]),
                _ => false,
            },
{
    lemma_missing_of(cached, known);
}

} // verus!
