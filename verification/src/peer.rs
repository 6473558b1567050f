//! Peers of a node: their health, trust and quality, and the table a node
//! keeps of them (bounded in size, never holding the node itself).

use crate::address::{socket_text, SocketAddress};
use crate::collections::{StringMap, StringSet};
use crate::error::SynapseError;
use crate::message::Entries;
use crate::platform::{choose_multiple, is_selection, unix_time_secs};
use vstd::prelude::*;
use vstd::string::*;

verus! {

/// Peer connection state.
#[derive(Debug, Clone, Copy, PartialEq, Eq, Structural)]
pub enum PeerState {
    /// Peer is disconnected.
    Disconnected,
    /// Attempting to connect to peer.
    Connecting,
    /// Peer is connected and healthy.
    Connected,
    /// Peer is connected but unhealthy.
    Unhealthy,
    /// Peer connection failed.
    Failed,
    /// Peer is being validated.
    Validating,
}

/// Abstract value of a [`Peer`].
pub struct PeerModel {
    pub id: Seq<char>,
    pub address: SocketAddress,
    pub state: PeerState,
    pub last_seen: u64,
    pub failure_count: u32,
    pub metadata: Entries,
    pub trust_score: u8,
    pub latency_ms: Option<u64>,
    pub bandwidth_estimate: Option<u64>,
    pub version: Option<Seq<char>>,
    pub protocols: Seq<Seq<char>>,
}

/// Information about a network peer.
#[derive(Debug)]
pub struct Peer {
    /// Unique peer identifier.
    pub id: String,
    /// Network address.
    pub address: SocketAddress,
    /// Current connection state.
    pub state: PeerState,
    /// Last successful communication (seconds since the Unix epoch).
    pub last_seen: u64,
    /// Number of consecutive failures.
    pub failure_count: u32,
    /// Capabilities and metadata.
    pub metadata: StringMap,
    /// Trust score (0-100).
    pub trust_score: u8,
    /// Connection latency in milliseconds.
    pub latency_ms: Option<u64>,
    /// Bandwidth estimate in bytes/sec.
    pub bandwidth_estimate: Option<u64>,
    /// Version information.
    pub version: Option<String>,
    /// Supported protocols.
    pub protocols: StringSet,
}

impl View for Peer {
    type V = PeerModel;

    open spec fn view(&self) -> PeerModel {
        PeerModel {
            id: self.id@,
            address: self.address,
            state: self.state,
            last_seen: self.last_seen,
            failure_count: self.failure_count,
            metadata: self.metadata@,
            trust_score: self.trust_score,
            latency_ms: self.latency_ms,
            bandwidth_estimate: self.bandwidth_estimate,
            version: match self.version {
                Some(v) => Some(v@),
                None => None,
            },
            protocols: self.protocols@,
        }
    }
}

impl Clone for Peer {
    /// A copy with the same contents.
    fn clone(&self) -> (c: Self)
        ensures
            c@ == self@,
    {
        Peer {
            id: self.id.clone(),
            address: self.address,
            state: self.state,
            last_seen: self.last_seen,
            failure_count: self.failure_count,
            metadata: self.metadata.clone(),
            trust_score: self.trust_score,
            latency_ms: self.latency_ms,
            bandwidth_estimate: self.bandwidth_estimate,
            version: match &self.version {
                Some(v) => Some(v.clone()),
                None => None,
            },
            protocols: self.protocols.clone(),
        }
    }
}

/// A peer is healthy when connected with fewer than three failures.
pub open spec fn peer_healthy(p: PeerModel) -> bool {
    p.state == PeerState::Connected && p.failure_count < 3
}

/// A peer is stale at time `now` when more than `threshold` seconds have
/// passed since it was last seen.
pub open spec fn peer_stale(p: PeerModel, threshold: u64, now: u64) -> bool {
    now > p.last_seen && now - p.last_seen > threshold
}

/// `a - b`, or 0 when `b > a`.
pub open spec fn sat_sub(a: int, b: int) -> int {
    if a > b {
        a - b
    } else {
        0
    }
}

/// Quality score of a peer: its trust, raised by 10 (capped at 255) when
/// its latency is under 50 ms and lowered by 20 (floored at 0) when it is
/// over 500 ms, then lowered by five times its failure count (the count
/// taken modulo 256 and the product modulo 256, as 8-bit arithmetic
/// computes it), and capped at 100.
pub open spec fn quality(p: PeerModel) -> u8 {
    let base: int = match p.latency_ms {
        Some(l) => if l < 50 {
            if p.trust_score + 10 > 255 {
                255
            } else {
                p.trust_score + 10
            }
        } else if l > 500 {
            sat_sub(p.trust_score as int, 20)
        } else {
            p.trust_score as int
        },
        None => p.trust_score as int,
    };
    let penalty: int = ((p.failure_count % 256) * 5) % 256;
    let s = sat_sub(base, penalty);
    (if s < 100 {
        s
    } else {
        100
    }) as u8
}

impl Peer {
    /// Create a peer, disconnected, seen now, with no failures, no metadata,
    /// neutral trust (50), no metrics, no version and no protocols.
    pub fn new(id: String, address: SocketAddress) -> (p: Self)
        ensures
            p@.id == id@,
            p.address == address,
            p.state == PeerState::Disconnected,
            p.failure_count == 0,
            p@.metadata.len() == 0,
            p.trust_score == 50,
            p.latency_ms is None,
            p.bandwidth_estimate is None,
            p.version is None,
            p@.protocols.len() == 0,
    {
        let now = unix_time_secs();
        Peer {
            id,
            address,
            state: PeerState::Disconnected,
            last_seen: now,
            failure_count: 0,
            metadata: StringMap::new(),
            trust_score: 50,
            latency_ms: None,
            bandwidth_estimate: None,
            version: None,
            protocols: StringSet::new(),
        }
    }

    /// Replace the metadata.
    pub fn with_metadata(self, metadata: StringMap) -> (p: Self)
        ensures
            p@ == (PeerModel { metadata: metadata@, ..self@ }),
    {
        let mut p = self;
        p.metadata = metadata;
        p
    }

    /// Set the version.
    pub fn with_version(self, version: String) -> (p: Self)
        ensures
            p@ == (PeerModel { version: Some(version@), ..self@ }),
    {
        let mut p = self;
        p.version = Some(version);
        p
    }

    /// Add a supported protocol.
    pub fn add_protocol(self, protocol: String) -> (p: Self)
        ensures
            self@.protocols.contains(protocol@) ==> p@ == self@,
            !self@.protocols.contains(protocol@) ==> p@ == (PeerModel {
                protocols: self@.protocols.push(protocol@),
                ..self@
            }),
    {
        let mut p = self;
        p.protocols.insert(protocol);
        p
    }

    /// Whether the peer is connected with fewer than three failures.
    pub fn is_healthy(&self) -> (b: bool)
        ensures
            b == peer_healthy(self@),
    {
        self.state == PeerState::Connected && self.failure_count < 3
    }

    /// Whether more than `threshold` seconds have passed at `now` since the
    /// peer was last seen.
    pub fn is_stale_at(&self, threshold: u64, now: u64) -> (b: bool)
        ensures
            b == peer_stale(self@, threshold, now),
    {
        now > self.last_seen && now - self.last_seen > threshold
    }

    /// Whether the peer is stale by the current clock.
    pub fn is_stale(&self, threshold: u64) -> (b: bool)
        ensures
            exists|now: u64| b == peer_stale(self@, threshold, now),
    {
        let now = unix_time_secs();
        self.is_stale_at(threshold, now)
    }

    /// Record contact at `timestamp`, clearing the failure count.
    pub fn update_last_seen(&mut self, timestamp: u64)
        ensures
            final(self)@ == (PeerModel { last_seen: timestamp, failure_count: 0, ..old(self)@ }),
    {
        self.last_seen = timestamp;
        self.failure_count = 0;
    }

    /// Mark the peer connected: no failures, trust raised by one up to 100.
    pub fn mark_healthy(&mut self)
        ensures
            final(self)@ == (PeerModel {
                state: PeerState::Connected,
                failure_count: 0,
                trust_score: if old(self).trust_score < 100 {
                    (old(self).trust_score + 1) as u8
                } else {
                    old(self).trust_score
                },
                ..old(self)@
            }),
    {
        self.state = PeerState::Connected;
        self.failure_count = 0;
        if self.trust_score < 100 {
            self.trust_score = self.trust_score + 1;
        }
    }

    /// Mark the peer unhealthy: one more failure, trust lowered by five
    /// (not below 0).
    pub fn mark_unhealthy(&mut self)
        requires
            old(self).failure_count < u32::MAX,
        ensures
            final(self)@ == (PeerModel {
                state: PeerState::Unhealthy,
                failure_count: (old(self).failure_count + 1) as u32,
                trust_score: sat_sub(old(self).trust_score as int, 5) as u8,
                ..old(self)@
            }),
    {
        self.state = PeerState::Unhealthy;
        self.failure_count = self.failure_count + 1;
        if self.trust_score > 0 {
            self.trust_score = self.trust_score.saturating_sub(5);
        }
    }

    /// Mark the peer failed: one more failure, trust lowered by ten (not
    /// below 0).
    pub fn mark_failed(&mut self)
        requires
            old(self).failure_count < u32::MAX,
        ensures
            final(self)@ == (PeerModel {
                state: PeerState::Failed,
                failure_count: (old(self).failure_count + 1) as u32,
                trust_score: sat_sub(old(self).trust_score as int, 10) as u8,
                ..old(self)@
            }),
    {
        self.state = PeerState::Failed;
        self.failure_count = self.failure_count + 1;
        self.trust_score = self.trust_score.saturating_sub(10);
    }

    /// Record latency and bandwidth.
    pub fn update_metrics(&mut self, latency_ms: u64, bandwidth_bps: u64)
        ensures
            final(self)@ == (PeerModel {
                latency_ms: Some(latency_ms),
                bandwidth_estimate: Some(bandwidth_bps),
                ..old(self)@
            }),
    {
        self.latency_ms = Some(latency_ms);
        self.bandwidth_estimate = Some(bandwidth_bps);
    }

    /// Quality score (0-100) from trust, latency and failures.
    pub fn quality_score(&self) -> (q: u8)
        ensures
            q == quality(self@),
            q <= 100,
    {
        let mut score = self.trust_score;
        match self.latency_ms {
            Some(latency) => {
                if latency < 50 {
                    score = score.saturating_add(10);
                } else if latency > 500 {
                    score = score.saturating_sub(20);
                }
            },
            None => {},
        }
        let failures = self.failure_count;
        let low = failures as u8;
        assert(low == failures % 256) by (bit_vector)
            requires
                low == failures as u8,
        ;
        let penalty = low.wrapping_mul(5);
        score = score.saturating_sub(penalty);
        if score < 100 {
            score
        } else {
            100
        }
    }

    /// Whether the peer supports `protocol`.
    pub fn supports_protocol(&self, protocol: &String) -> (b: bool)
        ensures
            b == self@.protocols.contains(protocol@),
    {
        self.protocols.contains(protocol)
    }

    /// Seconds since the peer was last seen, at time `now` (0 if `now`
    /// precedes it).
    pub fn uptime_estimate_at(&self, now: u64) -> (s: u64)
        ensures
            s == sat_sub(now as int, self.last_seen as int),
    {
        now.saturating_sub(self.last_seen)
    }

    /// Seconds since the peer was last seen, by the current clock.
    pub fn uptime_estimate(&self) -> (s: u64)
        ensures
            exists|now: u64| s == sat_sub(now as int, self.last_seen as int),
    {
        let now = unix_time_secs();
        self.uptime_estimate_at(now)
    }
}

/// Position of the peer with id `id`, or -1.
pub open spec fn position_of(s: Seq<PeerModel>, id: Seq<char>) -> int {
    if exists|i: int| 0 <= i < s.len() && #[trigger] s[i].id == id {
        choose|i: int| 0 <= i < s.len() && #[trigger] s[i].id == id
    } else {
        -1
    }
}

/// No id occurs twice.
pub open spec fn ids_unique(s: Seq<PeerModel>) -> bool {
    forall|i: int, j: int| 0 <= i < j < s.len() ==> #[trigger] s[i].id != #[trigger] s[j].id
}

/// `s` with `p` stored under its id: replacing the peer with that id in
/// place, or appended.
pub open spec fn table_upsert(s: Seq<PeerModel>, p: PeerModel) -> Seq<PeerModel> {
    if position_of(s, p.id) >= 0 {
        s.update(position_of(s, p.id), p)
    } else {
        s.push(p)
    }
}

/// `s` without the peer with id `id`, the others in order.
pub open spec fn table_remove(s: Seq<PeerModel>, id: Seq<char>) -> Seq<PeerModel> {
    if position_of(s, id) >= 0 {
        s.remove(position_of(s, id))
    } else {
        s
    }
}

/// Position of the first peer of lowest quality.
pub open spec fn worst_index(s: Seq<PeerModel>) -> int
    decreases s.len(),
{
    if s.len() <= 1 {
        0
    } else {
        let w = worst_index(s.drop_last());
        if quality(s.last()) < quality(s[w]) {
            s.len() - 1
        } else {
            w
        }
    }
}

/// The healthy peers of `s`, in order.
pub open spec fn healthy_of(s: Seq<PeerModel>) -> Seq<PeerModel>
    decreases s.len(),
{
    if s.len() == 0 {
        seq![]
    } else if peer_healthy(s.last()) {
        healthy_of(s.drop_last()).push(s.last())
    } else {
        healthy_of(s.drop_last())
    }
}

/// Number of peers of `s` in state `st`.
pub open spec fn count_state(s: Seq<PeerModel>, st: PeerState) -> nat
    decreases s.len(),
{
    if s.len() == 0 {
        0
    } else {
        count_state(s.drop_last(), st) + if s.last().state == st {
            1nat
        } else {
            0nat
        }
    }
}

/// Sum of the trust scores of `s`.
pub open spec fn trust_sum(s: Seq<PeerModel>) -> nat
    decreases s.len(),
{
    if s.len() == 0 {
        0
    } else {
        trust_sum(s.drop_last()) + s.last().trust_score as nat
    }
}

/// Number of peers of `s` with a latency, and the sum of those latencies.
pub open spec fn latency_stats(s: Seq<PeerModel>) -> (nat, nat)
    decreases s.len(),
{
    if s.len() == 0 {
        (0, 0)
    } else {
        let r = latency_stats(s.drop_last());
        match s.last().latency_ms {
            Some(l) => (r.0 + 1, r.1 + l as nat),
            None => r,
        }
    }
}

proof fn lemma_worst_index(s: Seq<PeerModel>)
    requires
        s.len() > 0,
    ensures
        0 <= worst_index(s) < s.len(),
        forall|j: int| 0 <= j < s.len() ==> quality(s[worst_index(s)]) <= quality(#[trigger] s[j]),
    decreases s.len(),
{
    if s.len() > 1 {
        lemma_worst_index(s.drop_last());
        assert forall|j: int| 0 <= j < s.len() implies quality(s[worst_index(s)]) <= quality(
            #[trigger] s[j],
        ) by {
            if j < s.len() - 1 {
                assert(s.drop_last()[j] == s[j]);
            }
        }
    }
}

proof fn lemma_position_of(s: Seq<PeerModel>, id: Seq<char>)
    requires
        ids_unique(s),
    ensures
        -1 <= position_of(s, id) < s.len(),
        position_of(s, id) >= 0 ==> s[position_of(s, id)].id == id,
        position_of(s, id) == -1 <==> forall|i: int| 0 <= i < s.len() ==> #[trigger] s[i].id != id,
        forall|i: int| 0 <= i < s.len() && #[trigger] s[i].id == id ==> position_of(s, id) == i,
{
}

proof fn lemma_upsert_unique(s: Seq<PeerModel>, p: PeerModel)
    requires
        ids_unique(s),
    ensures
        ids_unique(table_upsert(s, p)),
        table_upsert(s, p).len() == if position_of(s, p.id) >= 0 {
            s.len()
        } else {
            s.len() + 1
        },
{
    lemma_position_of(s, p.id);
    let t = table_upsert(s, p);
    assert forall|i: int, j: int| 0 <= i < j < t.len() implies #[trigger] t[i].id != #[trigger] t[j].id by {
        if position_of(s, p.id) >= 0 {
            let k = position_of(s, p.id);
            if i != k && j != k {
                assert(s[i].id != s[j].id);
            } else if i == k {
                assert(s[j].id != s[k].id);
            } else {
                assert(s[i].id != s[k].id);
            }
        } else {
            if j < s.len() {
                assert(s[i].id != s[j].id);
            }
        }
    }
}

proof fn lemma_remove_unique(s: Seq<PeerModel>, k: int)
    requires
        ids_unique(s),
        0 <= k < s.len(),
    ensures
        ids_unique(s.remove(k)),
        forall|i: int| 0 <= i < s.remove(k).len() ==> #[trigger] s.remove(k)[i].id != s[k].id,
{
    let t = s.remove(k);
    assert forall|i: int| 0 <= i < t.len() implies t[i] == if i < k {
        s[i]
    } else {
        s[i + 1]
    } by {}
    assert forall|i: int, j: int| 0 <= i < j < t.len() implies #[trigger] t[i].id != #[trigger] t[j].id by {
        let a = if i < k {
            i
        } else {
            i + 1
        };
        let b = if j < k {
            j
        } else {
            j + 1
        };
        assert(s[a].id != s[b].id);
    }
    assert forall|i: int| 0 <= i < t.len() implies #[trigger] t[i].id != s[k].id by {
        let a = if i < k {
            i
        } else {
            i + 1
        };
        assert(s[a].id != s[k].id);
    }
}

/// Models of a sequence of peers.
pub open spec fn peers_model(v: Seq<Peer>) -> Seq<PeerModel> {
    v.map_values(|p: Peer| p@)
}

/// The peers a node knows, in insertion order; no id occurs twice.
#[derive(Debug)]
pub struct PeerTable {
    peers: Vec<Peer>,
}

impl View for PeerTable {
    type V = Seq<PeerModel>;

    closed spec fn view(&self) -> Seq<PeerModel> {
        peers_model(self.peers@)
    }
}

impl PeerTable {
    /// No id occurs twice.
    #[verifier::type_invariant]
    pub open spec fn inv(self) -> bool {
        ids_unique(self@)
    }

    /// An empty table.
    pub fn new() -> (t: Self)
        ensures
            t@ == Seq::<PeerModel>::empty(),
    {
        let t = PeerTable { peers: Vec::new() };
        assert(t@ =~= Seq::<PeerModel>::empty());
        t
    }

    /// Number of peers.
    pub fn len(&self) -> (n: usize)
        ensures
            n == self@.len(),
    {
        self.peers.len()
    }

    /// The `i`-th peer.
    pub fn at(&self, i: usize) -> (p: &Peer)
        requires
            i < self@.len(),
        ensures
            p@ == self@[i as int],
    {
        &self.peers[i]
    }

    /// Position of the peer with id `id`.
    pub fn find(&self, id: &String) -> (r: Option<usize>)
        ensures
            r matches Some(i) ==> i == position_of(self@, id@) && i < self@.len(),
            r is None ==> position_of(self@, id@) == -1,
    {
        proof {
            use_type_invariant(self);
            lemma_position_of(self@, id@);
        }
        let mut i: usize = 0;
        while i < self.peers.len()
            invariant
                i <= self.peers.len(),
                ids_unique(self@),
                forall|j: int| 0 <= j < i ==> #[trigger] self@[j].id != id@,
            decreases self.peers.len() - i,
        {
            if self.peers[i].id == *id {
                assert(self@[i as int].id == id@);
                proof {
                    lemma_position_of(self@, id@);
                }
                return Some(i);
            }
            i = i + 1;
        }
        proof {
            lemma_position_of(self@, id@);
        }
        None
    }

    /// Stores `peer` under its id (replacing the one there).
    pub fn upsert(&mut self, peer: Peer)
        ensures
            final(self)@ == table_upsert(old(self)@, peer@),
    {
        proof {
            use_type_invariant(&*self);
            lemma_position_of(self@, peer@.id);
            lemma_upsert_unique(self@, peer@);
        }
        let ghost before = self@;
        let found = self.find(&peer.id);
        let mut peers: Vec<Peer> = Vec::new();
        std::mem::swap(&mut peers, &mut self.peers);
        assert(peers_model(peers@) == before);
        match found {
            Some(i) => {
                peers.set(i, peer);
            },
            None => {
                peers.push(peer);
            },
        }
        assert(peers_model(peers@) =~= table_upsert(before, peer@));
        self.peers = peers;
    }

    /// Removes the peer with id `id`, if there is one.
    pub fn remove(&mut self, id: &String) -> (removed: bool)
        ensures
            final(self)@ == table_remove(old(self)@, id@),
            removed == (position_of(old(self)@, id@) >= 0),
    {
        proof {
            use_type_invariant(&*self);
            lemma_position_of(self@, id@);
        }
        match self.find(id) {
            Some(i) => {
                self.remove_at(i);
                true
            },
            None => false,
        }
    }

    /// Removes the `i`-th peer.
    pub fn remove_at(&mut self, i: usize)
        requires
            i < old(self)@.len(),
        ensures
            final(self)@ == old(self)@.remove(i as int),
    {
        proof {
            use_type_invariant(&*self);
            lemma_remove_unique(self@, i as int);
        }
        let ghost before = self@;
        let mut peers: Vec<Peer> = Vec::new();
        std::mem::swap(&mut peers, &mut self.peers);
        assert(peers_model(peers@) == before);
        peers.remove(i);
        assert(peers_model(peers@) =~= before.remove(i as int));
        self.peers = peers;
    }

    /// Replaces the `i`-th peer by one with the same id.
    pub fn replace_at(&mut self, i: usize, peer: Peer)
        requires
            i < old(self)@.len(),
            peer@.id == old(self)@[i as int].id,
        ensures
            final(self)@ == old(self)@.update(i as int, peer@),
    {
        proof {
            use_type_invariant(&*self);
        }
        let ghost before = self@;
        let mut peers: Vec<Peer> = Vec::new();
        std::mem::swap(&mut peers, &mut self.peers);
        assert(peers_model(peers@) == before);
        peers.set(i, peer);
        let ghost after = peers_model(peers@);
        assert(after =~= before.update(i as int, peer@));
        assert(ids_unique(after)) by {
            assert forall|a: int, b: int| 0 <= a < b < after.len() implies #[trigger] after[a].id
                != #[trigger] after[b].id by {
                assert(before[a].id != before[b].id);
            }
        }
        self.peers = peers;
    }

    /// Copies of the healthy peers, in order.
    pub fn healthy(&self) -> (v: Vec<Peer>)
        ensures
            peers_model(v@) == healthy_of(self@),
    {
        let mut v: Vec<Peer> = Vec::new();
        let mut i: usize = 0;
        while i < self.peers.len()
            invariant
                i <= self.peers.len(),
                peers_model(v@) == healthy_of(self@.take(i as int)),
            decreases self.peers.len() - i,
        {
            let ghost before = peers_model(v@);
            if self.peers[i].is_healthy() {
                v.push(self.peers[i].clone());
            }
            proof {
                let t = self@.take(i + 1);
                assert(t.drop_last() =~= self@.take(i as int));
                assert(t.last() == self@[i as int]);
            }
            i = i + 1;
            assert(peers_model(v@) =~= healthy_of(self@.take(i as int)));
        }
        assert(self@.take(self@.len() as int) =~= self@);
        v
    }

    /// Position of the first peer of lowest quality.
    pub fn worst(&self) -> (w: usize)
        requires
            self@.len() > 0,
        ensures
            w == worst_index(self@),
    {
        let mut w: usize = 0;
        let mut i: usize = 1;
        assert(self@.take(1).len() == 1);
        while i < self.peers.len()
            invariant
                1 <= i <= self.peers.len(),
                w < i,
                w == worst_index(self@.take(i as int)),
            decreases self.peers.len() - i,
        {
            proof {
                let t = self@.take(i + 1);
                assert(t.drop_last() =~= self@.take(i as int));
                assert(t.last() == self@[i as int]);
                assert(t[w as int] == self@[w as int]);
                assert(self@.take(i as int)[w as int] == self@[w as int]);
            }
            if self.peers[i].quality_score() < self.peers[w].quality_score() {
                w = i;
            }
            i = i + 1;
        }
        assert(self@.take(self@.len() as int) =~= self@);
        w
    }
}

/// `r` is drawn from `h` without repetition of positions.
pub open spec fn is_peer_selection(h: Seq<PeerModel>, r: Seq<PeerModel>) -> bool {
    exists|pos: Seq<int>|
        #![trigger pos.len()]
        pos.len() == r.len() && (forall|i: int|
            0 <= i < pos.len() ==> 0 <= #[trigger] pos[i] < h.len() && r[i] == h[pos[i]]) && (
        forall|i: int, j: int| 0 <= i < j < pos.len() ==> #[trigger] pos[i] != #[trigger] pos[j])
}

/// `r` is a best-first choice of `count` peers from `h`: drawn without
/// repetition, as many as `count` allows, in non-increasing quality, and no
/// peer left out has a higher quality than the last one chosen.
pub open spec fn is_best_selection(h: Seq<PeerModel>, count: nat, r: Seq<PeerModel>) -> bool {
    &&& r.len() == if count < h.len() {
        count
    } else {
        h.len()
    }
    &&& forall|i: int, j: int| 0 <= i < j < r.len() ==> quality(#[trigger] r[i]) >= quality(#[trigger] r[j])
    &&& exists|pos: Seq<int>|
        #![trigger pos.len()]
        pos.len() == r.len() && (forall|i: int|
            0 <= i < pos.len() ==> 0 <= #[trigger] pos[i] < h.len() && r[i] == h[pos[i]]) && (
        forall|i: int, j: int| 0 <= i < j < pos.len() ==> #[trigger] pos[i] != #[trigger] pos[j])
            && (forall|k: int|
            0 <= k < h.len() && !pos.contains(k) && r.len() > 0 ==> quality(#[trigger] h[k])
                <= quality(r.last()))
}

/// Copies of the best `count` peers of `h`, best first (the first of equals
/// first).
pub fn select_best(h: &Vec<Peer>, count: usize) -> (r: Vec<Peer>)
    ensures
        is_best_selection(peers_model(h@), count as nat, peers_model(r@)),
{
    let ghost hm = peers_model(h@);
    let n = h.len();
    let target = if count < n {
        count
    } else {
        n
    };
    let mut chosen: Vec<bool> = Vec::new();
    let mut k: usize = 0;
    while k < n
        invariant
            k <= n,
            n == h.len(),
            chosen@.len() == k,
            forall|j: int| 0 <= j < k ==> !chosen@[j],
        decreases n - k,
    {
        chosen.push(false);
        k = k + 1;
    }
    let mut r: Vec<Peer> = Vec::new();
    let ghost mut pos: Seq<int> = Seq::empty();
    while r.len() < target
        invariant
            n == h.len(),
            hm == peers_model(h@),
            target <= n,
            target == if count < n {
                count
            } else {
                n
            },
            chosen@.len() == n,
            r@.len() <= target,
            pos.len() == r@.len(),
            forall|i: int| 0 <= i < pos.len() ==> 0 <= #[trigger] pos[i] < n && r@[i]@ == hm[pos[i]],
            forall|i: int, j: int| 0 <= i < j < pos.len() ==> #[trigger] pos[i] != #[trigger] pos[j],
            forall|j: int| 0 <= j < n ==> (#[trigger] chosen@[j] <==> pos.contains(j)),
            forall|i: int, j: int|
                0 <= i < j < r@.len() ==> quality(#[trigger] r@[i]@) >= quality(#[trigger] r@[j]@),
            forall|k: int|
                0 <= k < n && !pos.contains(k) && r@.len() > 0 ==> quality(#[trigger] hm[k])
                    <= quality(r@[r@.len() - 1]@),
        decreases target - r@.len(),
    {
        // The chosen positions are distinct and fewer than n, so one is free.
        proof {
            if forall|j: int| 0 <= j < n ==> #[trigger] chosen@[j] {
                let ps = pos.to_set();
                assert forall|j: int| 0 <= j < n implies ps.contains(j) by {
                    assert(chosen@[j]);
                }
                assert(Set::new(|j: int| 0 <= j < n).subset_of(ps));
                vstd::set_lib::lemma_int_range(0, n as int);
                pos.unique_seq_to_set();
                vstd::set_lib::lemma_len_subset(Set::new(|j: int| 0 <= j < n), ps);
                assert(Set::new(|j: int| 0 <= j < n) =~= vstd::set_lib::set_int_range(0, n as int));
                assert(false);
            }
        }
        let mut best: usize = n;
        let mut j: usize = 0;
        while j < n
            invariant
                n == h.len(),
                hm == peers_model(h@),
                chosen@.len() == n,
                j <= n,
                best == n || (best < j && !chosen@[best as int]),
                best == n ==> forall|k: int| 0 <= k < j ==> #[trigger] chosen@[k],
                best < n ==> forall|k: int|
                    0 <= k < j && !chosen@[k] ==> quality(#[trigger] hm[k]) <= quality(hm[best as int]),
            decreases n - j,
        {
            if !chosen[j] {
                if best == n || h[j].quality_score() > h[best].quality_score() {
                    best = j;
                }
            }
            j = j + 1;
        }
        assert(best < n);
        let ghost prev_len = r@.len();
        r.push(h[best].clone());
        chosen.set(best, true);
        proof {
            if prev_len > 0 {
                assert(!pos.contains(best as int));
                assert(quality(hm[best as int]) <= quality(r@[prev_len - 1]@));
            }
            let old_pos = pos;
            pos = pos.push(best as int);
            assert forall|k: int| 0 <= k < n implies (#[trigger] chosen@[k] <==> pos.contains(k)) by {
                if k == best {
                    assert(pos[pos.len() - 1] == k);
                } else {
                    if pos.contains(k) {
                        let w = choose|w: int| 0 <= w < pos.len() && pos[w] == k;
                        assert(old_pos[w] == k);
                    }
                    if old_pos.contains(k) {
                        let w = choose|w: int| 0 <= w < old_pos.len() && old_pos[w] == k;
                        assert(pos[w] == k);
                    }
                }
            }
            assert forall|i: int, j: int| 0 <= i < j < pos.len() implies #[trigger] pos[i] != #[trigger] pos[j] by {
                if j == pos.len() - 1 && i < j {
                    assert(old_pos[i] == pos[i]);
                    assert(old_pos.contains(pos[i]));
                }
            }
            assert forall|k: int|
                0 <= k < n && !pos.contains(k) && r@.len() > 0 implies quality(#[trigger] hm[k])
                <= quality(r@[r@.len() - 1]@) by {
                assert(!old_pos.contains(k)) by {
                    if old_pos.contains(k) {
                        let w = choose|w: int| 0 <= w < old_pos.len() && old_pos[w] == k;
                        assert(pos[w] == k);
                    }
                }
                assert(k != best) by {
                    if k == best {
                        assert(pos[pos.len() - 1] == k);
                    }
                }
            }
        }
    }
    proof {
        assert(peers_model(r@).len() == pos.len());
        assert forall|i: int| 0 <= i < pos.len() implies 0 <= #[trigger] pos[i] < hm.len()
            && peers_model(r@)[i] == hm[pos[i]] by {}
        assert forall|k: int|
            0 <= k < hm.len() && !pos.contains(k) && peers_model(r@).len() > 0 implies quality(
            #[trigger] hm[k],
        ) <= quality(peers_model(r@).last()) by {}
        assert forall|i: int, j: int| 0 <= i < j < peers_model(r@).len() implies quality(
            #[trigger] peers_model(r@)[i],
        ) >= quality(#[trigger] peers_model(r@)[j]) by {
            assert(quality(r@[i]@) >= quality(r@[j]@));
        }
    }
    r
}

/// Peer discovery methods.
#[derive(Debug, Clone, Copy, PartialEq, Eq, Hash, Structural)]
pub enum DiscoveryMethod {
    /// Bootstrap from a known peer list.
    Bootstrap,
    /// Discover through the gossip protocol.
    Gossip,
    /// Local network scanning.
    LocalScan,
    /// mDNS/Bonjour discovery.
    Mdns,
    /// DHT-based discovery.
    Dht,
    /// Static configuration.
    Static,
}

/// Configuration for peer discovery. Durations are in seconds.
#[derive(Debug)]
pub struct DiscoveryConfig {
    /// Discovery methods to use.
    pub methods: Vec<DiscoveryMethod>,
    /// Bootstrap peers for initial connection.
    pub bootstrap_peers: Vec<SocketAddress>,
    /// Discovery interval.
    pub discovery_interval: u64,
    /// Maximum number of peers to maintain.
    pub max_peers: usize,
    /// Minimum number of peers to maintain.
    pub min_peers: usize,
    /// Peer validation timeout.
    pub validation_timeout: u64,
    /// Local discovery port range.
    pub local_port_range: Option<(u16, u16)>,
}

/// Abstract value of a [`DiscoveryConfig`].
pub struct DiscoveryModel {
    pub methods: Seq<DiscoveryMethod>,
    pub bootstrap_peers: Seq<SocketAddress>,
    pub discovery_interval: u64,
    pub max_peers: usize,
    pub min_peers: usize,
    pub validation_timeout: u64,
    pub local_port_range: Option<(u16, u16)>,
}

impl View for DiscoveryConfig {
    type V = DiscoveryModel;

    open spec fn view(&self) -> DiscoveryModel {
        DiscoveryModel {
            methods: self.methods@,
            bootstrap_peers: self.bootstrap_peers@,
            discovery_interval: self.discovery_interval,
            max_peers: self.max_peers,
            min_peers: self.min_peers,
            validation_timeout: self.validation_timeout,
            local_port_range: self.local_port_range,
        }
    }
}

/// Copies a sequence of plain values.
fn copy_vec<T: Copy>(v: &Vec<T>) -> (c: Vec<T>)
    ensures
        c@ == v@,
{
    let mut c: Vec<T> = Vec::new();
    let mut i: usize = 0;
    while i < v.len()
        invariant
            i <= v.len(),
            c@ == v@.take(i as int),
        decreases v.len() - i,
    {
        c.push(v[i]);
        i = i + 1;
        assert(c@ =~= v@.take(i as int));
    }
    assert(v@.take(v@.len() as int) =~= v@);
    c
}

impl Clone for DiscoveryConfig {
    /// A copy with the same settings.
    fn clone(&self) -> (c: Self)
        ensures
            c@ == self@,
    {
        DiscoveryConfig {
            methods: copy_vec(&self.methods),
            bootstrap_peers: copy_vec(&self.bootstrap_peers),
            discovery_interval: self.discovery_interval,
            max_peers: self.max_peers,
            min_peers: self.min_peers,
            validation_timeout: self.validation_timeout,
            local_port_range: self.local_port_range,
        }
    }
}

impl Default for DiscoveryConfig {
    /// Bootstrap and gossip discovery, no bootstrap peers, 60 s interval,
    /// at most 50 and at least 3 peers, 10 s validation timeout, no port
    /// range.
    fn default() -> (c: Self)
        ensures
            c.methods@ == seq![DiscoveryMethod::Bootstrap, DiscoveryMethod::Gossip],
            c.bootstrap_peers@.len() == 0,
            c.discovery_interval == 60,
            c.max_peers == 50,
            c.min_peers == 3,
            c.validation_timeout == 10,
            c.local_port_range is None,
    {
        let mut methods: Vec<DiscoveryMethod> = Vec::new();
        methods.push(DiscoveryMethod::Bootstrap);
        methods.push(DiscoveryMethod::Gossip);
        assert(methods@ =~= seq![DiscoveryMethod::Bootstrap, DiscoveryMethod::Gossip]);
        DiscoveryConfig {
            methods,
            bootstrap_peers: Vec::new(),
            discovery_interval: 60,
            max_peers: 50,
            min_peers: 3,
            validation_timeout: 10,
            local_port_range: None,
        }
    }
}

impl DiscoveryConfig {
    /// Whether `method` is among the discovery methods.
    pub fn uses(&self, method: DiscoveryMethod) -> (b: bool)
        ensures
            b == self.methods@.contains(method),
    {
        let mut i: usize = 0;
        while i < self.methods.len()
            invariant
                i <= self.methods.len(),
                forall|j: int| 0 <= j < i ==> self.methods@[j] != method,
            decreases self.methods.len() - i,
        {
            if self.methods[i] == method {
                assert(self.methods@[i as int] == method);
                return true;
            }
            i = i + 1;
        }
        false
    }
}

/// Peer management statistics.
#[derive(Debug, Clone, Copy, PartialEq, Eq)]
pub struct PeerStats {
    pub total_peers: usize,
    pub healthy_peers: usize,
    pub connecting_peers: usize,
    pub failed_peers: usize,
    pub avg_trust_score: u8,
    pub avg_latency_ms: Option<u64>,
}

/// The statistics of a peer table: counts, average trust (integer
/// division, 0 when empty) and average latency over the peers that report
/// one (integer division, none when no peer does).
pub open spec fn stats_of(s: Seq<PeerModel>) -> PeerStats {
    PeerStats {
        total_peers: s.len() as usize,
        healthy_peers: healthy_of(s).len() as usize,
        connecting_peers: count_state(s, PeerState::Connecting) as usize,
        failed_peers: count_state(s, PeerState::Failed) as usize,
        avg_trust_score: if s.len() > 0 {
            (trust_sum(s) / s.len()) as u8
        } else {
            0
        },
        avg_latency_ms: if latency_stats(s).0 > 0 {
            Some((latency_stats(s).1 / latency_stats(s).0) as u64)
        } else {
            None
        },
    }
}

/// The table after adding `p` on a node with id `own` that keeps at most
/// `max_peers` peers: a peer with the node's own id is ignored; at capacity
/// the first peer of lowest quality is evicted first; then `p` is stored
/// under its id.
pub open spec fn after_add(s: Seq<PeerModel>, p: PeerModel, own: Seq<char>, max_peers: usize) -> Seq<PeerModel> {
    if p.id == own {
        s
    } else {
        table_upsert(
            if s.len() >= max_peers && s.len() > 0 {
                s.remove(worst_index(s))
            } else {
                s
            },
            p,
        )
    }
}

/// A peer is removed by the cleanup at time `now` when it has not been
/// seen for over an hour, or has failed more than five times in a row.
pub open spec fn cleanup_removes(p: PeerModel, now: u64) -> bool {
    peer_stale(p, 3600, now) || (p.state == PeerState::Failed && p.failure_count > 5)
}

/// The peers of `s` the cleanup at time `now` keeps, in order.
pub open spec fn kept_after_cleanup(s: Seq<PeerModel>, now: u64) -> Seq<PeerModel>
    decreases s.len(),
{
    if s.len() == 0 {
        seq![]
    } else if cleanup_removes(s.last(), now) {
        kept_after_cleanup(s.drop_last(), now)
    } else {
        kept_after_cleanup(s.drop_last(), now).push(s.last())
    }
}

/// The id given to a bootstrap peer: `bootstrap-` and its address.
pub open spec fn bootstrap_id(addr: SocketAddress) -> Seq<char> {
    "bootstrap-"@ + socket_text(addr)
}

/// The peer made for a bootstrap address (seen at `seen`): disconnected,
/// neutral trust, speaking the `bootstrap` protocol.
pub open spec fn bootstrap_peer(addr: SocketAddress, seen: u64) -> PeerModel {
    PeerModel {
        id: bootstrap_id(addr),
        address: addr,
        state: PeerState::Disconnected,
        last_seen: seen,
        failure_count: 0,
        metadata: seq![],
        trust_score: 50,
        latency_ms: None,
        bandwidth_estimate: None,
        version: None,
        protocols: seq!["bootstrap"@],
    }
}

/// The table after adding the bootstrap peers for `addrs[0..k]`, seen at
/// `seen[0..k]`, one after the other.
pub open spec fn after_bootstrap(
    s: Seq<PeerModel>,
    addrs: Seq<SocketAddress>,
    seen: Seq<u64>,
    k: int,
    own: Seq<char>,
    max_peers: usize,
) -> Seq<PeerModel>
    decreases k,
{
    if k <= 0 {
        s
    } else {
        after_add(
            after_bootstrap(s, addrs, seen, k - 1, own, max_peers),
            bootstrap_peer(addrs[k - 1], seen[k - 1]),
            own,
            max_peers,
        )
    }
}

/// Peer discovery and management for one node.
#[derive(Debug)]
pub struct PeerManager {
    /// Our node identifier.
    node_id: String,
    /// Known peers.
    peers: PeerTable,
    /// Discovery configuration.
    config: DiscoveryConfig,
}

impl PeerManager {
    #[verifier::type_invariant]
    closed spec fn inv(self) -> bool {
        &&& forall|i: int| 0 <= i < self.peers@.len() ==> #[trigger] self.peers@[i].id != self.node_id@
        &&& self.peers@.len() <= if self.config.max_peers > 0 {
            self.config.max_peers
        } else {
            1
        }
    }

    /// The known peers, in insertion order.
    pub closed spec fn table(&self) -> Seq<PeerModel> {
        self.peers@
    }

    /// Our node identifier.
    pub closed spec fn own_id(&self) -> Seq<char> {
        self.node_id@
    }

    /// The discovery configuration.
    pub closed spec fn settings(&self) -> &DiscoveryConfig {
        &self.config
    }

    /// Create a peer manager with no peers.
    pub fn new(node_id: String, config: DiscoveryConfig) -> (m: Self)
        ensures
            m.table() == Seq::<PeerModel>::empty(),
            m.own_id() == node_id@,
            *m.settings() == config,
    {
        PeerManager { node_id, peers: PeerTable::new(), config }
    }

    /// The discovery configuration.
    pub fn config(&self) -> (c: &DiscoveryConfig)
        ensures
            *c == *self.settings(),
    {
        &self.config
    }

    /// Our node identifier.
    pub fn node_id(&self) -> (id: &String)
        ensures
            id@ == self.own_id(),
    {
        &self.node_id
    }

    /// Number of known peers.
    pub fn peer_count(&self) -> (n: usize)
        ensures
            n == self.table().len(),
    {
        self.peers.len()
    }

    /// Whether the node has fewer peers than the configured minimum, so that
    /// a discovery round should look for more.
    pub fn needs_more_peers(&self) -> (b: bool)
        ensures
            b == (self.table().len() < self.settings().min_peers),
    {
        self.peers.len() < self.config.min_peers
    }

    /// Add a peer. A peer with our own id is ignored; at capacity the first
    /// peer of lowest quality is evicted to make room. Always succeeds.
    pub fn add_peer(&mut self, peer: Peer) -> (r: Result<(), SynapseError>)
        ensures
            r is Ok,
            final(self).table() == after_add(old(self).table(), peer@, old(self).own_id(), old(self).settings().max_peers),
            final(self).own_id() == old(self).own_id(),
            final(self).settings() == old(self).settings(),
            ids_unique(final(self).table()),
            forall|i: int|
                0 <= i < final(self).table().len() ==> #[trigger] final(self).table()[i].id != final(self).own_id(),
            final(self).table().len() <= if final(self).settings().max_peers > 0 {
                final(self).settings().max_peers as int
            } else {
                1
            },
    {
        proof {
            use_type_invariant(&*self);
            use_type_invariant(&self.peers);
        }
        if peer.id == self.node_id {
            return Ok(());
        }
        let ghost s0 = self.peers@;
        let mut peers = PeerTable::new();
        std::mem::swap(&mut peers, &mut self.peers);
        if peers.len() >= self.config.max_peers && peers.len() > 0 {
            let w = peers.worst();
            proof {
                lemma_worst_index(s0);
            }
            peers.remove_at(w);
        }
        let ghost s1 = peers@;
        proof {
            use_type_invariant(&peers);
            lemma_position_of(s1, peer@.id);
            lemma_upsert_unique(s1, peer@);
            assert forall|i: int| 0 <= i < s1.len() implies #[trigger] s1[i].id != self.node_id@ by {
                if s0.len() >= self.config.max_peers && s0.len() > 0 {
                    let w = worst_index(s0);
                    assert(s1[i] == if i < w {
                        s0[i]
                    } else {
                        s0[i + 1]
                    });
                }
            }
        }
        peers.upsert(peer);
        proof {
            let s2 = peers@;
            assert forall|i: int| 0 <= i < s2.len() implies #[trigger] s2[i].id != self.node_id@ by {
                if position_of(s1, peer@.id) >= 0 {
                    if i != position_of(s1, peer@.id) {
                        assert(s2[i] == s1[i]);
                    }
                } else if i < s1.len() {
                    assert(s2[i] == s1[i]);
                }
            }
        }
        self.peers = peers;
        proof {
            use_type_invariant(&*self);
            use_type_invariant(&self.peers);
        }
        Ok(())
    }

    /// Remove a peer. Always succeeds.
    pub fn remove_peer(&mut self, peer_id: &String) -> (r: Result<(), SynapseError>)
        ensures
            r is Ok,
            final(self).table() == table_remove(old(self).table(), peer_id@),
            final(self).own_id() == old(self).own_id(),
            final(self).settings() == old(self).settings(),
    {
        proof {
            use_type_invariant(&*self);
            use_type_invariant(&self.peers);
            lemma_position_of(self.peers@, peer_id@);
        }
        let ghost s0 = self.peers@;
        let mut peers = PeerTable::new();
        std::mem::swap(&mut peers, &mut self.peers);
        peers.remove(peer_id);
        proof {
            if position_of(s0, peer_id@) >= 0 {
                let k = position_of(s0, peer_id@);
                assert forall|i: int| 0 <= i < peers@.len() implies #[trigger] peers@[i].id != self.node_id@ by {
                    assert(peers@[i] == if i < k {
                        s0[i]
                    } else {
                        s0[i + 1]
                    });
                }
            }
        }
        self.peers = peers;
        Ok(())
    }

    /// A copy of the peer with id `peer_id`.
    pub fn get_peer(&self, peer_id: &String) -> (p: Option<Peer>)
        ensures
            position_of(self.table(), peer_id@) == -1 ==> p is None,
            position_of(self.table(), peer_id@) >= 0 ==> (p matches Some(q) && q@ == self.table()[position_of(self.table(), peer_id@)]),
    {
        match self.peers.find(peer_id) {
            Some(i) => Some(self.peers.at(i).clone()),
            None => None,
        }
    }

    /// Copies of the healthy peers, in order.
    pub fn get_healthy_peers(&self) -> (v: Vec<Peer>)
        ensures
            peers_model(v@) == healthy_of(self.table()),
    {
        self.peers.healthy()
    }

    /// Copies of the best `count` healthy peers by quality, best first.
    pub fn get_best_peers(&self, count: usize) -> (v: Vec<Peer>)
        ensures
            is_best_selection(healthy_of(self.table()), count as nat, peers_model(v@)),
    {
        let healthy = self.peers.healthy();
        select_best(&healthy, count)
    }

    /// Copies of `count` healthy peers chosen at random (all of them, in a
    /// random order, when there are no more than `count`).
    pub fn get_random_peers(&self, count: usize) -> (v: Vec<Peer>)
        ensures
            v.len() == if count < healthy_of(self.table()).len() {
                count as int
            } else {
                healthy_of(self.table()).len() as int
            },
            is_peer_selection(healthy_of(self.table()), peers_model(v@)),
    {
        let healthy = self.peers.healthy();
        let ghost hm = peers_model(healthy@);
        let mut indices: Vec<usize> = Vec::new();
        let mut i: usize = 0;
        while i < healthy.len()
            invariant
                i <= healthy.len(),
                indices@.len() == i,
                forall|j: int| 0 <= j < i ==> #[trigger] indices@[j] == j,
            decreases healthy.len() - i,
        {
            indices.push(i);
            i = i + 1;
        }
        let picked = choose_multiple(&indices, count);
        let mut v: Vec<Peer> = Vec::new();
        let mut k: usize = 0;
        while k < picked.len()
            invariant
                k <= picked.len(),
                v@.len() == k,
                indices@.len() == healthy.len(),
                forall|j: int| 0 <= j < indices@.len() ==> #[trigger] indices@[j] == j,
                is_selection(indices@, picked@),
                hm == peers_model(healthy@),
                forall|j: int| 0 <= j < k ==> #[trigger] picked@[j] < healthy.len(),
                forall|j: int| 0 <= j < k ==> (#[trigger] v@[j])@ == hm[picked@[j] as int],
            decreases picked.len() - k,
        {
            proof {
                let pos = choose|pos: Seq<int>|
                    #![trigger pos.len()]
                    pos.len() == picked@.len() && (forall|i: int|
                        0 <= i < pos.len() ==> 0 <= #[trigger] pos[i] < indices@.len() && picked@[i]
                            == indices@[pos[i]]) && (forall|i: int, j: int|
                        0 <= i < j < pos.len() ==> #[trigger] pos[i] != #[trigger] pos[j]);
                assert(picked@[k as int] == indices@[pos[k as int]]);
            }
            let idx = picked[k];
            let q = healthy[idx].clone();
            let ghost v0 = v@;
            v.push(q);
            proof {
                assert(v@[k as int]@ == hm[idx as int]);
                assert forall|j: int| 0 <= j < k + 1 implies (#[trigger] v@[j])@ == hm[picked@[j] as int] by {
                    if j < k {
                        assert(v@[j] == v0[j]);
                    }
                }
            }
            k = k + 1;
        }
        proof {
            let pos = choose|pos: Seq<int>|
                #![trigger pos.len()]
                pos.len() == picked@.len() && (forall|i: int|
                    0 <= i < pos.len() ==> 0 <= #[trigger] pos[i] < indices@.len() && picked@[i]
                        == indices@[pos[i]]) && (forall|i: int, j: int|
                    0 <= i < j < pos.len() ==> #[trigger] pos[i] != #[trigger] pos[j]);
            assert(pos.len() == peers_model(v@).len());
            assert forall|i: int| 0 <= i < pos.len() implies 0 <= #[trigger] pos[i] < hm.len()
                && peers_model(v@)[i] == hm[pos[i]] by {
                assert(picked@[i] == indices@[pos[i]]);
                assert(indices@[pos[i]] == pos[i]);
            }
        }
        v
    }

    /// Set the state of the peer with id `peer_id`, if known. Always
    /// succeeds.
    pub fn update_peer_state(&mut self, peer_id: &String, state: PeerState) -> (r: Result<(), SynapseError>)
        ensures
            r is Ok,
            final(self).table() == if position_of(old(self).table(), peer_id@) >= 0 {
                old(self).table().update(
                    position_of(old(self).table(), peer_id@),
                    PeerModel { state, ..old(self).table()[position_of(old(self).table(), peer_id@)] },
                )
            } else {
                old(self).table()
            },
            final(self).own_id() == old(self).own_id(),
            final(self).settings() == old(self).settings(),
    {
        match self.peers.find(peer_id) {
            Some(i) => {
                let mut p = self.peers.at(i).clone();
                p.state = state;
                self.replace(i, p);
            },
            None => {},
        }
        Ok(())
    }

    /// Replaces the `i`-th peer by one with the same id.
    fn replace(&mut self, i: usize, p: Peer)
        requires
            i < old(self).table().len(),
            p@.id == old(self).table()[i as int].id,
        ensures
            final(self).table() == old(self).table().update(i as int, p@),
            final(self).own_id() == old(self).own_id(),
            final(self).settings() == old(self).settings(),
    {
        proof {
            use_type_invariant(&*self);
        }
        let ghost s0 = self.peers@;
        let mut peers = PeerTable::new();
        std::mem::swap(&mut peers, &mut self.peers);
        peers.replace_at(i, p);
        proof {
            assert forall|j: int| 0 <= j < peers@.len() implies #[trigger] peers@[j].id != self.node_id@ by {
                if j != i {
                    assert(peers@[j] == s0[j]);
                }
            }
        }
        self.peers = peers;
    }

    /// Record that the peer with id `peer_id` was seen at `now`: failures
    /// cleared, marked connected, trust raised. Always succeeds.
    pub fn mark_peer_seen_at(&mut self, peer_id: &String, now: u64) -> (r: Result<(), SynapseError>)
        ensures
            r is Ok,
            final(self).table() == if position_of(old(self).table(), peer_id@) >= 0 {
                old(self).table().update(
                    position_of(old(self).table(), peer_id@),
                    seen_at(old(self).table()[position_of(old(self).table(), peer_id@)], now),
                )
            } else {
                old(self).table()
            },
            final(self).own_id() == old(self).own_id(),
            final(self).settings() == old(self).settings(),
    {
        match self.peers.find(peer_id) {
            Some(i) => {
                let mut p = self.peers.at(i).clone();
                p.update_last_seen(now);
                p.mark_healthy();
                self.replace(i, p);
            },
            None => {},
        }
        Ok(())
    }

    /// Record that the peer with id `peer_id` was seen, by the current
    /// clock. Always succeeds.
    pub fn mark_peer_seen(&mut self, peer_id: &String) -> (r: Result<(), SynapseError>)
        ensures
            r is Ok,
            exists|now: u64|
                final(self).table() == if position_of(old(self).table(), peer_id@) >= 0 {
                    old(self).table().update(
                        position_of(old(self).table(), peer_id@),
                        #[trigger] seen_at(old(self).table()[position_of(old(self).table(), peer_id@)], now),
                    )
                } else {
                    old(self).table()
                },
            final(self).own_id() == old(self).own_id(),
            final(self).settings() == old(self).settings(),
    {
        let now = unix_time_secs();
        let r = self.mark_peer_seen_at(peer_id, now);
        proof {
            if position_of(old(self).table(), peer_id@) >= 0 {
                let _ = seen_at(old(self).table()[position_of(old(self).table(), peer_id@)], now);
            } else {
                let p = old(self).table();
                let _ = seen_at(p[0], now);
            }
        }
        r
    }

    /// Mark the peer with id `peer_id` failed, if known. Always succeeds.
    pub fn mark_peer_failed(&mut self, peer_id: &String) -> (r: Result<(), SynapseError>)
        requires
            position_of(old(self).table(), peer_id@) >= 0 ==> old(self).table()[position_of(
                old(self).table(),
                peer_id@,
            )].failure_count < u32::MAX,
        ensures
            r is Ok,
            final(self).table() == if position_of(old(self).table(), peer_id@) >= 0 {
                old(self).table().update(
                    position_of(old(self).table(), peer_id@),
                    failed(old(self).table()[position_of(old(self).table(), peer_id@)]),
                )
            } else {
                old(self).table()
            },
            final(self).own_id() == old(self).own_id(),
            final(self).settings() == old(self).settings(),
    {
        match self.peers.find(peer_id) {
            Some(i) => {
                let mut p = self.peers.at(i).clone();
                p.mark_failed();
                self.replace(i, p);
            },
            None => {},
        }
        Ok(())
    }

    /// Bootstrap discovery: add a peer for every bootstrap address (when
    /// the configuration uses bootstrap discovery), with id
    /// `bootstrap-<address>`, speaking the `bootstrap` protocol. Periodic
    /// discovery rounds and cleanups are driven by the caller.
    pub fn start_discovery(&mut self) -> (r: Result<(), SynapseError>)
        ensures
            r is Ok,
            !old(self).settings().methods@.contains(DiscoveryMethod::Bootstrap) ==> final(self).table()
                == old(self).table(),
            old(self).settings().methods@.contains(DiscoveryMethod::Bootstrap) ==> exists|seen: Seq<u64>|
                seen.len() == old(self).settings().bootstrap_peers@.len() && #[trigger] after_bootstrap(
                    old(self).table(),
                    old(self).settings().bootstrap_peers@,
                    seen,
                    seen.len() as int,
                    old(self).own_id(),
                    old(self).settings().max_peers,
                ) == final(self).table(),
            final(self).own_id() == old(self).own_id(),
            final(self).settings() == old(self).settings(),
    {
        if self.config.uses(DiscoveryMethod::Bootstrap) {
            self.bootstrap_discovery()
        } else {
            Ok(())
        }
    }

    /// Adds a peer for every bootstrap address, in order.
    fn bootstrap_discovery(&mut self) -> (r: Result<(), SynapseError>)
        ensures
            r is Ok,
            exists|seen: Seq<u64>|
                seen.len() == old(self).settings().bootstrap_peers@.len() && #[trigger] after_bootstrap(
                    old(self).table(),
                    old(self).settings().bootstrap_peers@,
                    seen,
                    seen.len() as int,
                    old(self).own_id(),
                    old(self).settings().max_peers,
                ) == final(self).table(),
            final(self).own_id() == old(self).own_id(),
            final(self).settings() == old(self).settings(),
    {
        let ghost s0 = self.table();
        let ghost addrs = self.config.bootstrap_peers@;
        let ghost mut seen: Seq<u64> = Seq::empty();
        let n = self.config.bootstrap_peers.len();
        let mut i: usize = 0;
        let prefix = "bootstrap-";
        let proto = "bootstrap";
        proof {
            reveal_strlit("bootstrap-");
            reveal_strlit("bootstrap");
        }
        while i < n
            invariant
                i <= n,
                n == addrs.len(),
                self.settings().bootstrap_peers@ == addrs,
                self.own_id() == old(self).own_id(),
                self.settings() == old(self).settings(),
                seen.len() == i,
                prefix@ == "bootstrap-"@,
                proto@ == "bootstrap"@,
                self.table() == after_bootstrap(s0, addrs, seen, i as int, self.own_id(), self.settings().max_peers),
            decreases n - i,
        {
            let addr = self.config.bootstrap_peers[i];
            let mut id = String::from_str(prefix);
            id.append(addr.to_text().as_str());
            let peer = Peer::new(id, addr).add_protocol(String::from_str(proto));
            let ghost seen_at_i = peer.last_seen;
            proof {
                assert(peer@.metadata =~= seq![]);
                assert(peer@.protocols =~= seq!["bootstrap"@]);
                assert(peer@ == bootstrap_peer(addr, seen_at_i));
            }
            let _ = self.add_peer(peer);
            proof {
                let next = seen.push(seen_at_i);
                assert forall|k: int| 0 <= k < i implies next[k] == seen[k] by {}
                lemma_bootstrap_prefix(s0, addrs, seen, next, i as int, self.own_id(), self.settings().max_peers);
                seen = next;
            }
            i = i + 1;
        }
        Ok(())
    }

    /// Remove the peers the cleanup at time `now` drops (unseen for over an
    /// hour, or failed more than five times in a row), keeping the rest in
    /// order.
    pub fn cleanup_stale_peers_at(&mut self, now: u64)
        ensures
            final(self).table() == kept_after_cleanup(old(self).table(), now),
            final(self).own_id() == old(self).own_id(),
            final(self).settings() == old(self).settings(),
    {
        let ghost s0 = self.table();
        let n = self.peers.len();
        let mut i: usize = 0;
        let mut j: usize = 0;
        while j < n
            invariant
                j <= n,
                n == s0.len(),
                i <= j,
                i == kept_after_cleanup(s0.take(j as int), now).len(),
                self.own_id() == old(self).own_id(),
                self.settings() == old(self).settings(),
                self.table() == kept_after_cleanup(s0.take(j as int), now) + s0.skip(j as int),
            decreases n - j,
        {
            proof {
                lemma_kept_len(s0.take(j as int), now);
                assert(s0.take(j as int + 1).drop_last() =~= s0.take(j as int));
                assert(s0.take(j as int + 1).last() == s0[j as int]);
                assert(self.table()[i as int] == s0[j as int]);
            }
            let removes = {
                let p = self.peers.at(i);
                p.is_stale_at(3600, now) || (p.state == PeerState::Failed && p.failure_count > 5)
            };
            if removes {
                self.remove_index(i);
                assert(self.table() =~= kept_after_cleanup(s0.take(j as int + 1), now) + s0.skip(j as int + 1));
            } else {
                i = i + 1;
                assert(self.table() =~= kept_after_cleanup(s0.take(j as int + 1), now) + s0.skip(j as int + 1));
            }
            j = j + 1;
        }
        proof {
            assert(s0.take(n as int) =~= s0);
            assert(self.table() =~= kept_after_cleanup(s0, now));
        }
    }

    /// Remove the peers the cleanup by the current clock drops.
    pub fn cleanup_stale_peers(&mut self)
        ensures
            exists|now: u64| final(self).table() == #[trigger] kept_after_cleanup(old(self).table(), now),
            final(self).own_id() == old(self).own_id(),
            final(self).settings() == old(self).settings(),
    {
        let now = unix_time_secs();
        self.cleanup_stale_peers_at(now);
    }

    /// Removes the `i`-th peer.
    fn remove_index(&mut self, i: usize)
        requires
            i < old(self).table().len(),
        ensures
            final(self).table() == old(self).table().remove(i as int),
            final(self).own_id() == old(self).own_id(),
            final(self).settings() == old(self).settings(),
    {
        proof {
            use_type_invariant(&*self);
        }
        let ghost s0 = self.peers@;
        let mut peers = PeerTable::new();
        std::mem::swap(&mut peers, &mut self.peers);
        peers.remove_at(i);
        proof {
            assert forall|j: int| 0 <= j < peers@.len() implies #[trigger] peers@[j].id != self.node_id@ by {
                assert(peers@[j] == if j < i {
                    s0[j]
                } else {
                    s0[j + 1]
                });
            }
        }
        self.peers = peers;
    }

    /// Peer statistics: counts, average trust and average latency.
    pub fn get_stats(&self) -> (st: PeerStats)
        ensures
            st == stats_of(self.table()),
    {
        let ghost s = self.table();
        let n = self.peers.len();
        let mut healthy: usize = 0;
        let mut connecting: usize = 0;
        let mut failed: usize = 0;
        let mut trust: u128 = 0;
        let mut lat_count: u64 = 0;
        let mut lat_sum: u128 = 0;
        let mut i: usize = 0;
        while i < n
            invariant
                i <= n,
                n == s.len(),
                s == self.table(),
                healthy == healthy_of(s.take(i as int)).len(),
                connecting == count_state(s.take(i as int), PeerState::Connecting),
                failed == count_state(s.take(i as int), PeerState::Failed),
                trust == trust_sum(s.take(i as int)),
                lat_count == latency_stats(s.take(i as int)).0,
                lat_sum == latency_stats(s.take(i as int)).1,
                healthy <= i,
                connecting <= i,
                failed <= i,
                trust <= 255 * i,
                lat_count <= i,
                lat_sum <= 0xffff_ffff_ffff_ffff * lat_count,
            decreases n - i,
        {
            let p = self.peers.at(i);
            proof {
                let t = s.take(i + 1);
                assert(t.drop_last() =~= s.take(i as int));
                assert(t.last() == s[i as int]);
            }
            if p.is_healthy() {
                healthy = healthy + 1;
            }
            if p.state == PeerState::Connecting {
                connecting = connecting + 1;
            }
            if p.state == PeerState::Failed {
                failed = failed + 1;
            }
            trust = trust + p.trust_score as u128;
            match p.latency_ms {
                Some(l) => {
                    proof {
                        assert(lat_sum + l <= 0xffff_ffff_ffff_ffff * (lat_count + 1)) by (nonlinear_arith)
                            requires
                                lat_sum <= 0xffff_ffff_ffff_ffff * lat_count,
                                l <= 0xffff_ffff_ffff_ffff,
                        ;
                        assert(0xffff_ffff_ffff_ffff * (lat_count + 1) <= 0xffff_ffff_ffff_ffff * 0xffff_ffff_ffff_ffffu128) by (nonlinear_arith)
                            requires
                                lat_count + 1 <= 0xffff_ffff_ffff_ffff,
                        ;
                    }
                    lat_count = lat_count + 1;
                    lat_sum = lat_sum + l as u128;
                },
                None => {},
            }
            i = i + 1;
        }
        assert(s.take(n as int) =~= s);
        let avg_trust = if n > 0 {
            (trust / (n as u128)) as u8
        } else {
            0
        };
        let avg_latency = if lat_count > 0 {
            proof {
                assert(lat_sum / (lat_count as u128) <= 0xffff_ffff_ffff_ffff) by (nonlinear_arith)
                    requires
                        lat_sum <= 0xffff_ffff_ffff_ffff * lat_count,
                        lat_count > 0,
                ;
            }
            Some((lat_sum / (lat_count as u128)) as u64)
        } else {
            None
        };
        PeerStats {
            total_peers: n,
            healthy_peers: healthy,
            connecting_peers: connecting,
            failed_peers: failed,
            avg_trust_score: avg_trust,
            avg_latency_ms: avg_latency,
        }
    }
}

/// The peer after being seen at `now`: seen, no failures, connected, trust
/// raised by one up to 100.
pub open spec fn seen_at(p: PeerModel, now: u64) -> PeerModel {
    PeerModel {
        state: PeerState::Connected,
        failure_count: 0,
        last_seen: now,
        trust_score: if p.trust_score < 100 {
            (p.trust_score + 1) as u8
        } else {
            p.trust_score
        },
        ..p
    }
}

/// The peer after being marked unhealthy: one more failure, trust lowered
/// by five (not below 0).
pub open spec fn unhealthy(p: PeerModel) -> PeerModel {
    PeerModel {
        state: PeerState::Unhealthy,
        failure_count: (p.failure_count + 1) as u32,
        trust_score: sat_sub(p.trust_score as int, 5) as u8,
        ..p
    }
}

/// The peer after a failure: failed, one more failure, trust lowered by ten
/// (not below 0).
pub open spec fn failed(p: PeerModel) -> PeerModel {
    PeerModel {
        state: PeerState::Failed,
        failure_count: (p.failure_count + 1) as u32,
        trust_score: sat_sub(p.trust_score as int, 10) as u8,
        ..p
    }
}

proof fn lemma_kept_len(s: Seq<PeerModel>, now: u64)
    ensures
        kept_after_cleanup(s, now).len() <= s.len(),
    decreases s.len(),
{
    if s.len() > 0 {
        lemma_kept_len(s.drop_last(), now);
    }
}

proof fn lemma_bootstrap_agree(
    s: Seq<PeerModel>,
    addrs: Seq<SocketAddress>,
    a: Seq<u64>,
    b: Seq<u64>,
    k: int,
    own: Seq<char>,
    max_peers: usize,
)
    requires
        forall|j: int| 0 <= j < k ==> a[j] == b[j],
    ensures
        after_bootstrap(s, addrs, a, k, own, max_peers) == after_bootstrap(s, addrs, b, k, own, max_peers),
    decreases k,
{
    if k > 0 {
        lemma_bootstrap_agree(s, addrs, a, b, k - 1, own, max_peers);
        assert(a[k - 1] == b[k - 1]);
    }
}

proof fn lemma_bootstrap_prefix(
    s: Seq<PeerModel>,
    addrs: Seq<SocketAddress>,
    seen: Seq<u64>,
    next: Seq<u64>,
    k: int,
    own: Seq<char>,
    max_peers: usize,
)
    requires
        0 <= k,
        seen.len() == k,
        next.len() == k + 1,
        forall|j: int| 0 <= j < k ==> next[j] == seen[j],
    ensures
        after_bootstrap(s, addrs, next, k, own, max_peers) == after_bootstrap(s, addrs, seen, k, own, max_peers),
        after_bootstrap(s, addrs, next, k + 1, own, max_peers) == after_add(
            after_bootstrap(s, addrs, seen, k, own, max_peers),
            bootstrap_peer(addrs[k], next[k]),
            own,
            max_peers,
        ),
{
    lemma_bootstrap_agree(s, addrs, next, seen, k, own, max_peers);
}

/// Law: adding a peer with a new id evicts at most one peer, and only at
/// capacity. Below capacity the peer is appended and every peer stays. At
/// capacity one peer of lowest quality leaves (no other peer has a lower
/// quality score), the others stay in order, and the new peer is appended.
pub proof fn lemma_add_evicts_lowest_quality(s: Seq<PeerModel>, p: PeerModel, own: Seq<char>, max_peers: usize)
    requires
        ids_unique(s),
        p.id != own,
        forall|i: int| 0 <= i < s.len() ==> #[trigger] s[i].id != p.id,
    ensures
        s.len() >= max_peers && s.len() > 0 ==> exists|w: int|
            0 <= w < s.len() && (forall|j: int| 0 <= j < s.len() ==> quality(#[trigger] s[w]) <= quality(#[trigger] s[j]))
                && after_add(s, p, own, max_peers) == s.remove(w).push(p),
        !(s.len() >= max_peers && s.len() > 0) ==> after_add(s, p, own, max_peers) == s.push(p),
{
    if s.len() >= max_peers && s.len() > 0 {
        lemma_worst_index(s);
        let w = worst_index(s);
        let r = s.remove(w);
        assert forall|i: int| 0 <= i < r.len() implies #[trigger] r[i].id != p.id by {
            if i < w {
                assert(r[i] == s[i]);
            } else {
                assert(r[i] == s[i + 1]);
            }
        }
        assert(position_of(r, p.id) == -1);
        assert(quality(s[w]) <= quality(s[w]));
    } else {
        assert(position_of(s, p.id) == -1);
    }
}

} // verus!
