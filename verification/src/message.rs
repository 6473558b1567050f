//! Message types for communication across the mesh, their signing with
//! Ed25519, their expiry, and the envelopes and batches that carry them.

pub mod priority;
pub mod ttl;

use crate::codec::{
    byte_len, bytes_frame, push_bytes, push_slice, push_str, push_u64, str_byte_len, str_frame,
    u128_le, u128_le_bytes, u64_le, u64_le_bytes,
};
use crate::collections::order::{lemma_sort_ignores_order, pick, sort_entries, sorted_positions};
use crate::collections::{keys_unique, StringMap};
use crate::crypto::{
    ed25519_check_public_key, ed25519_derive_public_key, ed25519_point_valid, ed25519_public_key,
    ed25519_sign, ed25519_signature, ed25519_verifies, ed25519_verify,
    signature_error_text,
};
use crate::error::SynapseError;
use crate::gossip::{GossipMessage, GossipMessageModel};
use crate::platform::{is_uuid_v4, random_uuid_v4, unix_time_nanos, unix_time_secs};
use crate::text::{decimal_digits, decimal_text, uuid_hyphenated, uuid_text};
use std::collections::hash_map::DefaultHasher;
use std::hash::Hasher;
use vstd::layout::size_of;
use vstd::prelude::*;
use vstd::std_specs::hash::DefaultHasherAdditionalSpecFns;
use vstd::string::*;
use vstd::utf8::encode_utf8;

verus! {

/// Entries of a string map, in order.
pub type Entries = Seq<(Seq<char>, Seq<char>)>;

/// Abstract value of a [`MessageType`].
pub enum MessageTypeModel {
    Data(Seq<char>),
    Structured(Entries),
    Binary(Seq<u8>),
    Command { action: Seq<char>, params: Entries },
    Status { component: Seq<char>, state: Seq<char> },
    Alert { level: Seq<char>, message: Seq<char>, details: Option<Entries> },
}

/// Types of messages that can be sent across the network.
#[derive(Debug, PartialEq, Eq)]
pub enum MessageType {
    /// Raw data payload.
    Data(String),
    /// Structured key-value data.
    Structured(StringMap),
    /// Binary data payload.
    Binary(Vec<u8>),
    /// Command or control message.
    Command { action: String, params: StringMap },
    /// Status or heartbeat message.
    Status { component: String, state: String },
    /// Error or alert message.
    Alert { level: String, message: String, details: Option<StringMap> },
}

impl View for MessageType {
    type V = MessageTypeModel;

    open spec fn view(&self) -> MessageTypeModel {
        match self {
            MessageType::Data(d) => MessageTypeModel::Data(d@),
            MessageType::Structured(m) => MessageTypeModel::Structured(m@),
            MessageType::Binary(b) => MessageTypeModel::Binary(b@),
            MessageType::Command { action, params } => MessageTypeModel::Command {
                action: action@,
                params: params@,
            },
            MessageType::Status { component, state } => MessageTypeModel::Status {
                component: component@,
                state: state@,
            },
            MessageType::Alert { level, message, details } => MessageTypeModel::Alert {
                level: level@,
                message: message@,
                details: match details {
                    Some(d) => Some(d@),
                    None => None,
                },
            },
        }
    }
}

/// A copy of `b`.
pub fn copy_bytes(b: &Vec<u8>) -> (c: Vec<u8>)
    ensures
        c@ == b@,
{
    let mut c: Vec<u8> = Vec::new();
    push_slice(&mut c, b.as_slice());
    assert(c@ =~= b@);
    c
}

impl Clone for MessageType {
    /// A copy with the same contents.
    fn clone(&self) -> (c: Self)
        ensures
            c@ == self@,
    {
        match self {
            MessageType::Data(d) => MessageType::Data(d.clone()),
            MessageType::Structured(m) => MessageType::Structured(m.clone()),
            MessageType::Binary(b) => MessageType::Binary(copy_bytes(b)),
            MessageType::Command { action, params } => MessageType::Command {
                action: action.clone(),
                params: params.clone(),
            },
            MessageType::Status { component, state } => MessageType::Status {
                component: component.clone(),
                state: state.clone(),
            },
            MessageType::Alert { level, message, details } => MessageType::Alert {
                level: level.clone(),
                message: message.clone(),
                details: match details {
                    Some(d) => Some(d.clone()),
                    None => None,
                },
            },
        }
    }
}

/// Abstract value of a [`MessageSignature`].
pub struct SignatureModel {
    pub signature: Seq<u8>,
    pub public_key: Seq<u8>,
    pub algorithm: Seq<char>,
    pub signed_at: u64,
}

/// Digital signature for message integrity and authenticity.
#[derive(Debug)]
pub struct MessageSignature {
    /// The signature bytes.
    pub signature: Vec<u8>,
    /// Public key of the signer.
    pub public_key: Vec<u8>,
    /// Signature algorithm used.
    pub algorithm: String,
    /// When the signature was created (seconds since the Unix epoch).
    pub signed_at: u64,
}

impl View for MessageSignature {
    type V = SignatureModel;

    open spec fn view(&self) -> SignatureModel {
        SignatureModel {
            signature: self.signature@,
            public_key: self.public_key@,
            algorithm: self.algorithm@,
            signed_at: self.signed_at,
        }
    }
}

impl Clone for MessageSignature {
    /// A copy with the same contents.
    fn clone(&self) -> (c: Self)
        ensures
            c@ == self@,
    {
        MessageSignature {
            signature: copy_bytes(&self.signature),
            public_key: copy_bytes(&self.public_key),
            algorithm: self.algorithm.clone(),
            signed_at: self.signed_at,
        }
    }
}

/// The algorithm name recorded in Ed25519 signatures.
pub open spec fn ed25519_name() -> Seq<char> {
    seq!['E', 'd', '2', '5', '5', '1', '9']
}

/// A signature is accepted for `content`: Ed25519, a 32-byte public key
/// that is a valid point, 64 signature bytes, and the signature verifies.
pub open spec fn signature_accepts(s: SignatureModel, content: Seq<u8>) -> bool {
    &&& s.algorithm == ed25519_name()
    &&& s.public_key.len() == 32
    &&& ed25519_point_valid(s.public_key)
    &&& s.signature.len() == 64
    &&& ed25519_verifies(s.public_key, content, s.signature)
}

/// The error text for a signature that is not accepted, or (for the two
/// failures whose text ends with the crypto library's own wording) its
/// prefix.
pub open spec fn rejection_text(s: SignatureModel) -> Seq<char> {
    if s.algorithm != ed25519_name() {
        "Unsupported signature algorithm: "@ + s.algorithm
    } else if s.public_key.len() != 32 {
        "Invalid public key length"@
    } else if !ed25519_point_valid(s.public_key) {
        "Invalid public key: "@
    } else if s.signature.len() != 64 {
        "Invalid signature length"@
    } else {
        "Signature verification failed: "@
    }
}

/// How a rejected signature is reported: a security error whose text is
/// `rejection_text`, exactly for the fixed texts and as a prefix otherwise.
pub open spec fn is_rejection(e: SynapseError, s: SignatureModel) -> bool {
    match e {
        SynapseError::Security(text) => if s.algorithm != ed25519_name() || s.public_key.len() != 32
            || (ed25519_point_valid(s.public_key) && s.signature.len() != 64) {
            text@ == rejection_text(s)
        } else {
            rejection_text(s).is_prefix_of(text@)
        },
        _ => false,
    }
}

/// Copies 32 bytes into an array.
fn to_array32(v: &Vec<u8>) -> (a: [u8; 32])
    requires
        v.len() == 32,
    ensures
        a@ == v@,
{
    let mut a = [0u8; 32];
    let mut i: usize = 0;
    while i < 32
        invariant
            v.len() == 32,
            i <= 32,
            forall|j: int| 0 <= j < i ==> a@[j] == v@[j],
        decreases 32 - i,
    {
        a[i] = v[i];
        i = i + 1;
    }
    assert(a@ =~= v@);
    a
}

/// Copies 64 bytes into an array.
fn to_array64(v: &Vec<u8>) -> (a: [u8; 64])
    requires
        v.len() == 64,
    ensures
        a@ == v@,
{
    let mut a = [0u8; 64];
    let mut i: usize = 0;
    while i < 64
        invariant
            v.len() == 64,
            i <= 64,
            forall|j: int| 0 <= j < i ==> a@[j] == v@[j],
        decreases 64 - i,
    {
        a[i] = v[i];
        i = i + 1;
    }
    assert(a@ =~= v@);
    a
}

/// A string holding `s`.
fn text_of(s: &str) -> (t: String)
    ensures
        t@ == s@,
{
    String::from_str(s)
}

impl MessageSignature {
    /// Create a new Ed25519 signature record from the 64 bytes of a
    /// signature and the 32 bytes of the signer's public key, stamped with
    /// the current time.
    pub fn new_ed25519(signature: [u8; 64], public_key: [u8; 32]) -> (s: Self)
        ensures
            s@.algorithm == ed25519_name(),
            s@.signature == signature@,
            s@.public_key == public_key@,
    {
        let signed_at = unix_time_secs();
        let mut sig_vec: Vec<u8> = Vec::new();
        push_slice(&mut sig_vec, &signature);
        let mut pk_vec: Vec<u8> = Vec::new();
        push_slice(&mut pk_vec, &public_key);
        let name = text_of("Ed25519");
        proof {
            reveal_strlit("Ed25519");
            assert(name@ =~= ed25519_name());
        }
        MessageSignature { signature: sig_vec, public_key: pk_vec, algorithm: name, signed_at }
    }

    /// Verify this signature against message content.
    pub fn verify(&self, message_content: &[u8]) -> (r: Result<(), SynapseError>)
        ensures
            r is Ok <==> signature_accepts(self@, message_content@),
            r matches Err(e) ==> is_rejection(e, self@),
    {
        let name = text_of("Ed25519");
        proof {
            reveal_strlit("Ed25519");
            assert(name@ =~= ed25519_name());
        }
        if self.algorithm == name {
            self.verify_ed25519(message_content)
        } else {
            let mut text = text_of("Unsupported signature algorithm: ");
            text.append(self.algorithm.as_str());
            Err(SynapseError::Security(text))
        }
    }

    /// Verify an Ed25519 signature.
    fn verify_ed25519(&self, message_content: &[u8]) -> (r: Result<(), SynapseError>)
        requires
            self@.algorithm == ed25519_name(),
        ensures
            r is Ok <==> signature_accepts(self@, message_content@),
            r matches Err(e) ==> is_rejection(e, self@),
    {
        if self.public_key.len() != 32 {
            return Err(SynapseError::Security(text_of("Invalid public key length")));
        }
        let public_key = to_array32(&self.public_key);
        match ed25519_check_public_key(&public_key) {
            Ok(()) => {},
            Err(e) => {
                let mut text = text_of("Invalid public key: ");
                let ghost prefix = text@;
                text.append(signature_error_text(&e).as_str());
                assert(prefix.is_prefix_of(text@));
                return Err(SynapseError::Security(text));
            },
        }
        if self.signature.len() != 64 {
            return Err(SynapseError::Security(text_of("Invalid signature length")));
        }
        let signature = to_array64(&self.signature);
        match ed25519_verify(&public_key, message_content, &signature) {
            Ok(()) => Ok(()),
            Err(e) => {
                let mut text = text_of("Signature verification failed: ");
                let ghost prefix = text@;
                text.append(signature_error_text(&e).as_str());
                assert(prefix.is_prefix_of(text@));
                Err(SynapseError::Security(text))
            },
        }
    }
}


/// Frames of the entries of a map, in order: key then value, each framed.
pub open spec fn entries_frame(e: Entries) -> Seq<u8>
    decreases e.len(),
{
    if e.len() == 0 {
        seq![]
    } else {
        entries_frame(e.drop_last()) + str_frame(e.last().0) + str_frame(e.last().1)
    }
}

/// A map framed as its entry count followed by its entries in key order,
/// so that the frame does not depend on the order the map stores them in.
pub open spec fn map_frame(e: Entries) -> Seq<u8> {
    u64_le(e.len() as u64) + entries_frame(sort_entries(e))
}

/// An optional string framed as a 0 byte, or a 1 byte and the string.
pub open spec fn opt_str_frame(s: Option<Seq<char>>) -> Seq<u8> {
    match s {
        None => seq![0u8],
        Some(x) => seq![1u8] + str_frame(x),
    }
}

/// A message type framed as a tag byte followed by its fields.
pub open spec fn type_frame(t: MessageTypeModel) -> Seq<u8> {
    match t {
        MessageTypeModel::Data(d) => seq![0u8] + str_frame(d),
        MessageTypeModel::Structured(m) => seq![1u8] + map_frame(m),
        MessageTypeModel::Binary(b) => seq![2u8] + bytes_frame(b),
        MessageTypeModel::Command { action, params } => seq![3u8] + str_frame(action) + map_frame(
            params,
        ),
        MessageTypeModel::Status { component, state } => seq![4u8] + str_frame(component)
            + str_frame(state),
        MessageTypeModel::Alert { level, message, details } => seq![5u8] + str_frame(level)
            + str_frame(message) + match details {
            None => seq![0u8],
            Some(d) => seq![1u8] + map_frame(d),
        },
    }
}

/// Appends the framed entries of `m`, in key order.
fn push_map(out: &mut Vec<u8>, m: &StringMap)
    ensures
        final(out)@ == old(out)@ + map_frame(m@),
{
    push_u64(out, m.len() as u64);
    let ix = sorted_positions(m);
    let ghost start = out@;
    let ghost sorted = pick(m@, ix@);
    let mut i: usize = 0;
    while i < ix.len()
        invariant
            i <= ix@.len(),
            ix@.len() == m@.len(),
            forall|t: int| 0 <= t < ix@.len() ==> #[trigger] ix@[t] < m@.len(),
            sorted == pick(m@, ix@),
            out@ == start + entries_frame(sorted.take(i as int)),
        decreases ix@.len() - i,
    {
        let p = ix[i];
        push_str(out, m.key_at(p));
        push_str(out, m.value_at(p));
        proof {
            let t = sorted.take(i + 1);
            assert(t.drop_last() =~= sorted.take(i as int));
            assert(t.last() == m@[p as int]);
        }
        i = i + 1;
        assert(out@ =~= start + entries_frame(sorted.take(i as int)));
    }
    assert(sorted.take(ix@.len() as int) =~= sorted);
    assert(final(out)@ =~= old(out)@ + map_frame(m@));
}

/// Appends the frame of a message type.
fn push_message_type(out: &mut Vec<u8>, t: &MessageType)
    ensures
        final(out)@ == old(out)@ + type_frame(t@),
{
    match t {
        MessageType::Data(d) => {
            out.push(0u8);
            push_str(out, d);
        },
        MessageType::Structured(m) => {
            out.push(1u8);
            push_map(out, m);
        },
        MessageType::Binary(b) => {
            out.push(2u8);
            push_bytes(out, b);
        },
        MessageType::Command { action, params } => {
            out.push(3u8);
            push_str(out, action);
            push_map(out, params);
        },
        MessageType::Status { component, state } => {
            out.push(4u8);
            push_str(out, component);
            push_str(out, state);
        },
        MessageType::Alert { level, message, details } => {
            out.push(5u8);
            push_str(out, level);
            push_str(out, message);
            match details {
                None => {
                    out.push(0u8);
                },
                Some(d) => {
                    out.push(1u8);
                    push_map(out, d);
                },
            }
        },
    }
    assert(final(out)@ =~= old(out)@ + type_frame(t@));
}

/// Abstract value of a [`Message`].
pub struct MessageModel {
    pub id: u64,
    pub message_type: MessageTypeModel,
    pub source: Seq<char>,
    pub timestamp: u64,
    pub ttl: u64,
    pub priority: u8,
    pub correlation_id: Option<Seq<char>>,
    pub headers: Entries,
    pub signature: Option<SignatureModel>,
}

/// Core message structure for network communication.
#[derive(Debug)]
pub struct Message {
    /// Message identifier.
    pub id: u64,
    /// Message type and payload.
    pub message_type: MessageType,
    /// Source node identifier.
    pub source: String,
    /// Creation time (seconds since the Unix epoch).
    pub timestamp: u64,
    /// Time-to-live in seconds.
    pub ttl: u64,
    /// Priority (0-255, higher = more priority).
    pub priority: u8,
    /// Optional correlation ID for request/response patterns.
    pub correlation_id: Option<String>,
    /// Custom headers.
    pub headers: StringMap,
    /// Digital signature (optional).
    pub signature: Option<MessageSignature>,
}

impl View for Message {
    type V = MessageModel;

    open spec fn view(&self) -> MessageModel {
        MessageModel {
            id: self.id,
            message_type: self.message_type@,
            source: self.source@,
            timestamp: self.timestamp,
            ttl: self.ttl,
            priority: self.priority,
            correlation_id: match self.correlation_id {
                Some(c) => Some(c@),
                None => None,
            },
            headers: self.headers@,
            signature: match self.signature {
                Some(s) => Some(s@),
                None => None,
            },
        }
    }
}

impl Clone for Message {
    /// A copy with the same contents.
    fn clone(&self) -> (c: Self)
        ensures
            c@ == self@,
    {
        Message {
            id: self.id,
            message_type: self.message_type.clone(),
            source: self.source.clone(),
            timestamp: self.timestamp,
            ttl: self.ttl,
            priority: self.priority,
            correlation_id: match &self.correlation_id {
                Some(c) => Some(c.clone()),
                None => None,
            },
            headers: self.headers.clone(),
            signature: match &self.signature {
                Some(s) => Some(s.clone()),
                None => None,
            },
        }
    }
}

/// The bytes a signature covers: every field of the message but the
/// signature, framed in order.
pub open spec fn signable_bytes(m: MessageModel) -> Seq<u8> {
    u64_le(m.id) + type_frame(m.message_type) + str_frame(m.source) + u64_le(m.timestamp) + u64_le(
        m.ttl,
    ) + seq![m.priority] + opt_str_frame(m.correlation_id) + map_frame(m.headers)
}

/// Hasher writes for a string (`str`'s `Hash`: the bytes, then 0xff).
pub open spec fn str_hash_writes(s: Seq<char>) -> Seq<Seq<u8>> {
    seq![encode_utf8(s), seq![0xffu8]]
}

/// Hasher writes for the entries of a map: each key, then its value.
pub open spec fn entries_hash_writes(e: Entries) -> Seq<Seq<u8>>
    decreases e.len(),
{
    if e.len() == 0 {
        seq![]
    } else {
        entries_hash_writes(e.drop_last()) + str_hash_writes(e.last().0) + str_hash_writes(
            e.last().1,
        )
    }
}

/// Hasher writes for the content of a message type.
pub open spec fn type_hash_writes(t: MessageTypeModel) -> Seq<Seq<u8>> {
    match t {
        MessageTypeModel::Data(d) => str_hash_writes(d),
        MessageTypeModel::Structured(m) => entries_hash_writes(m),
        MessageTypeModel::Binary(b) => seq![u64_le(b.len() as u64), b],
        MessageTypeModel::Command { action, params } => str_hash_writes(action)
            + entries_hash_writes(params),
        MessageTypeModel::Status { component, state } => str_hash_writes(component)
            + str_hash_writes(state),
        MessageTypeModel::Alert { level, message, details } => str_hash_writes(level)
            + str_hash_writes(message) + match details {
            None => seq![],
            Some(d) => entries_hash_writes(d),
        },
    }
}

/// Hasher writes from which a message id is computed: the content, the
/// source, a clock reading in nanoseconds and a random UUID's text.
pub open spec fn id_hash_writes(t: MessageTypeModel, source: Seq<char>, nanos: u128, uuid: Seq<char>) -> Seq<Seq<u8>> {
    type_hash_writes(t) + str_hash_writes(source) + seq![u128_le(nanos)] + str_hash_writes(uuid)
}

/// Feeds a string to the hasher as `str`'s `Hash` does.
pub fn hash_str(h: &mut DefaultHasher, s: &String)
    ensures
        final(h)@ == old(h)@ + str_hash_writes(s@),
{
    h.write(s.as_str().as_bytes());
    let end = [0xffu8];
    h.write(&end);
    assert(end@ =~= seq![0xffu8]);
    assert(final(h)@ =~= old(h)@ + str_hash_writes(s@));
}

/// Feeds the entries of a map to the hasher.
fn hash_entries(h: &mut DefaultHasher, m: &StringMap)
    ensures
        final(h)@ == old(h)@ + entries_hash_writes(m@),
{
    let ghost start = h@;
    let mut i: usize = 0;
    while i < m.len()
        invariant
            i <= m@.len(),
            h@ == start + entries_hash_writes(m@.take(i as int)),
        decreases m@.len() - i,
    {
        hash_str(h, m.key_at(i));
        hash_str(h, m.value_at(i));
        proof {
            let t = m@.take(i + 1);
            assert(t.drop_last() =~= m@.take(i as int));
            assert(t.last() == m@[i as int]);
        }
        i = i + 1;
        assert(h@ =~= start + entries_hash_writes(m@.take(i as int)));
    }
    assert(m@.take(m@.len() as int) =~= m@);
}

/// Feeds the content of a message type to the hasher.
fn hash_message_type(h: &mut DefaultHasher, t: &MessageType)
    ensures
        final(h)@ == old(h)@ + type_hash_writes(t@),
{
    match t {
        MessageType::Data(d) => hash_str(h, d),
        MessageType::Structured(m) => hash_entries(h, m),
        MessageType::Binary(b) => {
            h.write(&u64_le_bytes(b.len() as u64));
            h.write(b.as_slice());
        },
        MessageType::Command { action, params } => {
            hash_str(h, action);
            hash_entries(h, params);
        },
        MessageType::Status { component, state } => {
            hash_str(h, component);
            hash_str(h, state);
        },
        MessageType::Alert { level, message, details } => {
            hash_str(h, level);
            hash_str(h, message);
            match details {
                Some(d) => hash_entries(h, d),
                None => {},
            }
        },
    }
    assert(final(h)@ =~= old(h)@ + type_hash_writes(t@));
}

/// Byte lengths of the keys and values of a map, summed.
pub open spec fn entries_size(e: Entries) -> int
    decreases e.len(),
{
    if e.len() == 0 {
        0
    } else {
        entries_size(e.drop_last()) + byte_len(e.last().0) + byte_len(e.last().1)
    }
}

/// Size estimate of a message type's payload.
pub open spec fn type_size(t: MessageTypeModel) -> int {
    match t {
        MessageTypeModel::Data(d) => byte_len(d) as int,
        MessageTypeModel::Structured(m) => entries_size(m),
        MessageTypeModel::Binary(b) => b.len() as int,
        MessageTypeModel::Command { action, params } => byte_len(action) + entries_size(params),
        MessageTypeModel::Status { component, state } => byte_len(component) + byte_len(state),
        MessageTypeModel::Alert { level, message, details } => byte_len(level) + byte_len(message)
            + match details {
            None => 0,
            Some(d) => entries_size(d),
        },
    }
}

/// Size estimate of a message: its in-memory size plus the byte lengths of
/// its payload, headers, correlation id and source.
pub open spec fn message_size(m: MessageModel) -> int {
    size_of::<Message>() + type_size(m.message_type) + entries_size(m.headers) + match m.correlation_id {
        None => 0,
        Some(c) => byte_len(c) as int,
    } + byte_len(m.source)
}

proof fn lemma_entries_size_prefix(e: Entries, i: int)
    requires
        0 <= i <= e.len(),
    ensures
        0 <= entries_size(e.take(i)) <= entries_size(e),
    decreases e.len() - i,
{
    if i < e.len() {
        lemma_entries_size_prefix(e, i + 1);
        let t = e.take(i + 1);
        assert(t.drop_last() =~= e.take(i));
    } else {
        assert(e.take(i) =~= e);
    }
    lemma_entries_size_nonneg(e.take(i));
}

proof fn lemma_entries_size_nonneg(e: Entries)
    ensures
        entries_size(e) >= 0,
    decreases e.len(),
{
    if e.len() > 0 {
        lemma_entries_size_nonneg(e.drop_last());
    }
}

/// Sum of the byte lengths of the keys and values of `m`.
fn map_size(m: &StringMap, bound: Ghost<int>) -> (n: usize)
    requires
        entries_size(m@) <= bound@ <= usize::MAX,
    ensures
        n == entries_size(m@),
{
    let mut total: usize = 0;
    let mut i: usize = 0;
    while i < m.len()
        invariant
            i <= m@.len(),
            total == entries_size(m@.take(i as int)),
            entries_size(m@) <= bound@ <= usize::MAX,
        decreases m@.len() - i,
    {
        proof {
            let t = m@.take(i + 1);
            assert(t.drop_last() =~= m@.take(i as int));
            assert(t.last() == m@[i as int]);
            lemma_entries_size_prefix(m@, i + 1);
        }
        total = total + str_byte_len(m.key_at(i)) + str_byte_len(m.value_at(i));
        i = i + 1;
    }
    assert(m@.take(m@.len() as int) =~= m@);
    total
}

/// The message is expired at time `now`: `now` lies past its creation time
/// plus its time-to-live.
pub open spec fn expired_at(m: MessageModel, now: u64) -> bool {
    now > m.timestamp + m.ttl
}

impl Message {
    /// Create a message of the given type from `source`, stamped with the
    /// current time, with a TTL of one hour, normal priority, no
    /// correlation id, no headers and no signature. Its id hashes the
    /// content, the source, the clock and a random UUID.
    pub fn new(message_type: MessageType, source: String) -> (m: Self)
        ensures
            m@.message_type == message_type@,
            m@.source == source@,
            m.ttl == 3600,
            m.priority == 128,
            m.correlation_id is None,
            m@.headers.len() == 0,
            m.signature is None,
            exists|nanos: u128, uuid: u128|
                is_uuid_v4(uuid) && m.id == DefaultHasher::spec_finish(
                    id_hash_writes(message_type@, source@, nanos, uuid_hyphenated(uuid)),
                ),
    {
        let id = Self::generate_id(&message_type, &source);
        let timestamp = unix_time_secs();
        Message {
            id,
            message_type,
            source,
            timestamp,
            ttl: 3600,
            priority: 128,
            correlation_id: None,
            headers: StringMap::new(),
            signature: None,
        }
    }

    /// Set the time-to-live.
    pub fn with_ttl(self, ttl_seconds: u64) -> (m: Self)
        ensures
            m@ == (MessageModel { ttl: ttl_seconds, ..self@ }),
    {
        let mut m = self;
        m.ttl = ttl_seconds;
        m
    }

    /// Set the priority.
    pub fn with_priority(self, priority: u8) -> (m: Self)
        ensures
            m@ == (MessageModel { priority, ..self@ }),
    {
        let mut m = self;
        m.priority = priority;
        m
    }

    /// Set the correlation id.
    pub fn with_correlation_id(self, correlation_id: String) -> (m: Self)
        ensures
            m@ == (MessageModel { correlation_id: Some(correlation_id@), ..self@ }),
    {
        let mut m = self;
        m.correlation_id = Some(correlation_id);
        m
    }

    /// Add a header (replacing the value of an existing one).
    pub fn with_header(self, key: String, value: String) -> (m: Self)
        ensures
            m.headers@ == (if crate::collections::key_position(self.headers@, key@) >= 0 {
                self.headers@.update(
                    crate::collections::key_position(self.headers@, key@),
                    (key@, value@),
                )
            } else {
                self.headers@.push((key@, value@))
            }),
            m@ == (MessageModel { headers: m.headers@, ..self@ }),
    {
        proof {
            crate::collections::lemma_key_position(self.headers@, key@);
        }
        let mut m = self;
        m.headers.insert(key, value);
        m
    }

    /// The bytes a signature covers (every field but the signature).
    pub fn signable_content(&self) -> (b: Vec<u8>)
        ensures
            b@ == signable_bytes(self@),
    {
        let mut out: Vec<u8> = Vec::new();
        push_u64(&mut out, self.id);
        push_message_type(&mut out, &self.message_type);
        push_str(&mut out, &self.source);
        push_u64(&mut out, self.timestamp);
        push_u64(&mut out, self.ttl);
        out.push(self.priority);
        match &self.correlation_id {
            None => {
                out.push(0u8);
            },
            Some(c) => {
                out.push(1u8);
                push_str(&mut out, c);
            },
        }
        push_map(&mut out, &self.headers);
        assert(out@ =~= signable_bytes(self@));
        out
    }

    /// Sign the message with Ed25519 under the 32-byte secret `secret_key`:
    /// the signature covers every field but the signature itself, the
    /// recorded public key is the one derived from that secret, and the
    /// signature is accepted by [`Message::verify_signature`].
    pub fn sign_with_ed25519(self, secret_key: &[u8; 32]) -> (m: Self)
        ensures
            m@ == (MessageModel { signature: m@.signature, ..self@ }),
            m.signature matches Some(s) && s@.algorithm == ed25519_name()
                && s@.signature == ed25519_signature(secret_key@, signable_bytes(self@))
                && s@.public_key == ed25519_public_key(secret_key@),
            m.signature matches Some(s) && signature_accepts(s@, signable_bytes(m@)),
    {
        let content = self.signable_content();
        let sig = ed25519_sign(secret_key, content.as_slice());
        let pk = ed25519_derive_public_key(secret_key);
        let signed_at = unix_time_secs();
        let mut sig_vec: Vec<u8> = Vec::new();
        push_slice(&mut sig_vec, &sig);
        let mut pk_vec: Vec<u8> = Vec::new();
        push_slice(&mut pk_vec, &pk);
        let name = text_of("Ed25519");
        proof {
            reveal_strlit("Ed25519");
            assert(name@ =~= ed25519_name());
        }
        let mut m = self;
        m.signature = Some(
            MessageSignature { signature: sig_vec, public_key: pk_vec, algorithm: name, signed_at },
        );
        assert(signable_bytes(m@) == signable_bytes(self@));
        m
    }

    /// Verify the message signature: `Ok(false)` when unsigned, `Ok(true)`
    /// when the signature is accepted for the signable content, otherwise
    /// the rejection.
    pub fn verify_signature(&self) -> (r: Result<bool, SynapseError>)
        ensures
            self.signature is None ==> (r matches Ok(b) && !b),
            self.signature matches Some(s) ==> {
                &&& r matches Ok(b) ==> b
                &&& r is Ok <==> signature_accepts(s@, signable_bytes(self@))
                &&& r matches Err(e) ==> is_rejection(e, s@)
            },
    {
        match &self.signature {
            Some(signature) => {
                let content = self.signable_content();
                match signature.verify(content.as_slice()) {
                    Ok(()) => Ok(true),
                    Err(e) => Err(e),
                }
            },
            None => Ok(false),
        }
    }

    /// Whether the message is signed.
    pub fn is_signed(&self) -> (b: bool)
        ensures
            b == self.signature is Some,
    {
        self.signature.is_some()
    }

    /// The public key of the signer, if the message is signed.
    pub fn signer_public_key(&self) -> (k: Option<&[u8]>)
        ensures
            self.signature is None ==> k is None,
            self.signature matches Some(s) ==> (k matches Some(b) && b@ == s.public_key@),
    {
        match &self.signature {
            Some(s) => Some(s.public_key.as_slice()),
            None => None,
        }
    }

    /// Whether the message is expired at time `now`.
    pub fn is_expired_at(&self, now: u64) -> (b: bool)
        requires
            self.timestamp + self.ttl <= u64::MAX,
        ensures
            b == expired_at(self@, now),
    {
        now > self.timestamp + self.ttl
    }

    /// Whether the message has expired, by the current clock.
    pub fn is_expired(&self) -> (b: bool)
        requires
            self.timestamp + self.ttl <= u64::MAX,
        ensures
            exists|now: u64| b == expired_at(self@, now),
    {
        let now = unix_time_secs();
        self.is_expired_at(now)
    }

    /// Age in seconds at time `now` (0 if `now` precedes the creation time).
    pub fn age_at(&self, now: u64) -> (a: u64)
        ensures
            a == (if now >= self.timestamp {
                now - self.timestamp
            } else {
                0
            }),
    {
        now.saturating_sub(self.timestamp)
    }

    /// Age in seconds since creation, by the current clock.
    pub fn age(&self) -> (a: u64)
        ensures
            exists|now: u64| a == self.age_at_spec(now),
    {
        let now = unix_time_secs();
        let a = self.age_at(now);
        assert(a == self.age_at_spec(now));
        a
    }

    /// Age at time `now`, as [`Message::age_at`] computes it.
    pub open spec fn age_at_spec(&self, now: u64) -> u64 {
        if now >= self.timestamp {
            (now - self.timestamp) as u64
        } else {
            0
        }
    }

    /// Seconds left before expiry at time `now` (0 once expired).
    pub open spec fn remaining_ttl_spec(&self, now: u64) -> u64 {
        if expired_at(self@, now) {
            0
        } else {
            (self.timestamp + self.ttl - now) as u64
        }
    }

    /// Seconds left before expiry at time `now` (0 once expired).
    pub fn remaining_ttl_at(&self, now: u64) -> (r: u64)
        requires
            self.timestamp + self.ttl <= u64::MAX,
        ensures
            r == self.remaining_ttl_spec(now),
            now >= self.timestamp ==> r <= self.ttl,
    {
        if self.is_expired_at(now) {
            0
        } else {
            (self.timestamp + self.ttl).saturating_sub(now)
        }
    }

    /// Seconds left before expiry, by the current clock.
    pub fn remaining_ttl(&self) -> (r: u64)
        requires
            self.timestamp + self.ttl <= u64::MAX,
        ensures
            exists|now: u64| r == self.remaining_ttl_spec(now),
    {
        let now = unix_time_secs();
        self.remaining_ttl_at(now)
    }

    /// Message id: a hash of the content, the source, the clock in
    /// nanoseconds and a random UUID.
    fn generate_id(message_type: &MessageType, source: &String) -> (id: u64)
        ensures
            exists|nanos: u128, uuid: u128|
                is_uuid_v4(uuid) && id == DefaultHasher::spec_finish(
                    id_hash_writes(message_type@, source@, nanos, uuid_hyphenated(uuid)),
                ),
    {
        let mut hasher = DefaultHasher::new();
        hash_message_type(&mut hasher, message_type);
        hash_str(&mut hasher, source);
        let nanos = unix_time_nanos();
        hasher.write(u128_le_bytes(nanos).as_slice());
        let uuid = random_uuid_v4();
        let text = uuid_text(uuid);
        hash_str(&mut hasher, &text);
        assert(hasher@ =~= id_hash_writes(message_type@, source@, nanos, uuid_hyphenated(uuid)));
        hasher.finish()
    }

    /// A response to this message: of the given type, from `source`,
    /// carrying this message's correlation id (or, without one, this
    /// message's id in decimal) and this message's priority.
    pub fn create_response(&self, response_type: MessageType, source: String) -> (r: Message)
        ensures
            r@.message_type == response_type@,
            r@.source == source@,
            r@.correlation_id == Some(
                match self.correlation_id {
                    Some(c) => c@,
                    None => decimal_digits(self.id as nat),
                },
            ),
            r.priority == self.priority,
            r.ttl == 3600,
            r@.headers.len() == 0,
            r.signature is None,
    {
        let correlation_id = match &self.correlation_id {
            Some(c) => c.clone(),
            None => decimal_text(self.id),
        };
        Message::new(response_type, source).with_correlation_id(correlation_id).with_priority(
            self.priority,
        )
    }

    /// Size estimate in bytes: in-memory size plus payload, headers,
    /// correlation id and source lengths.
    pub fn estimated_size(&self) -> (n: usize)
        requires
            message_size(self@) <= usize::MAX,
        ensures
            n == message_size(self@),
    {
        proof {
            lemma_entries_size_nonneg(self.headers@);
        }
        let base_size = core::mem::size_of::<Message>();
        let bound = Ghost(message_size(self@));
        let type_size = match &self.message_type {
            MessageType::Data(data) => str_byte_len(data),
            MessageType::Structured(map) => {
                proof {
                    lemma_entries_size_nonneg(map@);
                }
                map_size(map, bound)
            },
            MessageType::Binary(data) => data.len(),
            MessageType::Command { action, params } => {
                proof {
                    lemma_entries_size_nonneg(params@);
                }
                str_byte_len(action) + map_size(params, bound)
            },
            MessageType::Status { component, state } => str_byte_len(component) + str_byte_len(
                state,
            ),
            MessageType::Alert { level, message, details } => {
                let d = match details {
                    Some(d) => {
                        proof {
                            lemma_entries_size_nonneg(d@);
                        }
                        map_size(d, bound)
                    },
                    None => 0,
                };
                str_byte_len(level) + str_byte_len(message) + d
            },
        };
        let headers_size = map_size(&self.headers, bound);
        let correlation_size = match &self.correlation_id {
            Some(c) => str_byte_len(c),
            None => 0,
        };
        let source_size = str_byte_len(&self.source);
        base_size + type_size + headers_size + correlation_size + source_size
    }
}

/// Abstract value of a [`MessageEnvelope`].
pub struct EnvelopeModel {
    pub message: GossipMessageModel,
    pub message_id: u64,
    pub source_node: Seq<char>,
    pub timestamp: u64,
    pub hop_count: u8,
    pub max_hops: u8,
    pub envelope_ttl: u64,
    pub routing_hints: Seq<Seq<char>>,
}

/// Message envelope for network transport with routing information.
#[derive(Debug)]
pub struct MessageEnvelope {
    /// The gossip payload.
    pub message: GossipMessage,
    /// Envelope identifier.
    pub message_id: u64,
    /// Node that created this envelope.
    pub source_node: String,
    /// When the envelope was created (seconds since the Unix epoch).
    pub timestamp: u64,
    /// Number of hops taken so far.
    pub hop_count: u8,
    /// Maximum hops allowed.
    pub max_hops: u8,
    /// Time-to-live of the envelope, in seconds.
    pub envelope_ttl: u64,
    /// Routing hints for mesh traversal.
    pub routing_hints: Vec<String>,
}

/// Models of a sequence of strings.
pub open spec fn strings_model(v: Seq<String>) -> Seq<Seq<char>> {
    v.map_values(|s: String| s@)
}

impl View for MessageEnvelope {
    type V = EnvelopeModel;

    open spec fn view(&self) -> EnvelopeModel {
        EnvelopeModel {
            message: self.message@,
            message_id: self.message_id,
            source_node: self.source_node@,
            timestamp: self.timestamp,
            hop_count: self.hop_count,
            max_hops: self.max_hops,
            envelope_ttl: self.envelope_ttl,
            routing_hints: strings_model(self.routing_hints@),
        }
    }
}

/// A copy of a list of strings.
pub fn clone_strings(v: &Vec<String>) -> (c: Vec<String>)
    ensures
        strings_model(c@) == strings_model(v@),
{
    let mut c: Vec<String> = Vec::new();
    let mut i: usize = 0;
    while i < v.len()
        invariant
            i <= v.len(),
            c@.len() == i,
            forall|j: int| 0 <= j < i ==> (#[trigger] c@[j])@ == v@[j]@,
        decreases v.len() - i,
    {
        c.push(v[i].clone());
        i = i + 1;
    }
    assert(strings_model(c@) =~= strings_model(v@));
    c
}

impl Clone for MessageEnvelope {
    /// A copy with the same contents.
    fn clone(&self) -> (c: Self)
        ensures
            c@ == self@,
    {
        MessageEnvelope {
            message: self.message.clone(),
            message_id: self.message_id,
            source_node: self.source_node.clone(),
            timestamp: self.timestamp,
            hop_count: self.hop_count,
            max_hops: self.max_hops,
            envelope_ttl: self.envelope_ttl,
            routing_hints: clone_strings(&self.routing_hints),
        }
    }
}

/// Hasher writes from which an envelope id is computed: the source node,
/// a clock reading in nanoseconds and a random UUID's text.
pub open spec fn envelope_id_writes(source_node: Seq<char>, nanos: u128, uuid: Seq<char>) -> Seq<Seq<u8>> {
    str_hash_writes(source_node) + seq![u128_le(nanos)] + str_hash_writes(uuid)
}

/// The envelope is expired at time `now`: more than its TTL has passed
/// since it was created.
pub open spec fn envelope_expired_at(e: EnvelopeModel, now: u64) -> bool {
    now > e.timestamp && now - e.timestamp > e.envelope_ttl
}

/// The envelope has used up its hops, against a limit of `max_hops` and its
/// own limit, whichever is smaller.
pub open spec fn hop_exceeded(e: EnvelopeModel, max_hops: u8) -> bool {
    e.hop_count >= if max_hops < e.max_hops {
        max_hops
    } else {
        e.max_hops
    }
}

/// Seconds since the envelope was created, at time `now` (0 if `now`
/// precedes creation).
pub open spec fn envelope_age_at(e: EnvelopeModel, now: u64) -> u64 {
    if now >= e.timestamp {
        (now - e.timestamp) as u64
    } else {
        0
    }
}

/// Sum of the byte lengths of `hints`.
pub open spec fn hints_size(hints: Seq<Seq<char>>) -> int
    decreases hints.len(),
{
    if hints.len() == 0 {
        0
    } else {
        hints_size(hints.drop_last()) + byte_len(hints.last())
    }
}

proof fn lemma_hints_size_prefix(h: Seq<Seq<char>>, i: int)
    requires
        0 <= i <= h.len(),
    ensures
        0 <= hints_size(h.take(i)) <= hints_size(h),
    decreases h.len() - i,
{
    if i < h.len() {
        lemma_hints_size_prefix(h, i + 1);
        assert(h.take(i + 1).drop_last() =~= h.take(i));
    } else {
        assert(h.take(i) =~= h);
    }
    lemma_hints_size_nonneg(h.take(i));
}

proof fn lemma_hints_size_nonneg(h: Seq<Seq<char>>)
    ensures
        hints_size(h) >= 0,
    decreases h.len(),
{
    if h.len() > 0 {
        lemma_hints_size_nonneg(h.drop_last());
    }
}

/// Size estimate of an envelope: its in-memory size plus the lengths of its
/// source and routing hints (the payload is measured separately).
pub open spec fn envelope_size(e: EnvelopeModel) -> int {
    size_of::<MessageEnvelope>() + byte_len(e.source_node) + hints_size(e.routing_hints)
}

impl MessageEnvelope {
    /// Create an envelope for `message` from `source_node`, stamped with the
    /// current time: no hops taken, at most 10 hops, one hour TTL, no
    /// routing hints. Its id hashes the source, the clock and a random UUID.
    pub fn new(source_node: String, message: GossipMessage) -> (e: Self)
        ensures
            e@.message == message@,
            e@.source_node == source_node@,
            e.hop_count == 0,
            e.max_hops == 10,
            e.envelope_ttl == 3600,
            e@.routing_hints.len() == 0,
            exists|nanos: u128, uuid: u128|
                is_uuid_v4(uuid) && e.message_id == DefaultHasher::spec_finish(
                    envelope_id_writes(source_node@, nanos, uuid_hyphenated(uuid)),
                ),
    {
        let message_id = Self::generate_envelope_id(&source_node);
        let timestamp = unix_time_secs();
        let e = MessageEnvelope {
            message,
            message_id,
            source_node,
            timestamp,
            hop_count: 0,
            max_hops: 10,
            envelope_ttl: 3600,
            routing_hints: Vec::new(),
        };
        assert(e@.routing_hints =~= Seq::<Seq<char>>::empty());
        e
    }

    /// Set the maximum number of hops.
    pub fn with_max_hops(self, max_hops: u8) -> (e: Self)
        ensures
            e@ == (EnvelopeModel { max_hops, ..self@ }),
    {
        let mut e = self;
        e.max_hops = max_hops;
        e
    }

    /// Set the time-to-live, in seconds.
    pub fn with_ttl(self, ttl: u64) -> (e: Self)
        ensures
            e@ == (EnvelopeModel { envelope_ttl: ttl, ..self@ }),
    {
        let mut e = self;
        e.envelope_ttl = ttl;
        e
    }

    /// Add a routing hint.
    pub fn with_routing_hint(self, hint: String) -> (e: Self)
        ensures
            e@ == (EnvelopeModel { routing_hints: self@.routing_hints.push(hint@), ..self@ }),
    {
        let mut e = self;
        let ghost before = e.routing_hints@;
        e.routing_hints.push(hint);
        assert(strings_model(e.routing_hints@) =~= strings_model(before).push(hint@));
        e
    }

    /// Count one more hop.
    pub fn increment_hop(&mut self)
        requires
            old(self).hop_count < 255,
        ensures
            final(self)@ == (EnvelopeModel { hop_count: (old(self).hop_count + 1) as u8, ..old(self)@ }),
    {
        self.hop_count = self.hop_count + 1;
    }

    /// Whether the envelope is expired at time `now`.
    pub fn is_expired_at(&self, now: u64) -> (b: bool)
        ensures
            b == envelope_expired_at(self@, now),
    {
        now.saturating_sub(self.timestamp) > self.envelope_ttl
    }

    /// Whether the envelope is expired, by the current clock.
    pub fn is_expired(&self) -> (b: bool)
        ensures
            exists|now: u64| b == envelope_expired_at(self@, now),
    {
        let now = unix_time_secs();
        self.is_expired_at(now)
    }

    /// Whether the hop count has reached `max_hops` or the envelope's own
    /// limit.
    pub fn is_hop_exceeded(&self, max_hops: u8) -> (b: bool)
        ensures
            b == hop_exceeded(self@, max_hops),
    {
        self.hop_count >= if max_hops < self.max_hops {
            max_hops
        } else {
            self.max_hops
        }
    }

    /// Age in seconds at time `now` (0 if `now` precedes creation).
    pub fn age_at(&self, now: u64) -> (a: u64)
        ensures
            a == (if now >= self.timestamp {
                now - self.timestamp
            } else {
                0
            }),
    {
        now.saturating_sub(self.timestamp)
    }

    /// Age in seconds, by the current clock.
    pub fn age(&self) -> (a: u64)
        ensures
            exists|now: u64| a == envelope_age_at(self@, now),
    {
        let now = unix_time_secs();
        let a = self.age_at(now);
        assert(a == envelope_age_at(self@, now));
        a
    }

    /// Envelope id: a hash of the source node, the clock and a random UUID.
    fn generate_envelope_id(source_node: &String) -> (id: u64)
        ensures
            exists|nanos: u128, uuid: u128|
                is_uuid_v4(uuid) && id == DefaultHasher::spec_finish(
                    envelope_id_writes(source_node@, nanos, uuid_hyphenated(uuid)),
                ),
    {
        let mut hasher = DefaultHasher::new();
        hash_str(&mut hasher, source_node);
        let nanos = unix_time_nanos();
        hasher.write(u128_le_bytes(nanos).as_slice());
        let uuid = random_uuid_v4();
        let text = uuid_text(uuid);
        hash_str(&mut hasher, &text);
        assert(hasher@ =~= envelope_id_writes(source_node@, nanos, uuid_hyphenated(uuid)));
        hasher.finish()
    }

    /// Whether the envelope may be routed through `node_id`: yes when it has
    /// no routing hints, otherwise only through a hinted node.
    pub fn should_route_through(&self, node_id: &String) -> (b: bool)
        ensures
            b == (self@.routing_hints.len() == 0 || self@.routing_hints.contains(node_id@)),
    {
        if self.routing_hints.len() == 0 {
            return true;
        }
        let mut i: usize = 0;
        while i < self.routing_hints.len()
            invariant
                i <= self.routing_hints.len(),
                forall|j: int| 0 <= j < i ==> self.routing_hints@[j]@ != node_id@,
            decreases self.routing_hints.len() - i,
        {
            if self.routing_hints[i] == *node_id {
                assert(self@.routing_hints[i as int] == node_id@);
                return true;
            }
            i = i + 1;
        }
        assert(!self@.routing_hints.contains(node_id@)) by {
            assert forall|j: int| 0 <= j < self@.routing_hints.len() implies self@.routing_hints[j]
                != node_id@ by {
                assert(self@.routing_hints[j] == self.routing_hints@[j]@);
            }
        }
        false
    }

    /// Size estimate in bytes: in-memory size plus source and routing hint
    /// lengths (the payload is not included).
    pub fn estimated_size(&self) -> (n: usize)
        requires
            envelope_size(self@) <= usize::MAX,
        ensures
            n == envelope_size(self@),
    {
        proof {
            lemma_hints_size_nonneg(self@.routing_hints);
        }
        let base_size = core::mem::size_of::<MessageEnvelope>();
        let source_size = str_byte_len(&self.source_node);
        let mut hints: usize = 0;
        let mut i: usize = 0;
        while i < self.routing_hints.len()
            invariant
                i <= self.routing_hints.len(),
                hints == hints_size(self@.routing_hints.take(i as int)),
                envelope_size(self@) <= usize::MAX,
                hints_size(self@.routing_hints) >= 0,
            decreases self.routing_hints.len() - i,
        {
            proof {
                let t = self@.routing_hints.take(i + 1);
                assert(t.drop_last() =~= self@.routing_hints.take(i as int));
                assert(t.last() == self.routing_hints@[i as int]@);
                lemma_hints_size_prefix(self@.routing_hints, i + 1);
            }
            hints = hints + str_byte_len(&self.routing_hints[i]);
            i = i + 1;
        }
        assert(self@.routing_hints.take(self@.routing_hints.len() as int) =~= self@.routing_hints);
        base_size + source_size + hints
    }
}

/// Abstract value of a [`MessageBatch`].
pub struct BatchModel {
    pub batch_id: Seq<char>,
    pub messages: Seq<EnvelopeModel>,
    pub created_at: u64,
    pub compression: Option<Seq<char>>,
    pub checksum: Option<u64>,
}

/// Batch of envelopes for efficient transmission.
#[derive(Debug)]
pub struct MessageBatch {
    /// Batch identifier.
    pub batch_id: String,
    /// Envelopes in this batch.
    pub messages: Vec<MessageEnvelope>,
    /// When the batch was created (seconds since the Unix epoch).
    pub created_at: u64,
    /// Compression algorithm used (if any).
    pub compression: Option<String>,
    /// Checksum for integrity.
    pub checksum: Option<u64>,
}

/// Models of a sequence of envelopes.
pub open spec fn envelopes_model(v: Seq<MessageEnvelope>) -> Seq<EnvelopeModel> {
    v.map_values(|e: MessageEnvelope| e@)
}

impl View for MessageBatch {
    type V = BatchModel;

    open spec fn view(&self) -> BatchModel {
        BatchModel {
            batch_id: self.batch_id@,
            messages: envelopes_model(self.messages@),
            created_at: self.created_at,
            compression: match self.compression {
                Some(c) => Some(c@),
                None => None,
            },
            checksum: self.checksum,
        }
    }
}

/// Hasher writes for the envelopes of a batch: each envelope's id, source
/// node and timestamp.
pub open spec fn envelopes_hash_writes(msgs: Seq<EnvelopeModel>) -> Seq<Seq<u8>>
    decreases msgs.len(),
{
    if msgs.len() == 0 {
        seq![]
    } else {
        envelopes_hash_writes(msgs.drop_last()) + seq![u64_le(msgs.last().message_id)]
            + str_hash_writes(msgs.last().source_node) + seq![u64_le(msgs.last().timestamp)]
    }
}

/// The checksum of a batch: a hash of its id, creation time, and each
/// envelope's id, source node and timestamp. It does not depend on the
/// compression or on the checksum field itself.
pub open spec fn batch_checksum(b: BatchModel) -> u64 {
    DefaultHasher::spec_finish(
        str_hash_writes(b.batch_id) + seq![u64_le(b.created_at)] + envelopes_hash_writes(b.messages),
    )
}

/// The batch passes its integrity check: it has no checksum, or the one it
/// has matches its contents.
pub open spec fn checksum_valid(b: BatchModel) -> bool {
    match b.checksum {
        None => true,
        Some(c) => c == batch_checksum(b),
    }
}

/// Sum of the size estimates of `msgs`.
pub open spec fn envelopes_size(msgs: Seq<EnvelopeModel>) -> int
    decreases msgs.len(),
{
    if msgs.len() == 0 {
        0
    } else {
        envelopes_size(msgs.drop_last()) + envelope_size(msgs.last())
    }
}

/// Size estimate of a batch: its in-memory size plus its id, its envelopes'
/// estimates and its compression name.
pub open spec fn batch_size(b: BatchModel) -> int {
    size_of::<MessageBatch>() + byte_len(b.batch_id) + envelopes_size(b.messages) + match b.compression {
        None => 0,
        Some(c) => byte_len(c) as int,
    }
}

proof fn lemma_envelopes_size_prefix(m: Seq<EnvelopeModel>, i: int)
    requires
        0 <= i <= m.len(),
    ensures
        0 <= envelopes_size(m.take(i)) <= envelopes_size(m),
    decreases m.len() - i,
{
    if i < m.len() {
        lemma_envelopes_size_prefix(m, i + 1);
        assert(m.take(i + 1).drop_last() =~= m.take(i));
        lemma_hints_size_nonneg(m[i].routing_hints);
    } else {
        assert(m.take(i) =~= m);
    }
    lemma_envelopes_size_nonneg(m.take(i));
}

proof fn lemma_envelopes_size_nonneg(m: Seq<EnvelopeModel>)
    ensures
        envelopes_size(m) >= 0,
    decreases m.len(),
{
    if m.len() > 0 {
        lemma_envelopes_size_nonneg(m.drop_last());
        lemma_hints_size_nonneg(m.last().routing_hints);
    }
}

/// Number of batches `split` produces from `len` envelopes with at most
/// `max_size` per batch.
pub open spec fn split_count(len: int, max_size: int) -> int {
    if len <= max_size {
        1
    } else {
        (len + max_size - 1) / max_size
    }
}

impl MessageBatch {
    /// Create a batch of `messages` with a random UUID as id, stamped with
    /// the current time, with no compression and no checksum.
    pub fn new(messages: Vec<MessageEnvelope>) -> (b: Self)
        ensures
            b@.messages == envelopes_model(messages@),
            exists|uuid: u128| is_uuid_v4(uuid) && b@.batch_id == uuid_hyphenated(uuid),
            b.compression is None,
            b.checksum is None,
    {
        let uuid = random_uuid_v4();
        let batch_id = uuid_text(uuid);
        let created_at = unix_time_secs();
        MessageBatch { batch_id, messages, created_at, compression: None, checksum: None }
    }

    /// Record the compression algorithm.
    pub fn with_compression(self, compression: String) -> (b: Self)
        ensures
            b@ == (BatchModel { compression: Some(compression@), ..self@ }),
    {
        let mut b = self;
        b.compression = Some(compression);
        b
    }

    /// Record the batch's checksum.
    pub fn with_checksum(self) -> (b: Self)
        ensures
            b@ == (BatchModel { checksum: Some(batch_checksum(self@)), ..self@ }),
    {
        let mut b = self;
        let c = b.calculate_checksum();
        b.checksum = Some(c);
        b
    }

    /// The checksum of the batch's contents.
    fn calculate_checksum(&self) -> (c: u64)
        ensures
            c == batch_checksum(self@),
    {
        let mut hasher = DefaultHasher::new();
        hash_str(&mut hasher, &self.batch_id);
        hasher.write(&u64_le_bytes(self.created_at));
        let ghost start = hasher@;
        let mut i: usize = 0;
        while i < self.messages.len()
            invariant
                i <= self.messages.len(),
                hasher@ == start + envelopes_hash_writes(envelopes_model(self.messages@).take(i as int)),
            decreases self.messages.len() - i,
        {
            let env = &self.messages[i];
            hasher.write(&u64_le_bytes(env.message_id));
            hash_str(&mut hasher, &env.source_node);
            hasher.write(&u64_le_bytes(env.timestamp));
            proof {
                let m = envelopes_model(self.messages@);
                let t = m.take(i + 1);
                assert(t.drop_last() =~= m.take(i as int));
                assert(t.last() == self.messages@[i as int]@);
            }
            i = i + 1;
            assert(hasher@ =~= start + envelopes_hash_writes(
                envelopes_model(self.messages@).take(i as int),
            ));
        }
        assert(envelopes_model(self.messages@).take(self.messages@.len() as int) =~= envelopes_model(
            self.messages@,
        ));
        assert(hasher@ =~= str_hash_writes(self@.batch_id) + seq![u64_le(self.created_at)]
            + envelopes_hash_writes(self@.messages));
        hasher.finish()
    }

    /// Integrity check: true when there is no checksum, or when it matches
    /// the batch's contents.
    pub fn verify_checksum(&self) -> (ok: bool)
        ensures
            ok == checksum_valid(self@),
    {
        match self.checksum {
            Some(expected) => expected == self.calculate_checksum(),
            None => true,
        }
    }

    /// Number of envelopes.
    pub fn len(&self) -> (n: usize)
        ensures
            n == self@.messages.len(),
    {
        self.messages.len()
    }

    /// Whether the batch holds no envelope.
    pub fn is_empty(&self) -> (b: bool)
        ensures
            b == (self@.messages.len() == 0),
    {
        self.messages.len() == 0
    }

    /// Size estimate in bytes: in-memory size plus id, envelope estimates and
    /// compression name.
    pub fn estimated_size(&self) -> (n: usize)
        requires
            batch_size(self@) <= usize::MAX,
        ensures
            n == batch_size(self@),
    {
        proof {
            lemma_envelopes_size_nonneg(self@.messages);
        }
        let base_size = core::mem::size_of::<MessageBatch>();
        let batch_id_size = str_byte_len(&self.batch_id);
        let mut messages_size: usize = 0;
        let mut i: usize = 0;
        while i < self.messages.len()
            invariant
                i <= self.messages.len(),
                messages_size == envelopes_size(self@.messages.take(i as int)),
                batch_size(self@) <= usize::MAX,
                envelopes_size(self@.messages) >= 0,
            decreases self.messages.len() - i,
        {
            proof {
                let t = self@.messages.take(i + 1);
                assert(t.drop_last() =~= self@.messages.take(i as int));
                assert(t.last() == self.messages@[i as int]@);
                lemma_envelopes_size_prefix(self@.messages, i + 1);
                lemma_hints_size_nonneg(self.messages@[i as int]@.routing_hints);
            }
            messages_size = messages_size + self.messages[i].estimated_size();
            i = i + 1;
        }
        assert(self@.messages.take(self@.messages.len() as int) =~= self@.messages);
        let compression_size = match &self.compression {
            Some(c) => str_byte_len(c),
            None => 0,
        };
        base_size + batch_id_size + messages_size + compression_size
    }

    /// Split into batches of at most `max_size` envelopes. A batch that
    /// already fits is returned as it is; otherwise the envelopes are cut,
    /// in order, into consecutive chunks of `max_size` (the last may be
    /// shorter), each in a new batch.
    pub fn split(self, max_size: usize) -> (batches: Vec<MessageBatch>)
        requires
            max_size > 0 || self.messages.len() == 0,
        ensures
            batches.len() == split_count(self@.messages.len() as int, max_size as int),
            self@.messages.len() <= max_size ==> batches@[0]@ == self@,
            self@.messages.len() > max_size ==> forall|i: int|
                0 <= i < batches.len() ==> (#[trigger] batches@[i])@.messages == self@.messages.subrange(
                    i * max_size,
                    if (i + 1) * max_size < self@.messages.len() {
                        (i + 1) * max_size
                    } else {
                        self@.messages.len() as int
                    },
                ),
    {
        if self.messages.len() <= max_size {
            let mut batches: Vec<MessageBatch> = Vec::new();
            let ghost model = self@;
            batches.push(self);
            assert(batches@[0]@ == model);
            return batches;
        }
        let ghost all = self@.messages;
        let total = self.messages.len();
        let mut rest = self.messages;
        let mut batches: Vec<MessageBatch> = Vec::new();
        let mut taken: usize = 0;
        assert(envelopes_model(rest@) == all);
        assert(all.subrange(0, total as int) =~= all);
        assert(batches.len() * max_size == 0) by (nonlinear_arith)
            requires
                batches.len() == 0,
        ;
        while rest.len() > max_size
            invariant
                max_size > 0,
                total == all.len(),
                total > max_size,
                rest@.len() > 0,
                taken + rest@.len() == total,
                taken == batches.len() * max_size,
                envelopes_model(rest@) == all.subrange(taken as int, total as int),
                forall|i: int|
                    0 <= i < batches.len() ==> (#[trigger] batches@[i])@.messages == all.subrange(
                        i * max_size,
                        (i + 1) * max_size,
                    ),
            decreases rest.len(),
        {
            let ghost before = rest@;
            let tail = rest.split_off(max_size);
            proof {
                lemma_envelopes_subrange(before, 0, max_size as int);
                lemma_envelopes_subrange(before, max_size as int, before.len() as int);
            }
            let ghost chunk = envelopes_model(rest@);
            assert(chunk =~= all.subrange(taken as int, taken + max_size));
            assert(envelopes_model(tail@) =~= all.subrange(taken + max_size, total as int));
            let batch = MessageBatch::new(rest);
            let ghost n = batches.len();
            batches.push(batch);
            proof {
                assert((n + 1) * max_size == n * max_size + max_size) by (nonlinear_arith);
                assert(batches@[n as int]@.messages == all.subrange(n * max_size, (n + 1) * max_size));
            }
            rest = tail;
            taken = taken + max_size;
        }
        let ghost n = batches.len();
        let last = MessageBatch::new(rest);
        batches.push(last);
        proof {
            assert(taken == n * max_size);
            assert((n + 1) * max_size == n * max_size + max_size) by (nonlinear_arith);
            assert(total <= (n + 1) * max_size);
            assert(total > n * max_size);
            assert(split_count(total as int, max_size as int) == n + 1) by (nonlinear_arith)
                requires
                    total > max_size,
                    n * max_size < total <= n * max_size + max_size,
                    max_size > 0,
                    split_count(total as int, max_size as int) == (total + max_size - 1) / (
                    max_size as int),
            ;
            assert forall|i: int| 0 <= i < batches.len() implies (#[trigger] batches@[i])@.messages
                == all.subrange(
                i * max_size,
                if (i + 1) * max_size < all.len() {
                    (i + 1) * max_size
                } else {
                    all.len() as int
                },
            ) by {
                if i < n {
                    assert(i + 1 <= n);
                    assert((i + 1) * max_size <= n * max_size) by (nonlinear_arith)
                        requires
                            i + 1 <= n,
                            max_size > 0,
                    ;
                } else {
                    assert(i == n);
                }
            }
        }
        batches
    }
}

/// Law: a batch that records its checksum passes its own integrity check.
pub proof fn lemma_checksum_roundtrip(b: BatchModel)
    ensures
        checksum_valid(BatchModel { checksum: Some(batch_checksum(b)), ..b }),
{
}

/// The concatenation of `parts`, in order.
pub open spec fn concat_all(parts: Seq<Seq<EnvelopeModel>>) -> Seq<EnvelopeModel>
    decreases parts.len(),
{
    if parts.len() == 0 {
        seq![]
    } else {
        concat_all(parts.drop_last()) + parts.last()
    }
}

/// The chunk `split` puts in its `i`-th batch.
pub open spec fn split_chunk(all: Seq<EnvelopeModel>, max_size: int, i: int) -> Seq<EnvelopeModel> {
    all.subrange(
        i * max_size,
        if (i + 1) * max_size < all.len() {
            (i + 1) * max_size
        } else {
            all.len() as int
        },
    )
}

/// Law: splitting loses no envelope and keeps their order: the chunks'
/// envelopes, concatenated, are the original ones.
pub proof fn lemma_split_concat(all: Seq<EnvelopeModel>, max_size: int, parts: Seq<Seq<EnvelopeModel>>)
    requires
        max_size > 0,
        all.len() > max_size,
        parts.len() == split_count(all.len() as int, max_size),
        forall|i: int| 0 <= i < parts.len() ==> #[trigger] parts[i] == split_chunk(all, max_size, i),
    ensures
        concat_all(parts) == all,
{
    let n = parts.len() as int;
    lemma_concat_prefix(all, max_size, parts, n);
    assert(parts.take(n) =~= parts);
    assert((n - 1) * max_size < all.len() <= n * max_size) by (nonlinear_arith)
        requires
            n == (all.len() + max_size - 1) / max_size,
            max_size > 0,
    ;
    assert(all.subrange(0, all.len() as int) =~= all);
}

proof fn lemma_concat_prefix(all: Seq<EnvelopeModel>, max_size: int, parts: Seq<Seq<EnvelopeModel>>, k: int)
    requires
        max_size > 0,
        all.len() > max_size,
        0 <= k <= parts.len(),
        parts.len() == split_count(all.len() as int, max_size),
        forall|i: int| 0 <= i < parts.len() ==> #[trigger] parts[i] == split_chunk(all, max_size, i),
    ensures
        concat_all(parts.take(k)) == all.subrange(
            0,
            if k * max_size < all.len() {
                k * max_size
            } else {
                all.len() as int
            },
        ),
    decreases k,
{
    if k == 0 {
        assert(parts.take(0) =~= Seq::<Seq<EnvelopeModel>>::empty());
        assert(all.subrange(0, 0) =~= Seq::<EnvelopeModel>::empty());
        assert(k * max_size == 0);
    } else {
        lemma_concat_prefix(all, max_size, parts, k - 1);
        let t = parts.take(k);
        assert(t.drop_last() =~= parts.take(k - 1));
        assert(t.last() == parts[k - 1]);
        assert(k * max_size == (k - 1) * max_size + max_size) by (nonlinear_arith);
        assert((k - 1) * max_size < all.len()) by (nonlinear_arith)
            requires
                k - 1 < parts.len(),
                parts.len() == (all.len() + max_size - 1) / max_size,
                max_size > 0,
        ;
        assert(0 <= (k - 1) * max_size) by (nonlinear_arith)
            requires
                k >= 1,
                max_size > 0,
        ;
        assert(concat_all(t) =~= all.subrange(
            0,
            if k * max_size < all.len() {
                k * max_size
            } else {
                all.len() as int
            },
        ));
    }
}

/// Models of a slice of a vector are the slice of its models.
proof fn lemma_envelopes_subrange(v: Seq<MessageEnvelope>, a: int, b: int)
    requires
        0 <= a <= b <= v.len(),
    ensures
        envelopes_model(v.subrange(a, b)) == envelopes_model(v).subrange(a, b),
{
    assert(envelopes_model(v.subrange(a, b)) =~= envelopes_model(v).subrange(a, b));
}

/// Law: a header under a new key grows a message's size estimate by the
/// byte lengths of the key and the value.
pub proof fn lemma_header_size(m: MessageModel, key: Seq<char>, value: Seq<char>)
    requires
        crate::collections::key_position(m.headers, key) == -1,
    ensures
        message_size(MessageModel { headers: m.headers.push((key, value)), ..m }) == message_size(m) + byte_len(key)
            + byte_len(value),
{
    assert(m.headers.push((key, value)).drop_last() =~= m.headers);
}

/// `a` and `b` hold the same entries, each key once, in whatever order.
pub open spec fn same_entries(a: Entries, b: Entries) -> bool {
    &&& keys_unique(a)
    &&& keys_unique(b)
    &&& forall|y: (Seq<char>, Seq<char>)| a.contains(y) <==> b.contains(y)
}

/// `t` and `u` are the same message type but for the order in which their
/// maps store their entries.
pub open spec fn type_reordered(t: MessageTypeModel, u: MessageTypeModel) -> bool {
    match (t, u) {
        (MessageTypeModel::Structured(a), MessageTypeModel::Structured(b)) => same_entries(a, b),
        (
            MessageTypeModel::Command { action: a1, params: p1 },
            MessageTypeModel::Command { action: a2, params: p2 },
        ) => a1 == a2 && same_entries(p1, p2),
        (
            MessageTypeModel::Alert { level: l1, message: m1, details: d1 },
            MessageTypeModel::Alert { level: l2, message: m2, details: d2 },
        ) => l1 == l2 && m1 == m2 && match (d1, d2) {
            (None, None) => true,
            (Some(x), Some(y)) => same_entries(x, y),
            _ => false,
        },
        _ => t == u,
    }
}

/// `a` and `b` are the same message but for the order in which their
/// headers and map payloads store their entries (as after a trip through
/// a format that does not keep that order).
pub open spec fn entries_reordered(a: MessageModel, b: MessageModel) -> bool {
    &&& type_reordered(a.message_type, b.message_type)
    &&& same_entries(a.headers, b.headers)
    &&& a == (MessageModel { message_type: a.message_type, headers: a.headers, ..b })
}

proof fn lemma_map_frame_ignores_order(a: Entries, b: Entries)
    requires
        same_entries(a, b),
    ensures
        map_frame(a) == map_frame(b),
{
    lemma_sort_ignores_order(a, b);
}

/// Law: what a signature covers does not depend on the order in which a
/// message's maps store their entries. A message whose headers and map
/// payload hold the same entries in another order has the same signable
/// content, so a signature verifies over one exactly when it verifies over
/// the other.
pub proof fn lemma_signing_ignores_entry_order(a: MessageModel, b: MessageModel)
    requires
        entries_reordered(a, b),
    ensures
        signable_bytes(a) == signable_bytes(b),
        forall|s: SignatureModel| #[trigger] signature_accepts(s, signable_bytes(a)) == signature_accepts(s, signable_bytes(b)),
{
    lemma_map_frame_ignores_order(a.headers, b.headers);
    match (a.message_type, b.message_type) {
        (MessageTypeModel::Structured(x), MessageTypeModel::Structured(y)) => {
            lemma_map_frame_ignores_order(x, y);
        },
        (MessageTypeModel::Command { params: x, .. }, MessageTypeModel::Command { params: y, .. }) => {
            lemma_map_frame_ignores_order(x, y);
        },
        (
            MessageTypeModel::Alert { details: Some(x), .. },
            MessageTypeModel::Alert { details: Some(y), .. },
        ) => {
            lemma_map_frame_ignores_order(x, y);
        },
        _ => {},
    }
    assert(type_frame(a.message_type) == type_frame(b.message_type));
}

/// What a batch checksum is meant to cover of each envelope: its id, its
/// source node and its timestamp.
pub open spec fn envelope_keys(v: Seq<EnvelopeModel>) -> Seq<(u64, Seq<char>, u64)> {
    v.map_values(|e: EnvelopeModel| (e.message_id, e.source_node, e.timestamp))
}

proof fn lemma_u64_le_injective(x: u64, y: u64)
    requires
        u64_le(x) == u64_le(y),
    ensures
        x == y,
{
    assert(u64_le(x)[0] == u64_le(y)[0]);
    assert(u64_le(x)[1] == u64_le(y)[1]);
    assert(u64_le(x)[2] == u64_le(y)[2]);
    assert(u64_le(x)[3] == u64_le(y)[3]);
    assert(u64_le(x)[4] == u64_le(y)[4]);
    assert(u64_le(x)[5] == u64_le(y)[5]);
    assert(u64_le(x)[6] == u64_le(y)[6]);
    assert(u64_le(x)[7] == u64_le(y)[7]);
    assert(x == y) by (bit_vector)
        requires
            x as u8 == y as u8,
            (x >> 8u64) as u8 == (y >> 8u64) as u8,
            (x >> 16u64) as u8 == (y >> 16u64) as u8,
            (x >> 24u64) as u8 == (y >> 24u64) as u8,
            (x >> 32u64) as u8 == (y >> 32u64) as u8,
            (x >> 40u64) as u8 == (y >> 40u64) as u8,
            (x >> 48u64) as u8 == (y >> 48u64) as u8,
            (x >> 56u64) as u8 == (y >> 56u64) as u8,
    ;
}

proof fn lemma_envelopes_hash_writes(v: Seq<EnvelopeModel>)
    ensures
        envelopes_hash_writes(v).len() == 4 * v.len(),
        forall|k: int|
            0 <= k < v.len() ==> {
                &&& envelopes_hash_writes(v)[4 * k] == u64_le((#[trigger] v[k]).message_id)
                &&& envelopes_hash_writes(v)[4 * k + 1] == encode_utf8(v[k].source_node)
                &&& envelopes_hash_writes(v)[4 * k + 3] == u64_le(v[k].timestamp)
            },
    decreases v.len(),
{
    if v.len() > 0 {
        let rest = v.drop_last();
        lemma_envelopes_hash_writes(rest);
        let w = envelopes_hash_writes(v);
        let wr = envelopes_hash_writes(rest);
        assert forall|k: int| 0 <= k < v.len() implies {
            &&& w[4 * k] == u64_le((#[trigger] v[k]).message_id)
            &&& w[4 * k + 1] == encode_utf8(v[k].source_node)
            &&& w[4 * k + 3] == u64_le(v[k].timestamp)
        } by {
            if k < rest.len() {
                assert(rest[k] == v[k]);
                assert(w[4 * k] == wr[4 * k]);
                assert(w[4 * k + 1] == wr[4 * k + 1]);
                assert(w[4 * k + 3] == wr[4 * k + 3]);
            }
        }
    }
}

/// Law: a batch checksum covers every envelope's id, source node and
/// timestamp. Two batches with the same id and creation time whose
/// envelopes differ in any of these, or in number, are checksummed over
/// different hasher input.
pub proof fn lemma_checksum_covers_envelopes(a: BatchModel, b: BatchModel)
    requires
        a.batch_id == b.batch_id,
        a.created_at == b.created_at,
        envelope_keys(a.messages) != envelope_keys(b.messages),
    ensures
        exists|wa: Seq<Seq<u8>>, wb: Seq<Seq<u8>>|
            wa != wb && batch_checksum(a) == DefaultHasher::spec_finish(wa) && batch_checksum(b)
                == DefaultHasher::spec_finish(wb),
{
    let pre = str_hash_writes(a.batch_id) + seq![u64_le(a.created_at)];
    let ea = envelopes_hash_writes(a.messages);
    let eb = envelopes_hash_writes(b.messages);
    let wa = pre + ea;
    let wb = pre + eb;
    lemma_envelopes_hash_writes(a.messages);
    lemma_envelopes_hash_writes(b.messages);
    let ka = envelope_keys(a.messages);
    let kb = envelope_keys(b.messages);
    assert(ea != eb) by {
        if a.messages.len() == b.messages.len() {
            if forall|k: int| 0 <= k < ka.len() ==> ka[k] == kb[k] {
                assert(ka =~= kb);
            }
            let k = choose|k: int| 0 <= k < ka.len() && ka[k] != kb[k];
            let x = a.messages[k];
            let y = b.messages[k];
            assert(ka[k] == (x.message_id, x.source_node, x.timestamp));
            assert(kb[k] == (y.message_id, y.source_node, y.timestamp));
            if ea == eb {
                assert(ea[4 * k] == eb[4 * k]);
                assert(ea[4 * k + 1] == eb[4 * k + 1]);
                assert(ea[4 * k + 3] == eb[4 * k + 3]);
                lemma_u64_le_injective(x.message_id, y.message_id);
                lemma_u64_le_injective(x.timestamp, y.timestamp);
                vstd::utf8::encode_utf8_decode_utf8(x.source_node);
                vstd::utf8::encode_utf8_decode_utf8(y.source_node);
            }
        }
    }
    assert(wa != wb) by {
        if wa == wb {
            assert(ea =~= wa.skip(pre.len() as int));
            assert(eb =~= wb.skip(pre.len() as int));
        }
    }
    assert(batch_checksum(a) == DefaultHasher::spec_finish(wa));
    assert(batch_checksum(b) == DefaultHasher::spec_finish(wb));
}

} // verus!
