//! Ed25519 signing and verification over plain bytes, through
//! `ed25519-dalek`. What a signature or a public key is, is named and not
//! spelled out; the facts stated of the names are the ones the scheme
//! guarantees: a key derived from a secret is a valid curve point, and a
//! signature made with a secret verifies under the key derived from it.

use ed25519_dalek::{Signature, SignatureError, Signer, SigningKey, Verifier, VerifyingKey};
use vstd::prelude::*;

verus! {

/// The error `ed25519-dalek` reports (opaque).
#[verifier::external_type_specification]
#[verifier::external_body]
pub struct ExSignatureError(SignatureError);

/// The 32-byte public key `ed25519-dalek` derives from a 32-byte secret.
pub uninterp spec fn ed25519_public_key(secret: Seq<u8>) -> Seq<u8>;

/// The 64-byte signature `ed25519-dalek` computes for `message` with a
/// 32-byte secret (Ed25519 signing is deterministic).
pub uninterp spec fn ed25519_signature(secret: Seq<u8>, message: Seq<u8>) -> Seq<u8>;

/// Whether 32 bytes decompress to a curve point (`VerifyingKey::from_bytes`
/// succeeds).
pub uninterp spec fn ed25519_point_valid(public_key: Seq<u8>) -> bool;

/// Whether `ed25519-dalek`'s `Verifier::verify` accepts `signature` on
/// `message` under `public_key`.
pub uninterp spec fn ed25519_verifies(public_key: Seq<u8>, message: Seq<u8>, signature: Seq<u8>) -> bool;

/// Signs `message` with the key built from `secret` (`SigningKey::from_bytes`
/// then `Signer::sign`). The result is the named signature, and it verifies
/// under the public key derived from the same secret.
#[verifier::external_body]
pub(crate) fn ed25519_sign(secret: &[u8; 32], message: &[u8]) -> (signature: [u8; 64])
    ensures
        signature@ == ed25519_signature(secret@, message@),
        ed25519_verifies(ed25519_public_key(secret@), message@, signature@),
{
    SigningKey::from_bytes(secret).sign(message).to_bytes()
}

/// The public key of the key built from `secret`
/// (`SigningKey::from_bytes(..).verifying_key().to_bytes()`); it is always a
/// valid point.
#[verifier::external_body]
pub(crate) fn ed25519_derive_public_key(secret: &[u8; 32]) -> (public_key: [u8; 32])
    ensures
        public_key@ == ed25519_public_key(secret@),
        ed25519_point_valid(public_key@),
{
    SigningKey::from_bytes(secret).verifying_key().to_bytes()
}

/// `VerifyingKey::from_bytes`: succeeds exactly when the bytes are a valid
/// point; the key itself is dropped.
#[verifier::external_body]
pub(crate) fn ed25519_check_public_key(public_key: &[u8; 32]) -> (r: Result<(), SignatureError>)
    ensures
        r is Ok <==> ed25519_point_valid(public_key@),
{
    VerifyingKey::from_bytes(public_key).map(|_| ())
}

/// `VerifyingKey::from_bytes` then `Verifier::verify` with
/// `Signature::from_bytes`: succeeds exactly when the key is a valid point
/// and the signature verifies.
#[verifier::external_body]
pub(crate) fn ed25519_verify(public_key: &[u8; 32], message: &[u8], signature: &[u8; 64]) -> (r: Result<(), SignatureError>)
    ensures
        r is Ok <==> (ed25519_point_valid(public_key@) && ed25519_verifies(public_key@, message@, signature@)),
{
    VerifyingKey::from_bytes(public_key)?.verify(message, &Signature::from_bytes(signature))
}

/// The `Display` text of an `ed25519-dalek` error. Nothing is stated of it.
#[verifier::external_body]
pub(crate) fn signature_error_text(error: &SignatureError) -> (text: String) {
    format!("{}", error)
}

} // verus!
