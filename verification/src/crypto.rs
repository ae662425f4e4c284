//! Ed25519 keys and signatures, held as plain byte arrays.

use ed25519_dalek::Signer;
use vstd::prelude::*;

verus! {

/// An Ed25519 public key in its compressed form.
pub type PublicKey = [u8; 32];

/// An Ed25519 secret seed.
pub type SecretKey = [u8; 32];

/// An Ed25519 signature.
pub type Signature = [u8; 64];

/// The answer of `ed25519_dalek::VerifyingKey::verify_strict` for a message,
/// a signature and the bytes of a public key; `false` where the key bytes are
/// no point of the curve.
pub uninterp spec fn signature_valid(message: Seq<u8>, signature: Seq<u8>, key: Seq<u8>) -> bool;

/// The signature that `ed25519_dalek::SigningKey::sign` computes for a secret
/// seed and a message. Ed25519 signing is deterministic.
pub uninterp spec fn signature_of(secret: Seq<u8>, message: Seq<u8>) -> Seq<u8>;

/// The public key that `ed25519_dalek::SigningKey::verifying_key` derives
/// from a secret seed.
pub uninterp spec fn public_key_of(secret: Seq<u8>) -> Seq<u8>;

/// Calls `ed25519_dalek::VerifyingKey::from_bytes` and then `verify_strict`.
/// Nothing is proved of it: the result is the named verdict of the outside
/// crate for these three byte strings.
#[verifier::external_body]
pub(crate) fn check_signature(message: &Vec<u8>, signature: &Signature, key: &PublicKey) -> (ok: bool)
    ensures
        ok == signature_valid(message@, signature@, key@),
{
    match ed25519_dalek::VerifyingKey::from_bytes(key) {
        Ok(point) => point.verify_strict(message, &ed25519_dalek::Signature::from_bytes(signature)).is_ok(),
        Err(_) => false,
    }
}

/// Calls `ed25519_dalek::SigningKey::sign` with the key made from `secret`.
/// Nothing is proved of it: the result is the named signature.
#[verifier::external_body]
pub(crate) fn make_signature(secret: &SecretKey, message: &Vec<u8>) -> (signature: Signature)
    ensures
        signature@ == signature_of(secret@, message@),
{
    ed25519_dalek::SigningKey::from_bytes(secret).sign(message).to_bytes()
}

/// Calls `ed25519_dalek::SigningKey::verifying_key` on the key made from
/// `secret`. Nothing is proved of it: the result is the named public key.
#[verifier::external_body]
pub(crate) fn derive_public_key(secret: &SecretKey) -> (public: PublicKey)
    ensures
        public@ == public_key_of(secret@),
{
    ed25519_dalek::SigningKey::from_bytes(secret).verifying_key().to_bytes()
}

/// A secret seed together with the public key that belongs to it.
#[derive(Clone, Copy, Debug, PartialEq, Eq)]
pub struct KeyPair {
    pub public: PublicKey,
    pub secret: SecretKey,
}

impl KeyPair {
    /// The key pair of a secret seed.
    pub fn from_secret(secret: SecretKey) -> (pair: KeyPair)
        ensures
            pair.secret == secret,
            pair.public@ == public_key_of(secret@),
    {
        let public = derive_public_key(&secret);
        KeyPair { public, secret }
    }
}

} // verus!
