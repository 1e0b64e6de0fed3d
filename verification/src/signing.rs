//! Ed25519 message authentication, behind trusted boundaries.
//!
//! Keys and signatures live in the library as plain byte vectors; the
//! ed25519-dalek crate does the curve arithmetic. Signing is deterministic
//! (RFC 8032), so the signature and the derived public key are named as
//! functions of the bytes alone.

use vstd::prelude::*;

verus! {

/// The Ed25519 public key derived from 32 secret-key bytes. Computed by
/// ed25519-dalek from the secret bytes alone; named without a definition.
pub uninterp spec fn public_key_of(secret: Seq<u8>) -> Seq<u8>;

/// The Ed25519 signature over `message` by the holder of `secret`.
/// Ed25519 signing is deterministic, so this is a function of the two
/// byte sequences alone; named without a definition.
pub uninterp spec fn signature_of(secret: Seq<u8>, message: Seq<u8>) -> Seq<u8>;

/// Whether `signature` is a valid Ed25519 signature over `message` under
/// `public` — false whenever `public` or `signature` is not even a
/// well-formed key or signature encoding. Deterministic in its arguments;
/// named without a definition.
pub uninterp spec fn ed25519_verifies(public: Seq<u8>, message: Seq<u8>, signature: Seq<u8>) -> bool;

/// An Ed25519 key pair held as plain bytes: 32 secret bytes and the 32
/// public bytes derived from them.
pub struct KeyPair {
    pub secret: Vec<u8>,
    pub public: Vec<u8>,
}

impl KeyPair {
    /// A key pair is well formed when the public half is the one derived
    /// from the secret half.
    pub open spec fn wf(self) -> bool {
        &&& self.secret@.len() == 32
        &&& self.public@ == public_key_of(self.secret@)
    }
}

/// Relies on ed25519_dalek::PublicKey::from(&SecretKey): the public key is
/// derived from the 32 secret-key bytes alone and is 32 bytes long.
#[verifier::external_body]
fn derive_public_key(secret: &Vec<u8>) -> (r: Vec<u8>)
    requires
        secret@.len() == 32,
    ensures
        r@ == public_key_of(secret@),
        r@.len() == 32,
{
    let sk = ed25519_dalek::SecretKey::from_bytes(secret.as_slice()).unwrap();
    ed25519_dalek::PublicKey::from(&sk).to_bytes().to_vec()
}

/// Build the key pair whose secret half is `secret`. The caller supplies
/// the 32 secret bytes (for example, fresh random bytes); the public half
/// is derived from them.
pub fn key_pair_from_secret(secret: Vec<u8>) -> (kp: KeyPair)
    requires
        secret@.len() == 32,
    ensures
        kp.wf(),
        kp.secret == secret,
{
    let public = derive_public_key(&secret);
    KeyPair { secret, public }
}

/// Relies on ed25519_dalek::ExpandedSecretKey::sign: Ed25519 signatures
/// are deterministic in the secret key and message, are 64 bytes long, and
/// verify under the public key derived from the same secret key.
#[verifier::external_body]
pub(crate) fn sign_message(secret: &Vec<u8>, message: &Vec<u8>) -> (r: Vec<u8>)
    requires
        secret@.len() == 32,
    ensures
        r@ == signature_of(secret@, message@),
        r@.len() == 64,
        ed25519_verifies(public_key_of(secret@), message@, r@),
{
    let sk = ed25519_dalek::SecretKey::from_bytes(secret.as_slice()).unwrap();
    let pk = ed25519_dalek::PublicKey::from(&sk);
    let expanded = ed25519_dalek::ExpandedSecretKey::from(&sk);
    expanded.sign(message.as_slice(), &pk).to_bytes().to_vec()
}

/// Relies on ed25519_dalek::PublicKey::verify (and the byte parsers for
/// keys and signatures): deterministic in the key, message and signature
/// bytes, and false when the key or signature bytes are malformed.
#[verifier::external_body]
pub(crate) fn verify_signature(public: &Vec<u8>, message: &Vec<u8>, signature: &Vec<u8>) -> (r:
    bool)
    ensures
        r == ed25519_verifies(public@, message@, signature@),
{
    let pk = match ed25519_dalek::PublicKey::from_bytes(public.as_slice()) {
        Ok(pk) => pk,
        Err(_) => return false,
    };
    let sig = match ed25519_dalek::Signature::from_bytes(signature.as_slice()) {
        Ok(sig) => sig,
        Err(_) => return false,
    };
    ed25519_dalek::Verifier::verify(&pk, message.as_slice(), &sig).is_ok()
}

} // verus!
