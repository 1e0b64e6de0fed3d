//! Signed transfer records.
//!
//! A transaction is signed over the SHA-256 digest of its canonical byte
//! encoding, which covers exactly the sender, receiver and amount — never
//! the signature fields themselves — so the signed document is stable and
//! free of self-reference.

use vstd::prelude::*;

use crate::encoding::{bytes_equal, copy_bytes, push_len_prefixed, push_u64_le, spec_len_prefixed};
use crate::encoding::lemma_u64_le_bytes_injective;
use crate::errors::ChainError;
use crate::hashing::{sha256_digest, sha256_of};
use crate::signing::{ed25519_verifies, sign_message, signature_of, verify_signature, KeyPair};

verus! {

/// A transfer of `amount` from `sender` to `receiver`, unsigned until
/// `sign` runs and immutable afterwards. The identities are the 32-byte
/// Ed25519 public keys of the parties (any byte string is accepted as a
/// receiver identity).
pub struct Transaction {
    pub sender: Vec<u8>,
    pub receiver: Vec<u8>,
    pub amount: u64,
    /// `None` until signed; then the 64 Ed25519 signature bytes.
    pub signature: Option<Vec<u8>>,
    /// `None` until signed; then the signer's 32 public-key bytes.
    pub signer_public_key: Option<Vec<u8>>,
}

impl Transaction {
    /// The canonical byte encoding of the semantic fields: sender and
    /// receiver, each length-prefixed, then the amount in eight
    /// little-endian bytes. The signature fields are excluded.
    pub open spec fn spec_canonical_bytes(self) -> Seq<u8> {
        spec_len_prefixed(self.sender@) + spec_len_prefixed(self.receiver@)
            + vstd::bytes::spec_u64_to_le_bytes(self.amount)
    }

    /// The document that is signed: the SHA-256 digest of the canonical
    /// bytes.
    pub open spec fn spec_signing_digest(self) -> Seq<u8> {
        sha256_of(self.spec_canonical_bytes())
    }

    /// A transaction verifies exactly when it carries a signature and a
    /// signer key, the signer key is the sender's claimed identity, and
    /// the signature is valid over the signing digest under that key.
    pub open spec fn spec_verified(self) -> bool {
        &&& self.signature matches Some(sig)
        &&& self.signer_public_key matches Some(pk)
        &&& pk@ == self.sender@
        &&& ed25519_verifies(pk@, self.spec_signing_digest(), sig@)
    }

    /// Construct an unsigned transaction.
    pub fn new(sender: Vec<u8>, receiver: Vec<u8>, amount: u64) -> (t: Transaction)
        ensures
            t.sender == sender,
            t.receiver == receiver,
            t.amount == amount,
            t.signature is None,
            t.signer_public_key is None,
    {
        Transaction { sender, receiver, amount, signature: None, signer_public_key: None }
    }

    /// Produce the canonical byte encoding of the semantic fields.
    pub fn canonical_bytes(&self) -> (r: Vec<u8>)
        ensures
            r@ == self.spec_canonical_bytes(),
    {
        let mut out: Vec<u8> = Vec::new();
        push_len_prefixed(&mut out, &self.sender);
        push_len_prefixed(&mut out, &self.receiver);
        push_u64_le(&mut out, self.amount);
        proof {
            assert(out@ =~= self.spec_canonical_bytes());
        }
        out
    }

    /// Produce the document that signing and verification run over.
    pub fn bytes_for_signing(&self) -> (r: Vec<u8>)
        ensures
            r@ == self.spec_signing_digest(),
            r@.len() == 32,
    {
        let canonical = self.canonical_bytes();
        sha256_digest(&canonical)
    }

    /// Sign the transaction, recording the signature and the signer's
    /// public key. Re-signing is disallowed: an already-signed transaction
    /// is left unchanged and `InvalidKeyState` is returned. A signed
    /// transaction verifies whenever the key pair is well formed and the
    /// sender is the signer's own identity.
    pub fn sign(&mut self, keypair: &KeyPair) -> (r: Result<(), ChainError>)
        requires
            keypair.secret@.len() == 32,
        ensures
            match r {
                Ok(()) => {
                    &&& old(self).signature is None
                    &&& old(self).signer_public_key is None
                    &&& final(self).sender == old(self).sender
                    &&& final(self).receiver == old(self).receiver
                    &&& final(self).amount == old(self).amount
                    &&& final(self).signature matches Some(sig) && sig@ == signature_of(
                        keypair.secret@,
                        old(self).spec_signing_digest(),
                    )
                    &&& final(self).signer_public_key matches Some(pk) && pk@ == keypair.public@
                    &&& (keypair.wf() && old(self).sender@ == keypair.public@
                        ==> final(self).spec_verified())
                },
                Err(e) => {
                    &&& e == ChainError::InvalidKeyState
                    &&& (old(self).signature is Some || old(self).signer_public_key is Some)
                    &&& *final(self) == *old(self)
                },
            },
    {
        if self.signature.is_some() || self.signer_public_key.is_some() {
            return Err(ChainError::InvalidKeyState);
        }
        let message = self.bytes_for_signing();
        let signature = sign_message(&keypair.secret, &message);
        let public = copy_bytes(&keypair.public);
        self.signature = Some(signature);
        self.signer_public_key = Some(public);
        Ok(())
    }

    /// Check the transaction's signature, failing closed: false whenever
    /// the signature or signer key is absent, the signer key is not the
    /// sender's identity, or the cryptographic check fails.
    pub fn verify(&self) -> (r: bool)
        ensures
            r == self.spec_verified(),
    {
        match (&self.signature, &self.signer_public_key) {
            (Some(sig), Some(pk)) => {
                if !bytes_equal(pk, &self.sender) {
                    false
                } else {
                    let digest = self.bytes_for_signing();
                    verify_signature(pk, &digest, sig)
                }
            },
            _ => false,
        }
    }
}

/// Verification fails closed: a transaction missing its signature or its
/// signer key never verifies.
pub proof fn lemma_unsigned_never_verifies(t: Transaction)
    requires
        t.signature is None || t.signer_public_key is None,
    ensures
        !t.spec_verified(),
{
}

/// Altering the amount changes the canonical bytes that were signed: a
/// tampered transaction's document differs from the one that was signed.
pub proof fn lemma_amount_tamper_changes_canonical_bytes(a: Transaction, b: Transaction)
    requires
        a.sender == b.sender,
        a.receiver == b.receiver,
        a.amount != b.amount,
    ensures
        a.spec_canonical_bytes() != b.spec_canonical_bytes(),
        a.spec_canonical_bytes().len() == b.spec_canonical_bytes().len(),
{
    vstd::bytes::lemma_auto_spec_u64_to_from_le_bytes();
    lemma_u64_le_bytes_injective(a.amount, b.amount);
    let la = vstd::bytes::spec_u64_to_le_bytes(a.amount);
    let lb = vstd::bytes::spec_u64_to_le_bytes(b.amount);
    let p = spec_len_prefixed(a.sender@) + spec_len_prefixed(a.receiver@);
    if a.spec_canonical_bytes() == b.spec_canonical_bytes() {
        assert forall|k: int| 0 <= k < 8 implies la[k] == lb[k] by {
            assert((p + la)[p.len() + k] == la[k]);
            assert((p + lb)[p.len() + k] == lb[k]);
        }
        assert(la =~= lb);
        assert(false);
    }
}

} // verus!
