//! An append-only ledger secured by a proof-of-work hash chain and
//! per-transaction Ed25519 signatures.
//!
//! A [`chain::Blockchain`] owns a sequence of [`block::Block`]s, each bound
//! to its predecessor by a SHA-256 digest rendered as lowercase hex digits.
//! A block carries either an opaque byte payload or a list of signed
//! [`transaction::Transaction`]s; a transaction is authenticated by an
//! Ed25519 signature over the digest of its canonical byte encoding.

pub mod block;
pub mod chain;
pub mod clock;
pub mod encoding;
pub mod errors;
pub mod hashing;
pub mod signing;
pub mod transaction;
