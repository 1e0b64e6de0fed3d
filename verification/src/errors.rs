//! The ledger's error taxonomy.

use vstd::prelude::*;

verus! {

/// What can go wrong when signing a transaction or growing the chain.
#[derive(Clone, Copy, Debug, PartialEq, Eq, Structural)]
pub enum ChainError {
    /// A transaction's signature failed verification or was absent; no
    /// mutation has occurred.
    UnverifiedTransaction,
    /// Signing was requested for an already-signed transaction; re-signing
    /// is disallowed so that a transaction is immutable once authenticated.
    InvalidKeyState,
    /// The chain holds no blocks at all: an internal-consistency fault that
    /// normal construction never produces.
    EmptyChain,
    /// The proof-of-work search used up its attempt budget without finding
    /// a satisfying nonce; the chain and the block are unchanged.
    MiningCancelled,
}

} // verus!
