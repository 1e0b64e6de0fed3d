//! The chain: an ordered, append-only sequence of blocks, genesis first.
//!
//! Every well-formed chain keeps the invariant that each block stores the
//! hash of its own canonical fields, each non-genesis block's hash meets
//! the chain's difficulty, and each block's `previous_hash` equals its
//! predecessor's stored hash. The genesis block's hash is computed but
//! exempt from the proof-of-work predicate, as a deliberate design choice.

use vstd::prelude::*;

use crate::block::{spec_payload_verified, Block, Payload};
use crate::encoding::{bytes_equal, copy_bytes};
use crate::errors::ChainError;
use crate::hashing::meets_difficulty;
use vstd::string::StringSliceAdditionalSpecFns;

verus! {

/// The fixed sentinel payload of the genesis block: the bytes of the text
/// `"Genesis Block"`.
pub open spec fn spec_genesis_payload() -> Seq<u8> {
    "Genesis Block".spec_bytes()
}

/// An append-only ledger of blocks with a fixed proof-of-work difficulty.
pub struct Blockchain {
    /// The blocks, genesis at position zero.
    pub chain: Vec<Block>,
    /// How many leading `'0'` hex digits a mined block's hash must carry.
    pub difficulty: usize,
}

impl Blockchain {
    /// The chain's invariant: never empty, indices in sequence, every
    /// block sealed with its own recomputed hash, every non-genesis hash
    /// meeting the difficulty, and every block linked to its predecessor.
    pub open spec fn wf(self) -> bool {
        &&& self.chain@.len() >= 1
        &&& forall|i: int| 0 <= i < self.chain@.len() ==> (#[trigger] self.chain@[i]).index == i
        &&& forall|i: int|
            0 <= i < self.chain@.len() ==> (#[trigger] self.chain@[i]).spec_sealed()
        &&& forall|i: int|
            1 <= i < self.chain@.len() ==> meets_difficulty(
                (#[trigger] self.chain@[i]).hash@,
                self.difficulty as nat,
            )
        &&& forall|i: int|
            1 <= i < self.chain@.len() ==> (#[trigger] self.chain@[i]).previous_hash@
                == self.chain@[i - 1].hash@
    }

    /// What validation checks: every non-genesis block stores its own
    /// recomputed hash and references its predecessor's stored hash.
    pub open spec fn spec_valid(self) -> bool {
        forall|i: int|
            1 <= i < self.chain@.len() ==> (#[trigger] self.chain@[i]).hash@
                == self.chain@[i].spec_hash() && self.chain@[i].previous_hash@ == self.chain@[i
                - 1].hash@
    }

    /// Create a chain holding only the genesis block: index zero, the
    /// sentinel previous hash `"0"`, the fixed sentinel payload, and its
    /// computed hash — exempt from the proof-of-work predicate.
    pub fn new(difficulty: usize) -> (c: Blockchain)
        ensures
            c.wf(),
            c.difficulty == difficulty,
            c.chain@.len() == 1,
            c.chain@[0].index == 0,
            c.chain@[0].spec_sealed(),
            c.chain@[0].previous_hash@ == seq![48u8],
            c.chain@[0].payload matches Payload::Data(d) && d@ == spec_genesis_payload(),
            c.chain@[0].nonce == 0,
            c.chain@[0].effort == 0,
    {
        let mut c = Blockchain { chain: Vec::new(), difficulty };
        c.create_genesis_block();
        c
    }

    /// Append the genesis block to an empty chain: index zero, the
    /// sentinel previous hash `"0"`, a fixed sentinel payload, and its
    /// computed hash — exempt from the proof-of-work predicate.
    pub fn create_genesis_block(&mut self)
        requires
            old(self).chain@.len() == 0,
        ensures
            final(self).difficulty == old(self).difficulty,
            final(self).chain@.len() == 1,
            final(self).chain@[0].index == 0,
            final(self).chain@[0].spec_sealed(),
            final(self).chain@[0].previous_hash@ == seq![48u8],
            final(self).chain@[0].payload matches Payload::Data(d) && d@
                == spec_genesis_payload(),
            final(self).chain@[0].nonce == 0,
            final(self).chain@[0].effort == 0,
    {
        let mut sentinel: Vec<u8> = Vec::new();
        sentinel.push(48u8);
        proof {
            assert(sentinel@ =~= seq![48u8]);
        }
        let data = vstd::slice::slice_to_vec("Genesis Block".as_bytes());
        let mut genesis = Block::new(0, Payload::Data(data), sentinel);
        let sealed = genesis.calculate_hash();
        genesis.hash = sealed;
        self.chain.push(genesis);
    }

    /// The most recent block, or `EmptyChain` if the chain holds none —
    /// an internal-consistency fault that normal construction never
    /// produces.
    pub fn latest_block(&self) -> (r: Result<&Block, ChainError>)
        ensures
            match r {
                Ok(b) => self.chain@.len() > 0 && *b == self.chain@[self.chain@.len() - 1],
                Err(e) => e == ChainError::EmptyChain && self.chain@.len() == 0,
            },
    {
        if self.chain.len() == 0 {
            Err(ChainError::EmptyChain)
        } else {
            Ok(&self.chain[self.chain.len() - 1])
        }
    }

    /// Append a payload in a freshly mined block. The whole operation is
    /// atomic: on any error the chain is unchanged. `UnverifiedTransaction`
    /// is returned, before any mining effort is spent, exactly when some
    /// contained transaction fails verification; `MiningCancelled` when
    /// the nonce search used up `budget` attempts.
    pub fn add_block(&mut self, payload: Payload, budget: u64) -> (r: Result<(), ChainError>)
        requires
            old(self).wf(),
        ensures
            final(self).wf(),
            final(self).difficulty == old(self).difficulty,
            match r {
                Ok(()) => {
                    &&& spec_payload_verified(payload)
                    &&& final(self).chain@.len() == old(self).chain@.len() + 1
                    &&& final(self).chain@.subrange(0, old(self).chain@.len() as int) == old(
                        self,
                    ).chain@
                    &&& final(self).chain@.last().payload == payload
                    &&& final(self).chain@.last().spec_sealed()
                    &&& meets_difficulty(
                        final(self).chain@.last().hash@,
                        old(self).difficulty as nat,
                    )
                    &&& final(self).chain@.last().previous_hash@ == old(
                        self,
                    ).chain@.last().hash@
                    &&& final(self).chain@.last().index == old(self).chain@.len()
                },
                Err(e) => {
                    &&& *final(self) == *old(self)
                    &&& (e == ChainError::UnverifiedTransaction || e
                        == ChainError::MiningCancelled)
                    &&& (e == ChainError::UnverifiedTransaction <==> !spec_payload_verified(
                        payload,
                    ))
                },
            },
    {
        let previous_hash = copy_bytes(&self.chain[self.chain.len() - 1].hash);
        let index = self.chain.len() as u64;
        let mut block = Block::new(index, payload, previous_hash);
        let mined = match block.mine_block(self.difficulty, budget) {
            Err(e) => {
                return Err(e);
            },
            Ok(m) => m,
        };
        if !mined {
            return Err(ChainError::MiningCancelled);
        }
        self.chain.push(block);
        proof {
            let olds = old(self).chain@;
            let news = self.chain@;
            assert(news.subrange(0, olds.len() as int) =~= olds);
            assert forall|i: int| 0 <= i < news.len() implies (#[trigger] news[i]).index == i
                && news[i].spec_sealed() by {
                if i < olds.len() {
                    assert(news[i] == olds[i]);
                }
            }
            assert forall|i: int| 1 <= i < news.len() implies meets_difficulty(
                (#[trigger] news[i]).hash@,
                self.difficulty as nat,
            ) && news[i].previous_hash@ == news[i - 1].hash@ by {
                if i < olds.len() {
                    assert(news[i] == olds[i]);
                    if 1 <= i {
                        assert(news[i - 1] == olds[i - 1]);
                    }
                } else {
                    assert(news[i - 1] == olds[i - 1]);
                }
            }
        }
        Ok(())
    }

    /// Recompute every non-genesis block's hash and check its link to the
    /// predecessor, detecting any tampering with a stored block.
    pub fn is_valid(&self) -> (r: bool)
        ensures
            r == self.spec_valid(),
    {
        let mut i: usize = 1;
        while i < self.chain.len()
            invariant
                1 <= i,
                forall|j: int|
                    1 <= j < i ==> (#[trigger] self.chain@[j]).hash@ == self.chain@[j].spec_hash()
                        && self.chain@[j].previous_hash@ == self.chain@[j - 1].hash@,
            decreases self.chain@.len() - i,
        {
            let recomputed = self.chain[i].calculate_hash();
            if !bytes_equal(&self.chain[i].hash, &recomputed) {
                proof {
                    if self.spec_valid() {
                        assert(self.chain@[i as int].hash@ == self.chain@[
                            i as int].spec_hash());
                    }
                }
                return false;
            }
            if !bytes_equal(&self.chain[i].previous_hash, &self.chain[i - 1].hash) {
                proof {
                    if self.spec_valid() {
                        assert(self.chain@[i as int].hash@ == self.chain@[
                            i as int].spec_hash());
                    }
                }
                return false;
            }
            i += 1;
        }
        true
    }
}

/// A well-formed chain validates: the stored hashes and links that
/// `is_valid` recomputes are exactly what the invariant maintains.
pub proof fn lemma_wf_implies_valid(c: Blockchain)
    requires
        c.wf(),
    ensures
        c.spec_valid(),
{
}

/// Every non-genesis block of a well-formed chain is sealed with its own
/// recomputed, non-empty hash, and that hash carries at least the chain's
/// difficulty in leading zero hex digits. The genesis block is exempt from
/// the difficulty predicate by design.
pub proof fn lemma_sealed_blocks_meet_difficulty(c: Blockchain, i: int)
    requires
        c.wf(),
        1 <= i < c.chain@.len(),
    ensures
        c.chain@[i].hash@ == c.chain@[i].spec_hash(),
        c.chain@[i].hash@.len() > 0,
        meets_difficulty(c.chain@[i].hash@, c.difficulty as nat),
{
}

/// Tampering is caught: as soon as any non-genesis block no longer stores
/// its own recomputed hash — as after its payload or header fields are
/// mutated without re-mining — or no longer references its predecessor's
/// stored hash, the chain fails validation.
pub proof fn lemma_tamper_invalidates(c: Blockchain, i: int)
    requires
        1 <= i < c.chain@.len(),
        c.chain@[i].hash@ != c.chain@[i].spec_hash() || c.chain@[i].previous_hash@ != c.chain@[i
            - 1].hash@,
    ensures
        !c.spec_valid(),
{
    if c.spec_valid() {
        assert(c.chain@[i].hash@ == c.chain@[i].spec_hash() && c.chain@[i].previous_hash@
            == c.chain@[i - 1].hash@);
    }
}

/// In any chain that passes validation, every non-genesis block's
/// `previous_hash` equals its predecessor's stored hash.
pub proof fn lemma_valid_chain_linked(c: Blockchain, i: int)
    requires
        c.spec_valid(),
        1 <= i < c.chain@.len(),
    ensures
        c.chain@[i].previous_hash@ == c.chain@[i - 1].hash@,
{
}

} // verus!
