//! Blocks: payload containers bound to a predecessor by hash and sealed
//! by a proof-of-work search.
//!
//! A block's hash is the SHA-256 digest, rendered as lowercase hex, of its
//! canonical header bytes: index, timestamp, payload, previous hash and
//! nonce — never the stored hash or the effort counter, so the encoding is
//! free of self-reference. The payload encoding of a transaction includes
//! its signature and signer key, so a sealed block attests to the stored
//! signatures as well as to the transfers themselves.

use vstd::prelude::*;

use crate::clock::now_timestamp;
use crate::encoding::{push_len_prefixed, push_u64_le, spec_len_prefixed};
use crate::errors::ChainError;
use crate::hashing::{
    check_difficulty, hex_bytes_of, hex_encode, lemma_hex_bytes_of_len, meets_difficulty,
    sha256_digest, sha256_of,
};
use crate::transaction::Transaction;

verus! {

/// What a block carries: either an opaque byte payload or an ordered list
/// of transactions.
pub enum Payload {
    Data(Vec<u8>),
    Transactions(Vec<Transaction>),
}

/// The encoding of an optional byte field: a zero byte for `None`, or a
/// one byte followed by the length-prefixed contents.
pub open spec fn spec_opt_field_bytes(o: Option<Vec<u8>>) -> Seq<u8> {
    match o {
        Option::None => seq![0u8],
        Option::Some(b) => seq![1u8] + spec_len_prefixed(b@),
    }
}

/// The bytes a transaction contributes to its block's hash input: the
/// canonical bytes plus the stored signature and signer key, so that the
/// seal attests to the signatures too.
pub open spec fn spec_tx_sealed_bytes(t: Transaction) -> Seq<u8> {
    t.spec_canonical_bytes() + spec_opt_field_bytes(t.signature) + spec_opt_field_bytes(
        t.signer_public_key,
    )
}

/// The concatenated sealed bytes of a list of transactions, in order.
pub open spec fn spec_txs_bytes(txs: Seq<Transaction>) -> Seq<u8>
    decreases txs.len(),
{
    if txs.len() == 0 {
        Seq::empty()
    } else {
        spec_txs_bytes(txs.drop_last()) + spec_tx_sealed_bytes(txs.last())
    }
}

/// Appending a transaction appends its sealed bytes.
pub proof fn lemma_txs_bytes_push(txs: Seq<Transaction>, t: Transaction)
    ensures
        spec_txs_bytes(txs.push(t)) == spec_txs_bytes(txs) + spec_tx_sealed_bytes(t),
{
    let whole = txs.push(t);
    assert(whole.drop_last() =~= txs);
    assert(whole.last() == t);
}

/// The encoding of a payload: a tag byte telling the variants apart, then
/// the length-prefixed data bytes, or the transaction count followed by
/// each transaction's sealed bytes.
pub open spec fn spec_payload_bytes(p: Payload) -> Seq<u8> {
    match p {
        Payload::Data(d) => seq![0u8] + spec_len_prefixed(d@),
        Payload::Transactions(txs) => seq![1u8] + vstd::bytes::spec_u64_to_le_bytes(
            txs@.len() as u64,
        ) + spec_txs_bytes(txs@),
    }
}

/// A payload passes transaction validation when every transaction it
/// carries verifies; an opaque payload always passes.
pub open spec fn spec_payload_verified(p: Payload) -> bool {
    match p {
        Payload::Data(_) => true,
        Payload::Transactions(txs) => forall|i: int|
            0 <= i < txs@.len() ==> (#[trigger] txs@[i]).spec_verified(),
    }
}

/// Append an optional byte field's encoding to `out`.
fn push_opt_field(out: &mut Vec<u8>, o: &Option<Vec<u8>>)
    ensures
        final(out)@ == old(out)@ + spec_opt_field_bytes(*o),
{
    match o {
        Option::None => {
            out.push(0u8);
        },
        Option::Some(b) => {
            out.push(1u8);
            push_len_prefixed(out, b);
        },
    }
    proof {
        assert(out@ =~= old(out)@ + spec_opt_field_bytes(*o));
    }
}

/// Append a transaction's sealed bytes to `out`.
fn push_tx_sealed(out: &mut Vec<u8>, t: &Transaction)
    ensures
        final(out)@ == old(out)@ + spec_tx_sealed_bytes(*t),
{
    let mut canonical = t.canonical_bytes();
    out.append(&mut canonical);
    push_opt_field(out, &t.signature);
    push_opt_field(out, &t.signer_public_key);
    proof {
        assert(out@ =~= old(out)@ + spec_tx_sealed_bytes(*t));
    }
}

/// Produce a payload's canonical encoding.
pub fn payload_bytes(p: &Payload) -> (r: Vec<u8>)
    ensures
        r@ == spec_payload_bytes(*p),
{
    let mut out: Vec<u8> = Vec::new();
    match p {
        Payload::Data(d) => {
            out.push(0u8);
            push_len_prefixed(&mut out, d);
        },
        Payload::Transactions(txs) => {
            out.push(1u8);
            push_u64_le(&mut out, txs.len() as u64);
            let mut i: usize = 0;
            while i < txs.len()
                invariant
                    i <= txs@.len(),
                    out@ == seq![1u8] + vstd::bytes::spec_u64_to_le_bytes(txs@.len() as u64)
                        + spec_txs_bytes(txs@.take(i as int)),
                decreases txs@.len() - i,
            {
                push_tx_sealed(&mut out, &txs[i]);
                proof {
                    assert(txs@.take(i as int).push(txs@[i as int]) =~= txs@.take(i as int + 1));
                    lemma_txs_bytes_push(txs@.take(i as int), txs@[i as int]);
                }
                i += 1;
            }
            proof {
                assert(txs@.take(txs@.len() as int) =~= txs@);
            }
        },
    }
    proof {
        assert(out@ =~= spec_payload_bytes(*p));
    }
    out
}

/// Decide whether every transaction of a list verifies.
fn all_transactions_verified(txs: &Vec<Transaction>) -> (r: bool)
    ensures
        r == forall|j: int| 0 <= j < txs@.len() ==> (#[trigger] txs@[j]).spec_verified(),
{
    let mut i: usize = 0;
    while i < txs.len()
        invariant
            i <= txs@.len(),
            forall|j: int| 0 <= j < i ==> (#[trigger] txs@[j]).spec_verified(),
        decreases txs@.len() - i,
    {
        if !txs[i].verify() {
            proof {
                assert(!txs@[i as int].spec_verified());
            }
            return false;
        }
        i += 1;
    }
    true
}

/// Decide whether every transaction of a payload verifies.
pub fn payload_verified(p: &Payload) -> (r: bool)
    ensures
        r == spec_payload_verified(*p),
{
    match p {
        Payload::Data(_) => true,
        Payload::Transactions(txs) => all_transactions_verified(txs),
    }
}

/// A payload container at a fixed position of the chain, bound to its
/// predecessor by `previous_hash` and sealed by mining.
pub struct Block {
    /// Sequence position; the genesis block holds zero.
    pub index: u64,
    /// Creation time in whole seconds since the Unix epoch (clamped to
    /// zero for clocks set before the epoch).
    pub timestamp: u64,
    pub payload: Payload,
    /// The predecessor's hex-digit hash; the single digit `"0"` for the
    /// genesis block.
    pub previous_hash: Vec<u8>,
    /// The block's own hash as lowercase hex digits; empty until sealed.
    pub hash: Vec<u8>,
    /// The proof-of-work solution; zero until sealed.
    pub nonce: u64,
    /// How many nonce attempts mining has consumed for this block.
    pub effort: u64,
}

impl Block {
    /// The canonical header bytes that the block's hash is computed over:
    /// index, timestamp, payload, length-prefixed previous hash, nonce.
    /// The stored hash and the effort counter are excluded.
    pub open spec fn spec_header_bytes(self) -> Seq<u8> {
        vstd::bytes::spec_u64_to_le_bytes(self.index) + vstd::bytes::spec_u64_to_le_bytes(
            self.timestamp,
        ) + spec_payload_bytes(self.payload) + spec_len_prefixed(self.previous_hash@)
            + vstd::bytes::spec_u64_to_le_bytes(self.nonce)
    }

    /// The block's hash: the digest of the header bytes, as hex digits.
    pub open spec fn spec_hash(self) -> Seq<u8> {
        hex_bytes_of(sha256_of(self.spec_header_bytes()))
    }

    /// A sealed block stores exactly the hash of its own canonical fields.
    pub open spec fn spec_sealed(self) -> bool {
        &&& self.hash@ == self.spec_hash()
        &&& self.hash@.len() == 64
    }

    /// The hash this block would have with its nonce set to `k` and every
    /// other canonical field as it stands.
    pub open spec fn spec_hash_at_nonce(self, k: u64) -> Seq<u8> {
        (Block { nonce: k, ..self }).spec_hash()
    }

    /// Construct an unsealed block: hash empty, nonce and effort zero,
    /// timestamped with the current wall-clock time.
    pub fn new(index: u64, payload: Payload, previous_hash: Vec<u8>) -> (b: Block)
        ensures
            b.index == index,
            b.payload == payload,
            b.previous_hash == previous_hash,
            b.hash@.len() == 0,
            b.nonce == 0,
            b.effort == 0,
    {
        let raw = now_timestamp();
        let timestamp: u64 = if raw >= 0 {
            raw as u64
        } else {
            0
        };
        Block { index, timestamp, payload, previous_hash, hash: Vec::new(), nonce: 0, effort: 0 }
    }

    /// Produce the canonical header bytes.
    pub fn header_bytes(&self) -> (r: Vec<u8>)
        ensures
            r@ == self.spec_header_bytes(),
    {
        let mut out: Vec<u8> = Vec::new();
        push_u64_le(&mut out, self.index);
        push_u64_le(&mut out, self.timestamp);
        let mut payload = payload_bytes(&self.payload);
        out.append(&mut payload);
        push_len_prefixed(&mut out, &self.previous_hash);
        push_u64_le(&mut out, self.nonce);
        proof {
            assert(out@ =~= self.spec_header_bytes());
        }
        out
    }

    /// Recompute the block's hash from its canonical fields. The result is
    /// a deterministic function of those fields alone, so recomputing it
    /// on an unmutated block always yields the same 64 hex digits.
    pub fn calculate_hash(&self) -> (r: Vec<u8>)
        ensures
            r@ == self.spec_hash(),
            r@.len() == 64,
    {
        let header = self.header_bytes();
        let digest = sha256_digest(&header);
        proof {
            lemma_hex_bytes_of_len(digest@);
        }
        hex_encode(&digest)
    }

    /// Search for a nonce whose hash meets the difficulty, spending at
    /// most `budget` attempts. A payload holding an unverified transaction
    /// is rejected before any effort is spent, with the block unchanged.
    /// `Ok(true)` means the block is sealed at the first satisfying nonce
    /// after the starting one; `Ok(false)` means the budget ran out — the
    /// search is cancelled, the hash is left empty, and the effort counter
    /// records the attempts consumed. Whether a satisfying nonce exists
    /// within the budget is exactly what decides between the two.
    pub fn mine_block(&mut self, difficulty: usize, budget: u64) -> (r: Result<bool, ChainError>)
        requires
            old(self).hash@.len() == 0,
            old(self).nonce + budget <= u64::MAX,
            old(self).effort + budget <= u64::MAX,
        ensures
            match r {
                Ok(mined) => {
                    &&& spec_payload_verified(old(self).payload)
                    &&& final(self).index == old(self).index
                    &&& final(self).timestamp == old(self).timestamp
                    &&& final(self).payload == old(self).payload
                    &&& final(self).previous_hash == old(self).previous_hash
                    &&& final(self).effort - old(self).effort == final(self).nonce - old(
                        self,
                    ).nonce
                    &&& (mined <==> exists|k: u64|
                        old(self).nonce < k <= old(self).nonce + budget && meets_difficulty(
                            #[trigger] old(self).spec_hash_at_nonce(k),
                            difficulty as nat,
                        ))
                    &&& mined ==> final(self).spec_sealed() && meets_difficulty(
                        final(self).hash@,
                        difficulty as nat,
                    ) && old(self).nonce < final(self).nonce <= old(self).nonce + budget && (
                    forall|k: u64|
                        old(self).nonce < k < final(self).nonce ==> !meets_difficulty(
                            #[trigger] old(self).spec_hash_at_nonce(k),
                            difficulty as nat,
                        ))
                    &&& !mined ==> final(self).hash@.len() == 0 && final(self).nonce == old(
                        self,
                    ).nonce + budget
                },
                Err(e) => {
                    &&& e == ChainError::UnverifiedTransaction
                    &&& !spec_payload_verified(old(self).payload)
                    &&& *final(self) == *old(self)
                },
            },
    {
        if !payload_verified(&self.payload) {
            return Err(ChainError::UnverifiedTransaction);
        }
        let mut attempts: u64 = 0;
        while attempts < budget
            invariant
                attempts <= budget,
                spec_payload_verified(old(self).payload),
                self.index == old(self).index,
                self.timestamp == old(self).timestamp,
                self.payload == old(self).payload,
                self.previous_hash == old(self).previous_hash,
                self.hash@.len() == 0,
                self.nonce == old(self).nonce + attempts,
                self.effort == old(self).effort + attempts,
                old(self).nonce + budget <= u64::MAX,
                old(self).effort + budget <= u64::MAX,
                forall|k: u64|
                    old(self).nonce < k <= old(self).nonce + attempts ==> !meets_difficulty(
                        #[trigger] old(self).spec_hash_at_nonce(k),
                        difficulty as nat,
                    ),
            decreases budget - attempts,
        {
            attempts = attempts + 1;
            self.nonce = self.nonce + 1;
            self.effort = self.effort + 1;
            let trial = self.calculate_hash();
            proof {
                lemma_hash_ignores_seal(Block { nonce: self.nonce, ..*old(self) }, *self);
                assert(old(self).spec_hash_at_nonce(self.nonce) == self.spec_hash());
            }
            if check_difficulty(&trial, difficulty) {
                self.hash = trial;
                return Ok(true);
            }
        }
        Ok(false)
    }
}

/// A block's hash reads the index, timestamp, payload, previous hash and
/// nonce — never the stored hash or the effort counter. Two blocks equal
/// on those five fields hash alike, whatever their seals say.
pub proof fn lemma_hash_ignores_seal(a: Block, b: Block)
    requires
        a.index == b.index,
        a.timestamp == b.timestamp,
        a.payload == b.payload,
        a.previous_hash == b.previous_hash,
        a.nonce == b.nonce,
    ensures
        a.spec_hash() == b.spec_hash(),
{
}

/// Altering a stored transaction's amount changes its sealed bytes without
/// changing their length.
pub proof fn lemma_amount_tamper_changes_sealed_bytes(t1: Transaction, t2: Transaction)
    requires
        t1.sender == t2.sender,
        t1.receiver == t2.receiver,
        t1.amount != t2.amount,
        t1.signature == t2.signature,
        t1.signer_public_key == t2.signer_public_key,
    ensures
        spec_tx_sealed_bytes(t1) != spec_tx_sealed_bytes(t2),
        spec_tx_sealed_bytes(t1).len() == spec_tx_sealed_bytes(t2).len(),
{
    crate::transaction::lemma_amount_tamper_changes_canonical_bytes(t1, t2);
    crate::encoding::lemma_concat_differs_left(
        t1.spec_canonical_bytes(),
        t2.spec_canonical_bytes(),
        spec_opt_field_bytes(t1.signature),
    );
    crate::encoding::lemma_concat_differs_left(
        t1.spec_canonical_bytes() + spec_opt_field_bytes(t1.signature),
        t2.spec_canonical_bytes() + spec_opt_field_bytes(t2.signature),
        spec_opt_field_bytes(t1.signer_public_key),
    );
}

/// Changing one transaction of a list — into one whose sealed bytes differ
/// but keep their length — changes the list's concatenated bytes.
pub proof fn lemma_txs_bytes_tamper(s1: Seq<Transaction>, s2: Seq<Transaction>, k: int)
    requires
        s1.len() == s2.len(),
        0 <= k < s1.len(),
        forall|j: int| 0 <= j < s1.len() && j != k ==> s1[j] == s2[j],
        spec_tx_sealed_bytes(s1[k]) != spec_tx_sealed_bytes(s2[k]),
        spec_tx_sealed_bytes(s1[k]).len() == spec_tx_sealed_bytes(s2[k]).len(),
    ensures
        spec_txs_bytes(s1) != spec_txs_bytes(s2),
        spec_txs_bytes(s1).len() == spec_txs_bytes(s2).len(),
    decreases s1.len(),
{
    if k == s1.len() - 1 {
        assert(s1.drop_last() =~= s2.drop_last());
        assert(s1.last() == s1[k]);
        assert(s2.last() == s2[k]);
        crate::encoding::lemma_concat_differs_right(
            spec_txs_bytes(s1.drop_last()),
            spec_tx_sealed_bytes(s1.last()),
            spec_tx_sealed_bytes(s2.last()),
        );
    } else {
        assert(s1.last() == s2.last());
        assert(s1.drop_last()[k] == s1[k]);
        assert(s2.drop_last()[k] == s2[k]);
        lemma_txs_bytes_tamper(s1.drop_last(), s2.drop_last(), k);
        crate::encoding::lemma_concat_differs_left(
            spec_txs_bytes(s1.drop_last()),
            spec_txs_bytes(s2.drop_last()),
            spec_tx_sealed_bytes(s1.last()),
        );
    }
}

/// Tampering with one transaction of a mined block changes the bytes that
/// the block's hash is computed over.
pub proof fn lemma_transaction_tamper_changes_header(
    a: Block,
    b: Block,
    txs1: Vec<Transaction>,
    txs2: Vec<Transaction>,
    k: int,
)
    requires
        a.index == b.index,
        a.timestamp == b.timestamp,
        a.previous_hash == b.previous_hash,
        a.nonce == b.nonce,
        a.payload == Payload::Transactions(txs1),
        b.payload == Payload::Transactions(txs2),
        txs1@.len() == txs2@.len(),
        0 <= k < txs1@.len(),
        forall|j: int| 0 <= j < txs1@.len() && j != k ==> txs1@[j] == txs2@[j],
        spec_tx_sealed_bytes(txs1@[k]) != spec_tx_sealed_bytes(txs2@[k]),
        spec_tx_sealed_bytes(txs1@[k]).len() == spec_tx_sealed_bytes(txs2@[k]).len(),
    ensures
        a.spec_header_bytes() != b.spec_header_bytes(),
{
    vstd::bytes::lemma_auto_spec_u64_to_from_le_bytes();
    lemma_txs_bytes_tamper(txs1@, txs2@, k);
    let count = vstd::bytes::spec_u64_to_le_bytes(txs1@.len() as u64);
    let pa = spec_payload_bytes(a.payload);
    let pb = spec_payload_bytes(b.payload);
    assert(pa =~= (seq![1u8] + count) + spec_txs_bytes(txs1@));
    assert(pb =~= (seq![1u8] + count) + spec_txs_bytes(txs2@));
    crate::encoding::lemma_concat_differs_right(
        seq![1u8] + count,
        spec_txs_bytes(txs1@),
        spec_txs_bytes(txs2@),
    );
    let front = vstd::bytes::spec_u64_to_le_bytes(a.index) + vstd::bytes::spec_u64_to_le_bytes(
        a.timestamp,
    );
    crate::encoding::lemma_concat_differs_right(front, pa, pb);
    crate::encoding::lemma_concat_differs_left(
        front + pa,
        front + pb,
        spec_len_prefixed(a.previous_hash@),
    );
    crate::encoding::lemma_concat_differs_left(
        front + pa + spec_len_prefixed(a.previous_hash@),
        front + pb + spec_len_prefixed(b.previous_hash@),
        vstd::bytes::spec_u64_to_le_bytes(a.nonce),
    );
}

/// Tampering with the opaque payload of a block changes the bytes that
/// its hash is computed over: the canonical header encoding is injective
/// in the payload.
pub proof fn lemma_payload_tamper_changes_header(a: Block, b: Block, d1: Vec<u8>, d2: Vec<u8>)
    requires
        a.index == b.index,
        a.timestamp == b.timestamp,
        a.previous_hash == b.previous_hash,
        a.nonce == b.nonce,
        a.payload == Payload::Data(d1),
        b.payload == Payload::Data(d2),
        d1@ != d2@,
    ensures
        a.spec_header_bytes() != b.spec_header_bytes(),
{
    vstd::bytes::lemma_auto_spec_u64_to_from_le_bytes();
    let ha = a.spec_header_bytes();
    let hb = b.spec_header_bytes();
    let pa = spec_payload_bytes(a.payload);
    let pb = spec_payload_bytes(b.payload);
    assert(pa.len() == 9 + d1@.len());
    assert(pb.len() == 9 + d2@.len());
    if d1@.len() != d2@.len() {
        assert(ha.len() != hb.len());
    } else {
        assert(exists|k: int| 0 <= k < d1@.len() && d1@[k] != d2@[k]) by {
            if forall|k: int| 0 <= k < d1@.len() ==> d1@[k] == d2@[k] {
                assert(d1@ =~= d2@);
            }
        }
        let k = choose|k: int| 0 <= k < d1@.len() && d1@[k] != d2@[k];
        assert(ha[25 + k] == d1@[k]);
        assert(hb[25 + k] == d2@[k]);
        if ha == hb {
            assert(false);
        }
    }
}

} // verus!
