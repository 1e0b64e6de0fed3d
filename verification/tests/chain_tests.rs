use powchain::block::{Block, Payload};
use powchain::chain::Blockchain;
use powchain::errors::ChainError;
use powchain::signing::key_pair_from_secret;
use powchain::transaction::Transaction;

const BUDGET: u64 = 5_000_000;

#[test]
fn genesis_block_shape() {
    let c = Blockchain::new(3);
    assert_eq!(c.chain.len(), 1);
    let genesis = &c.chain[0];
    assert_eq!(genesis.index, 0);
    assert_eq!(genesis.previous_hash, b"0".to_vec());
    assert_eq!(genesis.hash, genesis.calculate_hash());
    assert_eq!(genesis.nonce, 0);
    assert_eq!(genesis.effort, 0);
    match &genesis.payload {
        Payload::Data(d) => assert_eq!(d, b"Genesis Block"),
        Payload::Transactions(_) => panic!("genesis payload is opaque"),
    }
    assert!(c.is_valid());
}

#[test]
fn calculate_hash_is_idempotent() {
    let c = Blockchain::new(2);
    let genesis = &c.chain[0];
    assert_eq!(genesis.calculate_hash(), genesis.calculate_hash());
    let b = Block::new(4, Payload::Data(b"payload".to_vec()), b"0".to_vec());
    assert_eq!(b.calculate_hash(), b.calculate_hash());
}

#[test]
fn calculate_hash_matches_sha256_hex_of_header() {
    let b = Block::new(1, Payload::Data(b"payload".to_vec()), b"0".to_vec());
    let digest = <sha2::Sha256 as sha2::Digest>::digest(&b.header_bytes());
    let expected = hex::encode(digest).into_bytes();
    assert_eq!(b.calculate_hash(), expected);
    assert_eq!(expected.len(), 64);
    assert_ne!(expected, b.header_bytes());
}

#[test]
fn hash_changes_with_nonce() {
    let mut b = Block::new(1, Payload::Data(b"payload".to_vec()), b"0".to_vec());
    let before = b.calculate_hash();
    b.nonce += 1;
    assert_ne!(b.calculate_hash(), before);
}

#[test]
fn mining_scenario_difficulty_three() {
    // Chain at difficulty 3; an appended block's hash must start "000"
    // and the chain must validate; flipping one payload byte afterwards
    // must make validation fail.
    let mut c = Blockchain::new(3);
    assert_eq!(c.add_block(Payload::Data(b"Alice pays Bob 5".to_vec()), BUDGET), Ok(()));
    assert_eq!(c.chain.len(), 2);
    let mined = &c.chain[1];
    assert_eq!(&mined.hash[..3], b"000");
    assert_eq!(mined.hash.len(), 64);
    assert_eq!(mined.hash, mined.calculate_hash());
    assert_eq!(mined.previous_hash, c.chain[0].hash);
    assert_eq!(mined.index, 1);
    assert!(mined.nonce >= 1);
    assert_eq!(mined.effort, mined.nonce);
    assert!(c.is_valid());

    match &mut c.chain[1].payload {
        Payload::Data(d) => d[0] ^= 1,
        Payload::Transactions(_) => unreachable!(),
    }
    assert!(!c.is_valid());
}

#[test]
fn several_blocks_link_up() {
    let mut c = Blockchain::new(1);
    assert_eq!(c.add_block(Payload::Data(b"one".to_vec()), BUDGET), Ok(()));
    assert_eq!(c.add_block(Payload::Data(b"two".to_vec()), BUDGET), Ok(()));
    assert_eq!(c.add_block(Payload::Data(b"three".to_vec()), BUDGET), Ok(()));
    assert_eq!(c.chain.len(), 4);
    for i in 1..c.chain.len() {
        assert_eq!(c.chain[i].previous_hash, c.chain[i - 1].hash);
        assert_eq!(c.chain[i].index as usize, i);
        assert!(c.chain[i].hash.starts_with(b"0"));
    }
    assert!(c.is_valid());
}

#[test]
fn tampered_link_is_detected() {
    let mut c = Blockchain::new(1);
    c.add_block(Payload::Data(b"one".to_vec()), BUDGET).unwrap();
    c.add_block(Payload::Data(b"two".to_vec()), BUDGET).unwrap();
    assert!(c.is_valid());
    c.chain[1].hash = c.chain[1].calculate_hash();
    assert!(c.is_valid());
    // Break the second block's reference to its parent.
    c.chain[2].previous_hash = b"0".to_vec();
    assert!(!c.is_valid());
}

#[test]
fn append_rejects_unverified_transaction() {
    let mut c = Blockchain::new(1);
    let unsigned = Transaction::new(b"A".to_vec(), b"B".to_vec(), 5);
    let r = c.add_block(Payload::Transactions(vec![unsigned]), BUDGET);
    assert_eq!(r, Err(ChainError::UnverifiedTransaction));
    assert_eq!(c.chain.len(), 1);
    assert!(c.is_valid());
}

#[test]
fn append_accepts_signed_transactions() {
    let kp = key_pair_from_secret(vec![3u8; 32]);
    let mut t = Transaction::new(kp.public.clone(), b"B".to_vec(), 5);
    t.sign(&kp).unwrap();
    let mut c = Blockchain::new(1);
    assert_eq!(c.add_block(Payload::Transactions(vec![t]), BUDGET), Ok(()));
    assert_eq!(c.chain.len(), 2);
    assert!(c.is_valid());
}

#[test]
fn tampered_transaction_amount_is_detected() {
    let kp = key_pair_from_secret(vec![3u8; 32]);
    let mut t = Transaction::new(kp.public.clone(), b"B".to_vec(), 5);
    t.sign(&kp).unwrap();
    let mut c = Blockchain::new(1);
    c.add_block(Payload::Transactions(vec![t]), BUDGET).unwrap();
    assert!(c.is_valid());
    match &mut c.chain[1].payload {
        Payload::Transactions(txs) => txs[0].amount = 6,
        Payload::Data(_) => unreachable!(),
    }
    assert!(!c.is_valid());
}

#[test]
fn mixed_signed_and_unsigned_rejected() {
    let kp = key_pair_from_secret(vec![3u8; 32]);
    let mut signed = Transaction::new(kp.public.clone(), b"B".to_vec(), 5);
    signed.sign(&kp).unwrap();
    let unsigned = Transaction::new(b"C".to_vec(), b"D".to_vec(), 2);
    let mut c = Blockchain::new(1);
    let r = c.add_block(Payload::Transactions(vec![signed, unsigned]), BUDGET);
    assert_eq!(r, Err(ChainError::UnverifiedTransaction));
    assert_eq!(c.chain.len(), 1);
}

#[test]
fn empty_transaction_list_is_minable() {
    let mut c = Blockchain::new(1);
    assert_eq!(c.add_block(Payload::Transactions(vec![]), BUDGET), Ok(()));
    assert_eq!(c.chain.len(), 2);
    assert!(c.is_valid());
}

#[test]
fn mining_cancelled_leaves_chain_unchanged() {
    let mut c = Blockchain::new(3);
    let r = c.add_block(Payload::Data(b"never mined".to_vec()), 0);
    assert_eq!(r, Err(ChainError::MiningCancelled));
    assert_eq!(c.chain.len(), 1);
    assert!(c.is_valid());
}

#[test]
fn cancelled_mine_leaves_hash_empty() {
    let mut b = Block::new(1, Payload::Data(b"data".to_vec()), b"0".to_vec());
    // Difficulty 64 asks for an all-zero hash: eight attempts cannot
    // plausibly find one, and the budget runs out.
    assert_eq!(b.mine_block(64, 8), Ok(false));
    assert!(b.hash.is_empty());
    assert_eq!(b.nonce, 8);
    assert_eq!(b.effort, 8);
}

#[test]
fn mine_rejects_unverified_transaction_unchanged() {
    // No proof-of-work effort may be spent sealing an unauthenticated
    // transfer: mining rejects the payload before searching.
    let unsigned = Transaction::new(b"A".to_vec(), b"B".to_vec(), 5);
    let mut b = Block::new(1, Payload::Transactions(vec![unsigned]), b"0".to_vec());
    assert_eq!(b.mine_block(1, BUDGET), Err(ChainError::UnverifiedTransaction));
    assert!(b.hash.is_empty());
    assert_eq!(b.nonce, 0);
    assert_eq!(b.effort, 0);
}

#[test]
fn mine_seals_verified_transactions() {
    let kp = key_pair_from_secret(vec![5u8; 32]);
    let mut t = Transaction::new(kp.public.clone(), b"B".to_vec(), 7);
    t.sign(&kp).unwrap();
    let mut b = Block::new(1, Payload::Transactions(vec![t]), b"0".to_vec());
    assert_eq!(b.mine_block(1, BUDGET), Ok(true));
    assert_eq!(b.hash, b.calculate_hash());
    assert_eq!(b.hash[0], b'0');
}

#[test]
fn difficulty_zero_accepts_first_attempt() {
    let mut c = Blockchain::new(0);
    assert_eq!(c.add_block(Payload::Data(b"easy".to_vec()), BUDGET), Ok(()));
    assert_eq!(c.chain[1].nonce, 1);
    assert_eq!(c.chain[1].effort, 1);
    assert!(c.is_valid());
}

#[test]
fn latest_block_returns_last() {
    let mut c = Blockchain::new(1);
    assert_eq!(c.latest_block().unwrap().index, 0);
    c.add_block(Payload::Data(b"one".to_vec()), BUDGET).unwrap();
    assert_eq!(c.latest_block().unwrap().index, 1);
}

#[test]
fn latest_block_on_empty_chain_fails() {
    let c = Blockchain { chain: vec![], difficulty: 1 };
    match c.latest_block() {
        Err(e) => assert_eq!(e, ChainError::EmptyChain),
        Ok(_) => panic!("an empty chain has no latest block"),
    }
}
