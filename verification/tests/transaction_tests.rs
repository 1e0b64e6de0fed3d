use powchain::signing::{key_pair_from_secret, KeyPair};
use powchain::transaction::Transaction;
use powchain::errors::ChainError;

fn fixed_keypair() -> KeyPair {
    key_pair_from_secret(vec![7u8; 32])
}

#[test]
fn derived_public_key_matches_dalek() {
    let secret = vec![7u8; 32];
    let kp = key_pair_from_secret(secret.clone());
    let sk = ed25519_dalek::SecretKey::from_bytes(&secret).unwrap();
    let pk = ed25519_dalek::PublicKey::from(&sk);
    assert_eq!(kp.public, pk.to_bytes().to_vec());
    assert_eq!(kp.secret, secret);
    assert_ne!(kp.public, secret);
}

#[test]
fn generated_keypair_signs_and_verifies() {
    let mut csprng = rand::rngs::OsRng;
    let dalek = ed25519_dalek::Keypair::generate(&mut csprng);
    let kp = key_pair_from_secret(dalek.secret.to_bytes().to_vec());
    assert_eq!(kp.public, dalek.public.to_bytes().to_vec());

    let mut t = Transaction::new(kp.public.clone(), b"receiver".to_vec(), 41);
    assert!(t.sign(&kp).is_ok());
    assert!(t.verify());
}

#[test]
fn canonical_bytes_exact_value() {
    let t = Transaction::new(vec![65u8], vec![66u8], 5);
    let expected: Vec<u8> = vec![
        1, 0, 0, 0, 0, 0, 0, 0, // sender length
        65, // sender
        1, 0, 0, 0, 0, 0, 0, 0, // receiver length
        66, // receiver
        5, 0, 0, 0, 0, 0, 0, 0, // amount
    ];
    assert_eq!(t.canonical_bytes(), expected);
}

#[test]
fn signing_digest_is_sha256_of_canonical_bytes() {
    let t = Transaction::new(b"A".to_vec(), b"B".to_vec(), 5);
    let expected = <sha2::Sha256 as sha2::Digest>::digest(&t.canonical_bytes()).to_vec();
    assert_eq!(t.bytes_for_signing(), expected);
    assert_ne!(t.bytes_for_signing(), t.canonical_bytes());
}

#[test]
fn sign_then_verify_round_trip() {
    let kp = fixed_keypair();
    let mut t = Transaction::new(kp.public.clone(), b"B".to_vec(), 5);
    assert!(!t.verify());
    assert_eq!(t.sign(&kp), Ok(()));
    assert!(t.verify());
}

#[test]
fn verify_scenario_amount_tamper() {
    // Sign {sender: A's key, receiver: B, amount: 5}; verification succeeds.
    // Alter the amount to 6 without re-signing; verification fails.
    let kp = fixed_keypair();
    let mut t = Transaction::new(kp.public.clone(), b"B".to_vec(), 5);
    t.sign(&kp).unwrap();
    assert!(t.verify());
    t.amount = 6;
    assert!(!t.verify());
    t.amount = 5;
    assert!(t.verify());
}

#[test]
fn verify_fails_closed_without_signature() {
    let kp = fixed_keypair();
    let mut t = Transaction::new(kp.public.clone(), b"B".to_vec(), 5);
    t.sign(&kp).unwrap();
    let saved = t.signature.clone();
    t.signature = None;
    assert!(!t.verify());
    t.signature = saved;
    assert!(t.verify());
    t.signer_public_key = None;
    assert!(!t.verify());
}

#[test]
fn verify_fails_under_different_public_key() {
    let kp = fixed_keypair();
    let other = key_pair_from_secret(vec![9u8; 32]);
    let mut t = Transaction::new(kp.public.clone(), b"B".to_vec(), 5);
    t.sign(&kp).unwrap();
    assert!(t.verify());
    // The recorded signer key is swapped for another valid key: the
    // sender-identity check (and the signature itself) must fail.
    t.signer_public_key = Some(other.public.clone());
    assert!(!t.verify());
}

#[test]
fn verify_fails_when_sender_is_not_signer() {
    let kp = fixed_keypair();
    let mut t = Transaction::new(b"somebody else".to_vec(), b"B".to_vec(), 5);
    t.sign(&kp).unwrap();
    assert!(!t.verify());
}

#[test]
fn re_signing_is_rejected() {
    let kp = fixed_keypair();
    let mut t = Transaction::new(kp.public.clone(), b"B".to_vec(), 5);
    assert_eq!(t.sign(&kp), Ok(()));
    let signature = t.signature.clone();
    assert_eq!(t.sign(&kp), Err(ChainError::InvalidKeyState));
    assert_eq!(t.signature, signature);
    assert!(t.verify());
}

#[test]
fn corrupted_signature_bytes_fail() {
    let kp = fixed_keypair();
    let mut t = Transaction::new(kp.public.clone(), b"B".to_vec(), 5);
    t.sign(&kp).unwrap();
    let mut sig = t.signature.clone().unwrap();
    sig[0] ^= 1;
    t.signature = Some(sig);
    assert!(!t.verify());
    // Malformed signature length fails closed rather than panicking.
    t.signature = Some(vec![1, 2, 3]);
    assert!(!t.verify());
}
