//! The digest function and its hex rendering.
//!
//! Block hashes are SHA-256 digests rendered as lowercase hex digits
//! (stored as ASCII bytes); the proof-of-work difficulty predicate counts
//! leading `'0'` digits of that rendering.

use vstd::prelude::*;

verus! {

/// The SHA-256 digest of a byte sequence. The digest is computed by the
/// sha2 crate and depends on its input alone, so it is named here without
/// a definition.
pub uninterp spec fn sha256_of(data: Seq<u8>) -> Seq<u8>;

/// Relies on sha2::Sha256 (through the Digest trait): a deterministic
/// digest of the input bytes, 32 bytes long.
#[verifier::external_body]
pub(crate) fn sha256_digest(data: &Vec<u8>) -> (r: Vec<u8>)
    ensures
        r@ == sha256_of(data@),
        r@.len() == 32,
{
    <sha2::Sha256 as sha2::Digest>::digest(data.as_slice()).to_vec()
}

/// The lowercase hex digit, as an ASCII byte, for a value below sixteen.
pub open spec fn hex_digit(n: u8) -> u8
    recommends
        n < 16,
{
    if n < 10 {
        (48 + n) as u8  // '0' through '9'
    } else {
        (87 + n) as u8  // 'a' through 'f'
    }
}

/// The lowercase hex rendering of a byte sequence: two digits per byte,
/// high nibble first.
pub open spec fn hex_bytes_of(b: Seq<u8>) -> Seq<u8>
    decreases b.len(),
{
    if b.len() == 0 {
        Seq::empty()
    } else {
        seq![hex_digit(b.first() / 16), hex_digit(b.first() % 16)] + hex_bytes_of(b.drop_first())
    }
}

/// The hex rendering is twice as long as its input.
pub proof fn lemma_hex_bytes_of_len(b: Seq<u8>)
    ensures
        hex_bytes_of(b).len() == 2 * b.len(),
    decreases b.len(),
{
    if b.len() > 0 {
        lemma_hex_bytes_of_len(b.drop_first());
    }
}

/// Relies on hex::encode: two lowercase hex digits per input byte, high
/// nibble first (the encoded string is ASCII, so its UTF-8 bytes are the
/// digits themselves).
#[verifier::external_body]
pub(crate) fn hex_encode(b: &Vec<u8>) -> (r: Vec<u8>)
    ensures
        r@ == hex_bytes_of(b@),
{
    hex::encode(b).into_bytes()
}

/// True when the first `d` hex digits of `h` are `'0'` (ASCII 48): the
/// proof-of-work admission predicate.
pub open spec fn meets_difficulty(h: Seq<u8>, d: nat) -> bool {
    &&& h.len() >= d
    &&& forall|i: int| 0 <= i < d ==> h[i] == 48u8
}

/// Decide whether a hex-digit string satisfies the difficulty predicate.
pub fn check_difficulty(h: &Vec<u8>, d: usize) -> (r: bool)
    ensures
        r == meets_difficulty(h@, d as nat),
{
    if h.len() < d {
        return false;
    }
    let mut i: usize = 0;
    while i < d
        invariant
            i <= d,
            d <= h@.len(),
            forall|j: int| 0 <= j < i ==> h@[j] == 48u8,
        decreases d - i,
    {
        if h[i] != 48u8 {
            return false;
        }
        i += 1;
    }
    true
}

} // verus!
