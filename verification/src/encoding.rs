//! Byte-level helpers shared by the canonical encodings of transactions
//! and blocks.

use vstd::prelude::*;

verus! {

/// Compare two byte vectors for equality of their contents.
pub fn bytes_equal(a: &Vec<u8>, b: &Vec<u8>) -> (r: bool)
    ensures
        r == (a@ == b@),
{
    if a.len() != b.len() {
        return false;
    }
    let mut i: usize = 0;
    while i < a.len()
        invariant
            i <= a@.len(),
            a@.len() == b@.len(),
            forall|j: int| 0 <= j < i ==> a@[j] == b@[j],
        decreases a@.len() - i,
    {
        if a[i] != b[i] {
            return false;
        }
        i += 1;
    }
    proof {
        assert(a@ =~= b@);
    }
    true
}

/// Copy a byte vector.
pub fn copy_bytes(a: &Vec<u8>) -> (r: Vec<u8>)
    ensures
        r@ == a@,
{
    let mut out: Vec<u8> = Vec::new();
    let mut i: usize = 0;
    while i < a.len()
        invariant
            i <= a@.len(),
            out@ == a@.take(i as int),
        decreases a@.len() - i,
    {
        out.push(a[i]);
        proof {
            assert(out@ =~= a@.take(i as int + 1));
        }
        i += 1;
    }
    proof {
        assert(a@.take(a@.len() as int) =~= a@);
    }
    out
}

/// Append a length-prefixed byte field to `out`: eight little-endian length
/// bytes followed by the field's own bytes.
pub open spec fn spec_len_prefixed(field: Seq<u8>) -> Seq<u8> {
    vstd::bytes::spec_u64_to_le_bytes(field.len() as u64) + field
}

/// Append `field`, length-prefixed, to `out`.
pub fn push_len_prefixed(out: &mut Vec<u8>, field: &Vec<u8>)
    ensures
        final(out)@ == old(out)@ + spec_len_prefixed(field@),
{
    let mut len_bytes = vstd::bytes::u64_to_le_bytes(field.len() as u64);
    out.append(&mut len_bytes);
    out.extend_from_slice(field.as_slice());
    proof {
        assert(out@ =~= old(out)@ + spec_len_prefixed(field@));
    }
}

/// Append the eight little-endian bytes of `x` to `out`.
pub fn push_u64_le(out: &mut Vec<u8>, x: u64)
    ensures
        final(out)@ == old(out)@ + vstd::bytes::spec_u64_to_le_bytes(x),
{
    let mut word = vstd::bytes::u64_to_le_bytes(x);
    out.append(&mut word);
}

/// Exhibit a position at which two distinct, equally long byte sequences
/// differ.
pub proof fn lemma_neq_equal_len_witness(a: Seq<u8>, b: Seq<u8>) -> (m: int)
    requires
        a != b,
        a.len() == b.len(),
    ensures
        0 <= m < a.len(),
        a[m] != b[m],
{
    assert(exists|i: int| 0 <= i < a.len() && a[i] != b[i]) by {
        if forall|i: int| 0 <= i < a.len() ==> a[i] == b[i] {
            assert(a =~= b);
        }
    }
    choose|i: int| 0 <= i < a.len() && a[i] != b[i]
}

/// A shared prefix keeps distinct, equally long suffixes distinct.
pub proof fn lemma_concat_differs_right(p: Seq<u8>, a: Seq<u8>, b: Seq<u8>)
    requires
        a != b,
        a.len() == b.len(),
    ensures
        p + a != p + b,
{
    let m = lemma_neq_equal_len_witness(a, b);
    assert((p + a)[p.len() + m] == a[m]);
    assert((p + b)[p.len() + m] == b[m]);
}

/// A shared suffix keeps distinct, equally long prefixes distinct.
pub proof fn lemma_concat_differs_left(a: Seq<u8>, b: Seq<u8>, s: Seq<u8>)
    requires
        a != b,
        a.len() == b.len(),
    ensures
        a + s != b + s,
{
    let m = lemma_neq_equal_len_witness(a, b);
    assert((a + s)[m] == a[m]);
    assert((b + s)[m] == b[m]);
}

/// Distinct 64-bit values have distinct little-endian encodings.
pub proof fn lemma_u64_le_bytes_injective(x: u64, y: u64)
    requires
        x != y,
    ensures
        vstd::bytes::spec_u64_to_le_bytes(x) != vstd::bytes::spec_u64_to_le_bytes(y),
{
    vstd::bytes::lemma_auto_spec_u64_to_from_le_bytes();
}

} // verus!
