//! SHA-256 digests and their comparison.
use vstd::prelude::*;

verus! {

/// The SHA-256 digest of a byte string, as `rns_crypto::sha256::sha256`
/// computes it.
pub uninterp spec fn sha256_of(data: Seq<u8>) -> Seq<u8>;

/// `rns_crypto::sha256::sha256`: the digest depends on the bytes alone. How it is
/// computed is left unsaid.
#[verifier::external_body]
pub(crate) fn full_hash(data: &[u8]) -> (r: [u8; 32])
    ensures
        r@ == sha256_of(data@),
{
    rns_crypto::sha256::sha256(data)
}

/// Whether two digests are equal. Every byte is looked at, whatever the others
/// are.
pub fn digests_match(left: &[u8; 32], right: &[u8; 32]) -> (r: bool)
    ensures
        r == (left@ == right@),
{
    let mut difference: u8 = 0;
    for i in 0..32
        invariant
            difference == 0 <==> (forall|j: int| 0 <= j < i ==> left@[j] == right@[j]),
    {
        let a: u8 = left[i];
        let b: u8 = right[i];
        let before: u8 = difference;
        difference = before | (a ^ b);
        assert((before | (a ^ b)) == 0 <==> before == 0 && a == b) by (bit_vector);
        proof {
            if difference == 0 {
                assert forall|j: int| 0 <= j < i + 1 implies left@[j] == right@[j] by {
                    if j == i {
                        assert(left@[j] == a && right@[j] == b);
                    }
                }
            }
        }
    }
    assert(difference == 0 ==> left@ =~= right@);
    difference == 0
}

} // verus!
