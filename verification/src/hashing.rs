use vstd::prelude::*;

verus! {

/// The SHA-256 digest of a byte string, as the host's hash primitive
/// computes it. The digest depends on the input bytes alone; its value is
/// not axiomatized here, only named, so contracts downstream can say
/// "the stored hash equals the digest of this candidate" exactly.
pub uninterp spec fn sha256_of(bytes: Seq<u8>) -> Seq<u8>;

/// Relies on anchor_lang::solana_program::hash::hash: the SHA-256 digest of
/// the input bytes, a 32-byte value determined by the input alone.
#[verifier::external_body]
pub(crate) fn sha256(bytes: &[u8]) -> (r: [u8; 32])
    ensures
        r@ == sha256_of(bytes@),
{
    anchor_lang::solana_program::hash::hash(bytes).to_bytes()
}

/// The digest a candidate solution is judged by: what an operator computes
/// off-ledger to publish a round's solution hash, and what a submission is
/// hashed with before comparison.
pub fn hash_candidate(candidate: &[u8]) -> (r: [u8; 32])
    ensures
        r@ == sha256_of(candidate@),
{
    sha256(candidate)
}

/// True when two 32-byte digests hold the same bytes.
pub(crate) fn digest_equal(a: &[u8; 32], b: &[u8; 32]) -> (r: bool)
    ensures
        r <==> a@ == b@,
{
    let mut i: usize = 0;
    while i < 32
        invariant
            i <= 32,
            forall|j: int| 0 <= j < i ==> a@[j] == b@[j],
        decreases 32 - i,
    {
        if a[i] != b[i] {
            return false;
        }
        i += 1;
    }
    proof {
        assert(a@ =~= b@);
    }
    true
}

} // verus!
