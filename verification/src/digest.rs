//! SHA-256 digests of whole contents and of sealed chunks.

use sha2::Digest;
use vstd::prelude::*;

verus! {

/// Length in bytes of every digest.
pub const DIGEST_LEN: usize = 32;

/// The SHA-256 digest of `data`, as `sha2::Sha256::digest` computes it.
pub uninterp spec fn sha256(data: Seq<u8>) -> Seq<u8>;

/// Trusted: calls `sha2::Sha256::digest` (from the `Digest` trait) and copies
/// the output array into a vector. The contract names the result `sha256` of
/// the input bytes and claims that it is `DIGEST_LEN` bytes long, which is the
/// output size that `sha2` declares for SHA-256.
#[verifier::external_body]
pub(crate) fn sha256_of(data: &[u8]) -> (digest: Vec<u8>)
    ensures
        digest@ == sha256(data@),
        digest@.len() == DIGEST_LEN,
{
    sha2::Sha256::digest(data).to_vec()
}

/// Digest of a whole content, for integrity checks on the reassembled asset.
pub fn compute_full_hash(content: Vec<u8>) -> (digest: Vec<u8>)
    ensures
        digest@ == sha256(content@),
        digest@.len() == DIGEST_LEN,
{
    sha256_of(content.as_slice())
}

/// Digests are deterministic: two digests computed of the same bytes are the
/// same bytes.
pub proof fn lemma_digest_deterministic(data: Seq<u8>, first: Seq<u8>, second: Seq<u8>)
    requires
        first == sha256(data),
        second == sha256(data),
    ensures
        first == second,
{
}

} // verus!
