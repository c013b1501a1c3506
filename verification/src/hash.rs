//! The wide-digest collaborator: blake2b-256 under the two personalizations
//! the verifier relies on.
//!
//! The digests themselves are not restated here: each is a pure function of
//! its input bytes, so it is given a name that the callers' contracts speak
//! of exactly.

use vstd::prelude::*;

verus! {

/// The blake2b-256 digest, personalization `sparsemerkletree`, of a byte
/// sequence: the node-hashing function of both commitment trees.
pub uninterp spec fn smt_digest(data: Seq<u8>) -> Seq<u8>;

/// The blake2b-256 digest, personalization `ckb-default-hash`, of a byte
/// sequence: the content-hashing function for block hashes, tree keys and
/// public-key hashes.
pub uninterp spec fn chain_digest(data: Seq<u8>) -> Seq<u8>;

/// Relies on blake2b_ref::Blake2bBuilder / Blake2b::update / finalize:
/// blake2b with a 32-byte output, empty key and personalization
/// `sparsemerkletree`. The digest depends on the input bytes alone.
#[verifier::external_body]
pub fn smt_blake2b(data: &[u8]) -> (r: [u8; 32])
    ensures
        r@ == smt_digest(data@),
{
    let mut output = [0u8; 32];
    let mut hasher = blake2b_ref::Blake2bBuilder::new(32)
        .personal(b"sparsemerkletree")
        .build();
    hasher.update(data);
    hasher.finalize(&mut output);
    output
}

/// Relies on blake2b_ref::Blake2bBuilder / Blake2b::update / finalize:
/// blake2b with a 32-byte output, empty key and personalization
/// `ckb-default-hash`. The digest depends on the input bytes alone.
#[verifier::external_body]
pub fn chain_blake2b(data: &[u8]) -> (r: [u8; 32])
    ensures
        r@ == chain_digest(data@),
{
    let mut output = [0u8; 32];
    let mut hasher = blake2b_ref::Blake2bBuilder::new(32)
        .personal(b"ckb-default-hash")
        .build();
    hasher.update(data);
    hasher.finalize(&mut output);
    output
}

} // verus!
