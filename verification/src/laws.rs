//! The library's laws: properties of the verifier that hold of all inputs,
//! stated once and proved from the public contracts.

use vstd::prelude::*;

use crate::error::Error;
use crate::smt::{spec_verify_proof, zero_digest};
use crate::transition::{spec_block_hash, spec_block_smt_key, spec_transition_err};
use crate::types::{AggregatorRegistry, GlobalState, L2Block};

verus! {

/// Sequential continuity: every accepted transition has the block number
/// equal to the previous block count and the post block count exactly one
/// more; and once the block itself is well formed and marked valid, any
/// other relation between the counts is rejected as `PrevGlobalState`.
pub proof fn lemma_sequential_continuity(
    block: L2Block,
    prev: GlobalState,
    post: GlobalState,
    reg: AggregatorRegistry,
)
    ensures
        spec_transition_err(block, prev, post, reg) is None ==> block.raw.number
            == prev.block.count && post.block.count == prev.block.count + 1,
        crate::codec::raw_wf(block.raw) && block.raw.valid && block.raw.number
            != prev.block.count ==> spec_transition_err(block, prev, post, reg) == Some(
            Error::PrevGlobalState,
        ),
        crate::codec::raw_wf(block.raw) && block.raw.valid && block.raw.number
            == prev.block.count && spec_verify_proof(
            prev.block.merkle_root@,
            block.block_proof@,
            seq![(spec_block_smt_key(block.raw.number), zero_digest())],
        ) == Ok::<bool, Error>(true) && (block.raw.number == u64::MAX || post.block.count
            != block.raw.number + 1) ==> spec_transition_err(block, prev, post, reg) == Some(
            Error::PrevGlobalState,
        ),
{
}

/// Fail-fast: the first failing stage decides the verdict alone; no action
/// handler's outcome is visible once the transition or the authorization
/// has failed.
pub proof fn lemma_fail_fast(
    block: L2Block,
    prev: GlobalState,
    post: GlobalState,
    reg: AggregatorRegistry,
)
    ensures
        spec_transition_err(block, prev, post, reg) matches Some(e)
            ==> crate::spec_full_verdict(block, prev, post, reg) == Err::<(), Error>(e),
        spec_transition_err(block, prev, post, reg) is None
            && crate::signature::spec_signature_err_at(
            reg,
            block.raw.aggregator_id,
            block.signature@,
            spec_block_hash(block.raw),
        ) is Some ==> crate::spec_full_verdict(block, prev, post, reg) == Err::<(), Error>(
            crate::signature::spec_signature_err_at(
                reg,
                block.raw.aggregator_id,
                block.signature@,
                spec_block_hash(block.raw),
            )->Some_0,
        ),
{
}

/// Exclusion-then-inclusion pairing: an accepted transition always carries
/// one compiled proof that certifies, for the one slot key of this block
/// number, both the exclusion (zero value) under the previous block root
/// and the inclusion of this block's hash under the post block root.
pub proof fn lemma_exclusion_inclusion_pairing(
    block: L2Block,
    prev: GlobalState,
    post: GlobalState,
    reg: AggregatorRegistry,
)
    ensures
        spec_transition_err(block, prev, post, reg) is None ==> spec_verify_proof(
            prev.block.merkle_root@,
            block.block_proof@,
            seq![(spec_block_smt_key(block.raw.number), zero_digest())],
        ) == Ok::<bool, Error>(true) && spec_verify_proof(
            post.block.merkle_root@,
            block.block_proof@,
            seq![(spec_block_smt_key(block.raw.number), spec_block_hash(block.raw))],
        ) == Ok::<bool, Error>(true),
{
}

/// An explicitly invalid block is always rejected as `SubmitInvalidBlock`,
/// before any proof is looked at.
pub proof fn lemma_invalid_flag_rejected(
    block: L2Block,
    prev: GlobalState,
    post: GlobalState,
    reg: AggregatorRegistry,
)
    ensures
        crate::codec::raw_wf(block.raw) && !block.raw.valid ==> spec_transition_err(
            block,
            prev,
            post,
            reg,
        ) == Some(Error::SubmitInvalidBlock),
{
}

} // verus!
