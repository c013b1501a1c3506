//! The transition verifier: five sequential checks, short-circuiting on the
//! first failure, producing a verification context or a typed rejection.
//!
//! [`spec_transition_err`] gives the whole decision: which error comes back
//! on which input, and what the context carries on success;
//! `verify_l2block` returns exactly that verdict.

use vstd::prelude::*;

use crate::codec::{raw_wf, spec_encode_raw, spec_le_bytes};
use crate::codec::encode_raw_block;
use crate::error::Error;
use crate::hash::{chain_blake2b, chain_digest};
use crate::smt::{leaf_views, spec_sort_leaves_v, spec_verify_proof, zero_digest};
use crate::smt::{eq32, sort_leaves, verify_proof, zero32};
use crate::types::{AccountState, AggregatorEntry, AggregatorRegistry, Context, Digest,
    GlobalState, L2Block};

verus! {

/// The digest the block hash commits to: the raw header bytes under the
/// content hash.
pub open spec fn spec_block_hash(b: crate::types::RawBlock) -> Seq<u8> {
    chain_digest(spec_encode_raw(b))
}

/// Computes the block hash.
pub fn compute_block_hash(b: &crate::types::RawBlock) -> (r: Digest)
    requires
        raw_wf(*b),
    ensures
        r@ == spec_block_hash(*b),
{
    let buf = encode_raw_block(b);
    chain_blake2b(buf.as_slice())
}

/// The slot key of block `number` in the block-history tree: the content
/// hash of the number's eight little-endian bytes.
pub open spec fn spec_block_smt_key(number: u64) -> Seq<u8> {
    chain_digest(spec_le_bytes(number as nat, 8))
}

/// Computes the block slot key.
pub fn compute_block_smt_key(number: u64) -> (r: Digest)
    ensures
        r@ == spec_block_smt_key(number),
{
    let mut buf: Vec<u8> = Vec::new();
    crate::codec::push_le(&mut buf, number, 8);
    chain_blake2b(buf.as_slice())
}

/// Account summaries compared field by field.
pub open spec fn account_eq(a: AccountState, b: AccountState) -> bool {
    a.count == b.count && a.merkle_root@ == b.merkle_root@
}

/// Whether two adjacent claims of a sorted batch share a key.
pub open spec fn has_dup_key(s: Seq<(Seq<u8>, Seq<u8>)>) -> bool {
    exists|i: int| 0 <= i < s.len() - 1 && #[trigger] s[i].0 == s[i + 1].0
}

/// The first registry entry with the given identifier.
pub open spec fn spec_find_entry(entries: Seq<AggregatorEntry>, id: u32) -> Option<
    AggregatorEntry,
>
    decreases entries.len(),
{
    if entries.len() == 0 {
        None
    } else if entries[0].id == id {
        Some(entries[0])
    } else {
        spec_find_entry(entries.drop_first(), id)
    }
}

/// Whether the claimed aggregator is registered and eligible at this
/// height.
pub open spec fn spec_aggregator_ok(reg: AggregatorRegistry, id: u32) -> bool {
    spec_find_entry(reg.entries@, id) matches Some(e) && e.active
}

/// The verdict of the transition verifier, check by check in the order the
/// verifier runs them; `None` is acceptance. Duplicate claim keys are a
/// caller error: the context's mapping must have unique keys, so a batch
/// that repeats one is rejected as `Encoding`.
pub open spec fn spec_transition_err(
    block: L2Block,
    prev: GlobalState,
    post: GlobalState,
    reg: AggregatorRegistry,
) -> Option<Error> {
    let key = spec_block_smt_key(block.raw.number);
    let kvs = spec_sort_leaves_v(leaf_views(block.raw.kv_state@));
    if !raw_wf(block.raw) {
        Some(Error::Encoding)
    } else if !block.raw.valid {
        Some(Error::SubmitInvalidBlock)
    } else if block.raw.number != prev.block.count {
        Some(Error::PrevGlobalState)
    } else if spec_verify_proof(
        prev.block.merkle_root@,
        block.block_proof@,
        seq![(key, zero_digest())],
    ) != Ok::<bool, Error>(true) {
        Some(Error::MerkleProof)
    } else if block.raw.number == u64::MAX || post.block.count != block.raw.number + 1 {
        Some(Error::PrevGlobalState)
    } else if spec_verify_proof(
        post.block.merkle_root@,
        block.block_proof@,
        seq![(key, spec_block_hash(block.raw))],
    ) != Ok::<bool, Error>(true) {
        Some(Error::MerkleProof)
    } else if has_dup_key(kvs) {
        Some(Error::Encoding)
    } else if block.raw.kv_state@.len() > 0 && spec_verify_proof(
        prev.account.merkle_root@,
        block.kv_state_proof@,
        leaf_views(block.raw.kv_state@),
    ) != Ok::<bool, Error>(true) {
        Some(Error::MerkleProof)
    } else if !account_eq(block.raw.prev_account, prev.account) {
        Some(Error::PrevGlobalState)
    } else if !account_eq(block.raw.post_account, post.account) {
        Some(Error::PostGlobalState)
    } else if !spec_aggregator_ok(reg, block.raw.aggregator_id) {
        Some(Error::InvalidAggregator)
    } else {
        None
    }
}

/// What the context carries when the transition verifier accepts.
pub open spec fn context_matches(
    ctx: Context,
    block: L2Block,
    prev: GlobalState,
    rollup_type_hash: Digest,
) -> bool {
    &&& ctx.number == block.raw.number
    &&& ctx.aggregator_id == block.raw.aggregator_id
    &&& leaf_views(ctx.kv_pairs@) == spec_sort_leaves_v(leaf_views(block.raw.kv_state@))
    &&& ctx.kv_merkle_proof@ == block.kv_state_proof@
    &&& ctx.account_count == prev.account.count
    &&& ctx.rollup_type_hash@ == rollup_type_hash@
    &&& ctx.block_hash@ == spec_block_hash(block.raw)
}

/// Looks up an aggregator in the registry.
pub fn find_entry(reg: &AggregatorRegistry, id: u32) -> (r: Option<AggregatorEntry>)
    ensures
        r == spec_find_entry(reg.entries@, id),
{
    let mut i: usize = 0;
    proof {
        assert(reg.entries@.skip(0) =~= reg.entries@);
    }
    while i < reg.entries.len()
        invariant
            i <= reg.entries@.len(),
            spec_find_entry(reg.entries@, id) == spec_find_entry(reg.entries@.skip(i as int), id),
        decreases reg.entries@.len() - i,
    {
        proof {
            assert(reg.entries@.skip(i as int)[0] == reg.entries@[i as int]);
            assert(reg.entries@.skip(i as int).drop_first() =~= reg.entries@.skip(i as int + 1));
        }
        if reg.entries[i].id == id {
            return Some(reg.entries[i]);
        }
        i += 1;
    }
    proof {
        assert(reg.entries@.skip(reg.entries@.len() as int) =~= Seq::<AggregatorEntry>::empty());
    }
    None
}

/// The aggregator authorizer: the claimed aggregator must be registered and
/// eligible at this height; chain policy decides eligibility, read here
/// from the registry the host hands in.
pub fn verify_aggregator(ctx: &Context, reg: &AggregatorRegistry) -> (r: Result<(), Error>)
    ensures
        r is Ok <==> spec_aggregator_ok(*reg, ctx.aggregator_id),
        r is Err ==> r == Err::<(), Error>(Error::InvalidAggregator),
{
    match find_entry(reg, ctx.aggregator_id) {
        Some(e) => if e.active {
            Ok(())
        } else {
            Err(Error::InvalidAggregator)
        },
        None => Err(Error::InvalidAggregator),
    }
}

/// Compares two account summaries.
fn account_state_eq(a: &AccountState, b: &AccountState) -> (r: bool)
    ensures
        r == account_eq(*a, *b),
{
    a.count == b.count && eq32(&a.merkle_root, &b.merkle_root)
}

/// Whether a sorted batch of claims repeats a key.
fn check_dup_keys(sorted: &Vec<(Digest, Digest)>) -> (r: bool)
    ensures
        r == has_dup_key(leaf_views(sorted@)),
{
    let ghost lv = leaf_views(sorted@);
    if sorted.len() == 0 {
        return false;
    }
    let mut i: usize = 0;
    while i < sorted.len() - 1
        invariant
            sorted@.len() >= 1,
            i <= sorted@.len() - 1,
            lv == leaf_views(sorted@),
            lv.len() == sorted@.len(),
            forall|m: int| 0 <= m < i ==> #[trigger] lv[m].0 != lv[m + 1].0,
        decreases sorted@.len() - i,
    {
        if eq32(&sorted[i].0, &sorted[i + 1].0) {
            proof {
                assert(lv[i as int].0 == lv[i as int + 1].0);
            }
            return true;
        }
        i += 1;
    }
    false
}

/// The transition verifier. Runs the five checks of the state machine in
/// order, short-circuiting on the first failure, and returns the context on
/// acceptance: exactly the verdict of [`spec_transition_err`], with the
/// context fields pinned by [`context_matches`].
#[verifier::rlimit(100)]
#[verifier::spinoff_prover]
pub fn verify_l2block(
    l2block: &L2Block,
    prev_global_state: &GlobalState,
    post_global_state: &GlobalState,
    registry: &AggregatorRegistry,
    rollup_type_hash: Digest,
) -> (r: Result<Context, Error>)
    ensures
        r is Ok <==> spec_transition_err(
            *l2block,
            *prev_global_state,
            *post_global_state,
            *registry,
        ) is None,
        r matches Ok(ctx) ==> context_matches(ctx, *l2block, *prev_global_state, rollup_type_hash),
        r matches Err(e) ==> Some(e) == spec_transition_err(
            *l2block,
            *prev_global_state,
            *post_global_state,
            *registry,
        ),
{
    let raw = &l2block.raw;
    if raw.kv_state.len() > 0xffff || raw.transactions.len() > 0xffff || raw.join_requests.len()
        > 0xffff {
        return Err(Error::Encoding);
    }
    if !raw.valid {
        return Err(Error::SubmitInvalidBlock);
    }

    // Check pre block merkle proof: the slot of this block number must be
    // provably empty under the previous block root.
    let number = raw.number;
    if number != prev_global_state.block.count {
        return Err(Error::PrevGlobalState);
    }
    let block_smt_key = compute_block_smt_key(number);
    let mut exclusion: Vec<(Digest, Digest)> = Vec::new();
    exclusion.push((block_smt_key, zero32()));
    proof {
        assert(leaf_views(exclusion@) =~= seq![
            (spec_block_smt_key(number), zero_digest()),
        ]);
    }
    match verify_proof(&prev_global_state.block.merkle_root, &l2block.block_proof, &exclusion) {
        Ok(true) => (),
        Ok(false) => {
            return Err(Error::MerkleProof);
        },
        Err(_) => {
            return Err(Error::MerkleProof);
        },
    }

    // Check post block merkle proof: the same slot must now hold this
    // block's hash under the post block root, with the same proof binding
    // both trees to the same sibling structure.
    if number == u64::MAX || post_global_state.block.count != number + 1 {
        return Err(Error::PrevGlobalState);
    }
    let block_hash = compute_block_hash(raw);
    let mut inclusion: Vec<(Digest, Digest)> = Vec::new();
    inclusion.push((block_smt_key, block_hash));
    proof {
        assert(leaf_views(inclusion@) =~= seq![
            (spec_block_smt_key(number), spec_block_hash(l2block.raw)),
        ]);
    }
    match verify_proof(&post_global_state.block.merkle_root, &l2block.block_proof, &inclusion) {
        Ok(true) => (),
        Ok(false) => {
            return Err(Error::MerkleProof);
        },
        Err(_) => {
            return Err(Error::MerkleProof);
        },
    }

    // Check pre account merkle proof: the claimed prior values of the
    // written slots must verify under the previous account root.
    let kv_pairs = sort_leaves(&raw.kv_state);
    proof {
        crate::smt::lemma_sort_view(raw.kv_state@);
    }
    if check_dup_keys(&kv_pairs) {
        return Err(Error::Encoding);
    }
    // A block with no state writes claims nothing of the account tree, so
    // there is nothing to prove against the previous account root.
    if raw.kv_state.len() > 0 {
        match verify_proof(&prev_global_state.account.merkle_root, &l2block.kv_state_proof,
            &raw.kv_state) {
            Ok(true) => (),
            Ok(false) => {
                return Err(Error::MerkleProof);
            },
            Err(_) => {
                return Err(Error::MerkleProof);
            },
        }
    }

    // Check prev account state.
    if !account_state_eq(&raw.prev_account, &prev_global_state.account) {
        return Err(Error::PrevGlobalState);
    }

    // Check post account state. The post account merkle root is
    // deliberately not re-verified here: optimism defers that to the
    // challenge path outside this verifier.
    if !account_state_eq(&raw.post_account, &post_global_state.account) {
        return Err(Error::PostGlobalState);
    }

    // Generate context.
    let kv_merkle_proof = crate::codec::copy_bytes(&l2block.kv_state_proof);
    let context = Context {
        number,
        aggregator_id: raw.aggregator_id,
        kv_pairs,
        kv_merkle_proof,
        account_count: prev_global_state.account.count,
        rollup_type_hash,
        block_hash,
    };

    // Verify aggregator.
    match verify_aggregator(&context, registry) {
        Ok(()) => (),
        Err(e) => {
            return Err(e);
        },
    }

    Ok(context)
}

} // verus!
