//! On-chain verifier for an optimistic layer-2 rollup.
//!
//! Given a claimed previous global state, a proposed block and a claimed
//! resulting global state, the library decides deterministically whether the
//! transition is valid: it checks the block-history merkle proofs against both
//! snapshots, the account-state proof against the previous snapshot, the
//! structural continuity of the two snapshots, the aggregator's signature, and
//! finally dispatches the per-block actions.

pub mod actions;
pub mod codec;
pub mod error;
pub mod hash;
pub mod laws;
pub mod signature;
pub mod smt;
pub mod transition;
pub mod types;

use vstd::prelude::*;

use crate::actions::{dispatch_actions, spec_join_ok_at, spec_txs_ok_at};
use crate::codec::{global_state_matches, global_state_wf_bytes, l2_matches, l2_wf_bytes,
    parse_global_state, parse_l2block};
use crate::error::Error;
use crate::signature::{spec_signature_err_at, verify_block_signature};
use crate::transition::{spec_block_hash, spec_transition_err, verify_l2block};
use crate::types::{AggregatorRegistry, Digest, GlobalState, L2Block};

verus! {

/// The verdict of the whole verification over decoded values: the
/// transition verifier's checks, then the signature, then the action
/// handlers, in that order, first failure wins.
pub open spec fn spec_full_verdict(
    block: L2Block,
    prev: GlobalState,
    post: GlobalState,
    reg: AggregatorRegistry,
) -> Result<(), Error> {
    match spec_transition_err(block, prev, post, reg) {
        Some(e) => Err(e),
        None => match spec_signature_err_at(
            reg,
            block.raw.aggregator_id,
            block.signature@,
            spec_block_hash(block.raw),
        ) {
            Some(e) => Err(e),
            None => if !spec_txs_ok_at(prev.account.count, block) {
                Err(Error::InvalidTransaction)
            } else if !spec_join_ok_at(prev.account.count, block) {
                Err(Error::InvalidJoin)
            } else {
                Ok(())
            },
        },
    }
}

/// The whole verification from the three input buffers the host hands in:
/// decode each buffer (a failure is `Encoding`), verify the transition,
/// check the signature, run the action handlers. The transition is accepted
/// or rejected atomically: nothing is partially applied.
/// Two blocks decoded from the same buffer agree on every field the
/// verdict reads, and on the raw encoding the block hash commits to.
#[verifier::rlimit(100)]
#[verifier::spinoff_prover]
proof fn lemma_block_fields_pinned(b1: L2Block, b2: L2Block, bb: Seq<u8>)
    requires
        l2_matches(b1, bb),
        l2_matches(b2, bb),
    ensures
        b1.raw.number == b2.raw.number,
        b1.raw.aggregator_id == b2.raw.aggregator_id,
        b1.raw.valid == b2.raw.valid,
        b1.raw.prev_account == b2.raw.prev_account,
        b1.raw.post_account == b2.raw.post_account,
        b1.raw.kv_state@ == b2.raw.kv_state@,
        b1.raw.transactions@ == b2.raw.transactions@,
        b1.raw.join_requests@ == b2.raw.join_requests@,
        b1.signature@ == b2.signature@,
        b1.block_proof@ == b2.block_proof@,
        b1.kv_state_proof@ == b2.kv_state_proof@,
        crate::codec::spec_encode_raw(b1.raw) == crate::codec::spec_encode_raw(b2.raw),
{
    broadcast use vstd::array::group_array_axioms;

    assert(b1.raw.prev_account.merkle_root =~= b2.raw.prev_account.merkle_root);
    assert(b1.raw.prev_account =~= b2.raw.prev_account);
    assert(b1.raw.post_account.merkle_root =~= b2.raw.post_account.merkle_root);
    assert(b1.raw.post_account =~= b2.raw.post_account);
    assert forall|i: int| 0 <= i < b1.raw.kv_state@.len() implies b1.raw.kv_state@[i]
        == b2.raw.kv_state@[i] by {
        assert(b1.raw.kv_state@[i].0@ =~= b2.raw.kv_state@[i].0@);
        assert(b1.raw.kv_state@[i].1@ =~= b2.raw.kv_state@[i].1@);
    }
    assert(b1.raw.kv_state@ =~= b2.raw.kv_state@);
    assert forall|i: int| 0 <= i < b1.raw.transactions@.len() implies b1.raw.transactions@[i]
        == b2.raw.transactions@[i] by {
        assert(b1.raw.transactions@[i].from_id == b2.raw.transactions@[i].from_id);
        assert(b1.raw.transactions@[i].nonce == b2.raw.transactions@[i].nonce);
    }
    assert(b1.raw.transactions@ =~= b2.raw.transactions@);
    assert forall|i: int| 0 <= i < b1.raw.join_requests@.len() implies b1.raw.join_requests@[i]
        == b2.raw.join_requests@[i] by {
        assert(b1.raw.join_requests@[i].pubkey_hash =~= b2.raw.join_requests@[i].pubkey_hash);
        assert(b1.raw.join_requests@[i] =~= b2.raw.join_requests@[i]);
    }
    assert(b1.raw.join_requests@ =~= b2.raw.join_requests@);
    assert(b1.signature@ == b2.signature@);
    assert(crate::codec::spec_encode_raw(b1.raw) == crate::codec::spec_encode_raw(b2.raw));
}

/// Two decoded blocks of the same buffer get the same verdict, whatever
/// snapshots decoded alongside them: the verdict reads only what the
/// buffers pin down.
#[verifier::rlimit(100)]
#[verifier::spinoff_prover]
pub proof fn lemma_verdict_respects_bytes(
    b1: L2Block,
    b2: L2Block,
    pg1: GlobalState,
    pg2: GlobalState,
    sg1: GlobalState,
    sg2: GlobalState,
    bb: Seq<u8>,
    pb: Seq<u8>,
    sb: Seq<u8>,
    reg: AggregatorRegistry,
)
    requires
        l2_matches(b1, bb),
        l2_matches(b2, bb),
        global_state_matches(pg1, pb),
        global_state_matches(pg2, pb),
        global_state_matches(sg1, sb),
        global_state_matches(sg2, sb),
    ensures
        spec_full_verdict(b1, pg1, sg1, reg) == spec_full_verdict(b2, pg2, sg2, reg),
{
    broadcast use vstd::array::group_array_axioms;

    lemma_block_fields_pinned(b1, b2, bb);
    assert(pg1.block.merkle_root =~= pg2.block.merkle_root);
    assert(pg1.account.merkle_root =~= pg2.account.merkle_root);
    assert(pg1 =~~= pg2);
    assert(sg1.block.merkle_root =~= sg2.block.merkle_root);
    assert(sg1.account.merkle_root =~= sg2.account.merkle_root);
    assert(sg1 =~~= sg2);
    assert(spec_transition_err(b1, pg1, sg1, reg) == spec_transition_err(b2, pg2, sg2, reg));
    assert(spec_signature_err_at(
        reg,
        b1.raw.aggregator_id,
        b1.signature@,
        spec_block_hash(b1.raw),
    ) == spec_signature_err_at(
        reg,
        b2.raw.aggregator_id,
        b2.signature@,
        spec_block_hash(b2.raw),
    ));
    assert(spec_full_verdict(b1, pg1, sg1, reg) == spec_full_verdict(b2, pg2, sg2, reg));
}

/// The whole verification over decoded values: transition, signature,
/// actions, first failure wins; exactly [`spec_full_verdict`].
#[verifier::rlimit(100)]
#[verifier::spinoff_prover]
pub fn run_verification(
    l2block: &L2Block,
    prev_global_state: &GlobalState,
    post_global_state: &GlobalState,
    registry: &AggregatorRegistry,
    rollup_type_hash: Digest,
) -> (r: Result<(), Error>)
    ensures
        r == spec_full_verdict(*l2block, *prev_global_state, *post_global_state, *registry),
{
    let mut context = match verify_l2block(
        l2block,
        prev_global_state,
        post_global_state,
        registry,
        rollup_type_hash,
    ) {
        Ok(ctx) => ctx,
        Err(e) => {
            return Err(e);
        },
    };
    match verify_block_signature(&context, registry, l2block) {
        Ok(()) => (),
        Err(e) => {
            return Err(e);
        },
    }
    let r = dispatch_actions(&mut context, l2block);
    proof {
        assert(spec_signature_err_at(
            *registry,
            l2block.raw.aggregator_id,
            l2block.signature@,
            spec_block_hash(l2block.raw),
        ) is None);
        let v = spec_full_verdict(*l2block, *prev_global_state, *post_global_state, *registry);
        if r is Ok {
            assert(r->Ok_0 == v->Ok_0);
            assert(r =~= Ok::<(), Error>(r->Ok_0));
            assert(v =~= Ok::<(), Error>(v->Ok_0));
        } else {
            assert(r == Err::<(), Error>(r->Err_0));
            assert(v == Err::<(), Error>(v->Err_0));
            assert(r->Err_0 == v->Err_0);
        }
    }
    r
}

pub fn verify_state_transition(
    prev_bytes: &Vec<u8>,
    block_bytes: &Vec<u8>,
    post_bytes: &Vec<u8>,
    registry: &AggregatorRegistry,
    rollup_type_hash: Digest,
) -> (r: Result<(), Error>)
    ensures
        !global_state_wf_bytes(prev_bytes@) ==> r == Err::<(), Error>(Error::Encoding),
        !global_state_wf_bytes(post_bytes@) ==> r == Err::<(), Error>(Error::Encoding),
        !l2_wf_bytes(block_bytes@) ==> r == Err::<(), Error>(Error::Encoding),
        global_state_wf_bytes(prev_bytes@) && global_state_wf_bytes(post_bytes@) && l2_wf_bytes(
            block_bytes@,
        ) ==> forall|b: L2Block, pg: GlobalState, sg: GlobalState|
            #[trigger] l2_matches(b, block_bytes@) && #[trigger] global_state_matches(
                pg,
                prev_bytes@,
            ) && #[trigger] global_state_matches(sg, post_bytes@) ==> r == spec_full_verdict(
                b,
                pg,
                sg,
                *registry,
            ),
{
    let prev_global_state = match parse_global_state(prev_bytes) {
        Ok(g) => g,
        Err(e) => {
            return Err(e);
        },
    };
    let post_global_state = match parse_global_state(post_bytes) {
        Ok(g) => g,
        Err(e) => {
            return Err(e);
        },
    };
    let l2block = match parse_l2block(block_bytes) {
        Ok(b) => b,
        Err(e) => {
            return Err(e);
        },
    };
    let r = run_verification(
        &l2block,
        &prev_global_state,
        &post_global_state,
        registry,
        rollup_type_hash,
    );
    proof {
        assert forall|b: L2Block, pg: GlobalState, sg: GlobalState|
            #[trigger] l2_matches(b, block_bytes@) && #[trigger] global_state_matches(
                pg,
                prev_bytes@,
            ) && #[trigger] global_state_matches(sg, post_bytes@) implies r == spec_full_verdict(
            b,
            pg,
            sg,
            *registry,
        ) by {
            lemma_verdict_respects_bytes(
                b,
                l2block,
                pg,
                prev_global_state,
                sg,
                post_global_state,
                block_bytes@,
                prev_bytes@,
                post_bytes@,
                *registry,
            );
        }
    }
    r
}

} // verus!
