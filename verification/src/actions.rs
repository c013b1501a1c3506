//! The action dispatcher: after authorization, the per-block actions run in
//! a fixed, deterministic order — submit-transactions before
//! join-aggregator-pool — each independently fallible.
//!
//! A handler that finds no relevant payload is a no-op success. A failing
//! handler aborts the whole verification with the context unchanged: no
//! partial effect is ever visible. Handlers may extend the context's
//! derived fields but never touch the identity fields the transition
//! verifier established.

use vstd::prelude::*;

use crate::error::Error;
use crate::types::{Context, L2Block};

verus! {

/// Whether every submitted transaction names a sender account below the
/// given account count.
pub open spec fn spec_txs_ok_at(account_count: u32, block: L2Block) -> bool {
    forall|i: int|
        0 <= i < block.raw.transactions@.len() ==> (#[trigger] block.raw.transactions@[i]).from_id
            < account_count
}

/// Whether every submitted transaction names an existing sender account.
pub open spec fn spec_txs_ok(ctx: Context, block: L2Block) -> bool {
    spec_txs_ok_at(ctx.account_count, block)
}

/// The submit-transactions handler: every transaction must come from an
/// account that exists in the pre-state. No payload is a no-op success; the
/// context is never changed.
pub fn handle_submit_transactions(context: &mut Context, block: &L2Block) -> (r: Result<
    (),
    Error,
>)
    ensures
        *final(context) == *old(context),
        r is Ok <==> spec_txs_ok(*old(context), *block),
        r is Err ==> r == Err::<(), Error>(Error::InvalidTransaction),
{
    let mut i: usize = 0;
    while i < block.raw.transactions.len()
        invariant
            i <= block.raw.transactions@.len(),
            *context == *old(context),
            forall|m: int|
                0 <= m < i ==> (#[trigger] block.raw.transactions@[m]).from_id
                    < context.account_count,
        decreases block.raw.transactions@.len() - i,
    {
        if block.raw.transactions[i].from_id >= context.account_count {
            return Err(Error::InvalidTransaction);
        }
        i += 1;
    }
    Ok(())
}

/// Whether the join requests fit: the account count may grow but must stay
/// within its field.
pub open spec fn spec_join_ok_at(account_count: u32, block: L2Block) -> bool {
    account_count + block.raw.join_requests@.len() <= u32::MAX
}

/// Whether the join requests fit the context's account count.
pub open spec fn spec_join_ok(ctx: Context, block: L2Block) -> bool {
    spec_join_ok_at(ctx.account_count, block)
}

/// The join-aggregator-pool handler: each request registers one new
/// account, so the account count grows by the number of requests — never
/// shrinks — and the identity fields stay untouched. No payload is a no-op
/// success; on failure the context is unchanged.
pub fn handle_join(context: &mut Context, block: &L2Block) -> (r: Result<(), Error>)
    ensures
        r is Ok <==> spec_join_ok(*old(context), *block),
        r matches Ok(()) ==> final(context).account_count == old(context).account_count
            + block.raw.join_requests@.len(),
        r is Ok ==> final(context).number == old(context).number,
        r is Ok ==> final(context).aggregator_id == old(context).aggregator_id,
        r is Ok ==> final(context).kv_pairs@ == old(context).kv_pairs@,
        r is Ok ==> final(context).kv_merkle_proof@ == old(context).kv_merkle_proof@,
        r is Ok ==> final(context).rollup_type_hash@ == old(context).rollup_type_hash@,
        r is Ok ==> final(context).block_hash@ == old(context).block_hash@,
        r is Err ==> r == Err::<(), Error>(Error::InvalidJoin) && *final(context) == *old(context),
{
    let n = block.raw.join_requests.len();
    if n > (u32::MAX - context.account_count) as usize {
        return Err(Error::InvalidJoin);
    }
    context.account_count = context.account_count + n as u32;
    Ok(())
}

/// Runs the handlers in their fixed order, stopping at the first failure.
/// On any failure the context is exactly what the transition verifier
/// produced: no partial effect.
pub fn dispatch_actions(context: &mut Context, block: &L2Block) -> (r: Result<(), Error>)
    ensures
        r is Ok <==> spec_txs_ok(*old(context), *block) && spec_join_ok(*old(context), *block),
        r is Err ==> *final(context) == *old(context),
        r matches Err(e) ==> (e == Error::InvalidTransaction && !spec_txs_ok(
            *old(context),
            *block,
        )) || (e == Error::InvalidJoin && spec_txs_ok(*old(context), *block) && !spec_join_ok(
            *old(context),
            *block,
        )),
        r is Ok ==> final(context).account_count == old(context).account_count
            + block.raw.join_requests@.len(),
        r is Ok ==> final(context).number == old(context).number,
        r is Ok ==> final(context).aggregator_id == old(context).aggregator_id,
        r is Ok ==> final(context).block_hash@ == old(context).block_hash@,
{
    match handle_submit_transactions(context, block) {
        Ok(()) => (),
        Err(e) => {
            return Err(e);
        },
    }
    match handle_join(context, block) {
        Ok(()) => (),
        Err(e) => {
            return Err(e);
        },
    }
    Ok(())
}

} // verus!
