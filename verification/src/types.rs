//! Typed views over the committed snapshots, the proposed block, the
//! aggregator registry, and the transient verification context.
//!
//! Every value here is built fresh from the call's inputs, lives for one
//! verification, and is discarded on return; nothing is cached across calls.

use vstd::prelude::*;

verus! {

/// A 256-bit digest, the key and value domain of both commitment trees.
pub type Digest = [u8; 32];

/// Summary of the account commitment tree: how many accounts exist and the
/// root of the sparse tree of account storage slots.
#[derive(Clone, Copy, Debug, PartialEq, Eq)]
#[verifier::ext_equal]
pub struct AccountState {
    pub count: u32,
    pub merkle_root: Digest,
}

/// Summary of the block-history commitment tree: how many blocks have been
/// committed and the root of the sparse tree keyed by block number.
#[derive(Clone, Copy, Debug, PartialEq, Eq)]
#[verifier::ext_equal]
pub struct BlockState {
    pub count: u64,
    pub merkle_root: Digest,
}

/// A committed chain-level snapshot; two instances exist per verification
/// call (previous and post).
#[derive(Clone, Copy, Debug, PartialEq, Eq)]
#[verifier::ext_equal]
pub struct GlobalState {
    pub block: BlockState,
    pub account: AccountState,
}

/// A transaction submitted inside a block; the dispatcher checks the sender
/// slot, everything else about its execution is outside this verifier.
#[derive(Clone, Copy, Debug, PartialEq, Eq, Structural)]
pub struct L2Transaction {
    pub from_id: u32,
    pub nonce: u32,
}

/// A request to join the aggregator set, registering one new account for the
/// given public-key hash.
#[derive(Clone, Copy, Debug, PartialEq, Eq)]
#[verifier::ext_equal]
pub struct JoinRequest {
    pub pubkey_hash: [u8; 20],
}

/// The header fields of a proposed block, exactly what the block hash
/// commits to.
#[derive(Clone, Debug)]
pub struct RawBlock {
    pub number: u64,
    pub aggregator_id: u32,
    pub valid: bool,
    pub prev_account: AccountState,
    pub post_account: AccountState,
    /// The key/value writes the block performs, as prior values to be proved
    /// against the previous account root.
    pub kv_state: Vec<(Digest, Digest)>,
    pub transactions: Vec<L2Transaction>,
    pub join_requests: Vec<JoinRequest>,
}

/// A proposed block: the raw header plus the signature and the two compiled
/// merkle proofs that accompany it.
#[derive(Clone, Debug)]
pub struct L2Block {
    pub raw: RawBlock,
    pub signature: [u8; 65],
    pub kv_state_proof: Vec<u8>,
    pub block_proof: Vec<u8>,
}

/// One registered aggregator: its identifier, the low 20 bytes of the digest
/// of its public key, and whether it is currently eligible to author blocks.
#[derive(Clone, Copy, Debug, PartialEq, Eq)]
pub struct AggregatorEntry {
    pub id: u32,
    pub pubkey_hash: [u8; 20],
    pub active: bool,
}

/// The aggregator registry: external chain state the authorizer queries but
/// does not own. The host hands it in as plain data.
#[derive(Clone, Debug)]
pub struct AggregatorRegistry {
    pub entries: Vec<AggregatorEntry>,
}

/// The transient verification context, built once per call by the transition
/// verifier and consumed by the authorizer and the action dispatcher.
#[derive(Clone, Debug)]
pub struct Context {
    pub number: u64,
    pub aggregator_id: u32,
    /// Deduplicated key/value pairs, sorted by key, unique keys.
    pub kv_pairs: Vec<(Digest, Digest)>,
    pub kv_merkle_proof: Vec<u8>,
    pub account_count: u32,
    pub rollup_type_hash: Digest,
    pub block_hash: Digest,
}

} // verus!
