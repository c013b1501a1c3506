//! The closed set of rejection reasons.
//!
//! Every check of the verifier is local and terminal: the first failure aborts
//! the whole verification with one of these kinds, and nothing is corrected or
//! defaulted silently.

use vstd::prelude::*;

verus! {

/// Why a state transition was rejected.
#[derive(Clone, Copy, Debug, PartialEq, Eq, Structural)]
pub enum Error {
    /// An input buffer fails the schema decode or one of its structural
    /// invariants.
    Encoding,
    /// A continuity or digest-equality check against the previous snapshot
    /// fails (or the post block count does not follow the block number).
    PrevGlobalState,
    /// The block's claimed post account state does not match the post
    /// snapshot.
    PostGlobalState,
    /// A compiled merkle proof fails to verify or is internally inconsistent.
    MerkleProof,
    /// The block is explicitly marked invalid by its validity flag.
    SubmitInvalidBlock,
    /// The signature-recovery primitive itself failed (a mechanical failure,
    /// not a forgery).
    Secp256k1,
    /// Recovery succeeded but the recovered key does not belong to the
    /// claimed aggregator.
    WrongSignature,
    /// The claimed aggregator is not registered or not eligible at this
    /// height.
    InvalidAggregator,
    /// A submitted transaction fails the dispatcher's checks.
    InvalidTransaction,
    /// A join request fails the dispatcher's checks.
    InvalidJoin,
}

} // verus!
