//! The aggregator signature check: recover a public key from the 65-byte
//! recoverable signature and the block hash, hash it with the content
//! digest, and compare the low 20 bytes with the aggregator's registered
//! public-key hash.
//!
//! The recovery primitive is a capability collaborator: its result is named,
//! not restated, and a failure of the primitive itself is a dedicated error
//! kind, never conflated with a forgery.

use vstd::prelude::*;

use crate::error::Error;
use crate::hash::{chain_blake2b, chain_digest};
use crate::transition::spec_find_entry;
use crate::types::{AggregatorRegistry, Context, Digest, L2Block};

verus! {

/// The public key (compressed, 33 bytes) that secp256k1 recovery yields for
/// a 65-byte recoverable signature over a 32-byte message digest, or
/// nothing when the signature is unparseable or recovery fails. A pure
/// function of the two inputs.
pub uninterp spec fn recover_spec(signature: Seq<u8>, message: Seq<u8>) -> Option<Seq<u8>>;

/// Relies on libsecp256k1::recover, with Signature::parse_standard_slice,
/// RecoveryId::parse, Message::parse converting the inputs and
/// PublicKey::serialize_compressed converting the result: recovery is a
/// pure function of signature and message.
#[verifier::external_body]
fn recover_pubkey(signature: &[u8; 65], message: &Digest) -> (r: Result<[u8; 33], Error>)
    ensures
        r matches Ok(k) ==> recover_spec(signature@, message@) == Some(k@),
        r matches Err(e) ==> recover_spec(signature@, message@) is None && e == Error::Secp256k1,
{
    let sig = libsecp256k1::Signature::parse_standard_slice(&signature[..64])
        .map_err(|_| Error::Secp256k1)?;
    let rec_id = libsecp256k1::RecoveryId::parse(signature[64]).map_err(|_| Error::Secp256k1)?;
    let msg = libsecp256k1::Message::parse(message);
    let pubkey = libsecp256k1::recover(&msg, &sig, &rec_id).map_err(|_| Error::Secp256k1)?;
    Ok(pubkey.serialize_compressed())
}

/// Whether the low 20 bytes of a digest equal a 20-byte hash.
fn digest_low20_eq(d: &Digest, h: &[u8; 20]) -> (r: bool)
    ensures
        r == (d@.take(20) == h@),
{
    let mut k: usize = 0;
    while k < 20
        invariant
            k <= 20,
            forall|j: int| 0 <= j < k ==> d@[j] == h@[j],
        decreases 20 - k,
    {
        if d[k] != h[k] {
            proof {
                assert(d@.take(20)[k as int] != h@[k as int]);
            }
            return false;
        }
        k += 1;
    }
    proof {
        assert(d@.take(20) =~= h@);
    }
    true
}

/// The verdict of the signature check over plain values: who must have
/// signed, and what for. `None` is acceptance.
pub open spec fn spec_signature_err_at(
    reg: AggregatorRegistry,
    aggregator_id: u32,
    signature: Seq<u8>,
    message: Seq<u8>,
) -> Option<Error> {
    match spec_find_entry(reg.entries@, aggregator_id) {
        None => Some(Error::InvalidAggregator),
        Some(entry) => match recover_spec(signature, message) {
            None => Some(Error::Secp256k1),
            Some(pk) => if chain_digest(pk).take(20) == entry.pubkey_hash@ {
                None
            } else {
                Some(Error::WrongSignature)
            },
        },
    }
}

/// The verdict of the signature check for a context: the signature must
/// recover to the key registered for the context's aggregator, over the
/// block hash the context carries.
pub open spec fn spec_signature_err(
    ctx: Context,
    reg: AggregatorRegistry,
    block: L2Block,
) -> Option<Error> {
    spec_signature_err_at(reg, ctx.aggregator_id, block.signature@, ctx.block_hash@)
}

/// Verifies the block signature: succeeds exactly when the signature
/// recovers to the public key whose content-hash prefix is registered for
/// the context's aggregator. A recovery failure is `Secp256k1`; a mismatch
/// is `WrongSignature`; both are rejections, never skipped.
pub fn verify_block_signature(
    context: &Context,
    registry: &AggregatorRegistry,
    l2block: &L2Block,
) -> (r: Result<(), Error>)
    ensures
        r == match spec_signature_err(*context, *registry, *l2block) {
            None => Ok::<(), Error>(()),
            Some(e) => Err::<(), Error>(e),
        },
{
    let entry = match crate::transition::find_entry(registry, context.aggregator_id) {
        Some(e) => e,
        None => {
            return Err(Error::InvalidAggregator);
        },
    };
    let pubkey_hash = entry.pubkey_hash;
    let message = &context.block_hash;
    let pubkey = match recover_pubkey(&l2block.signature, message) {
        Ok(pk) => pk,
        Err(e) => {
            return Err(e);
        },
    };
    let actual_pubkey_hash = chain_blake2b(pubkey.as_slice());
    if !digest_low20_eq(&actual_pubkey_hash, &pubkey_hash) {
        return Err(Error::WrongSignature);
    }
    Ok(())
}

} // verus!
