//! The bit-exact input encoding: length-prefixed, version-tagged binary
//! buffers for the two global-state snapshots and the proposed block.
//!
//! Decoding validates every structural invariant (length prefix, version,
//! section counts, exact total length) before any field is trusted; a
//! failure is an `Encoding` error, never a silent default. The contracts
//! characterize exactly which byte sequences decode, and to what.

use vstd::prelude::*;

use crate::error::Error;
use crate::types::{AccountState, BlockState, Digest, GlobalState, JoinRequest, L2Block,
    L2Transaction, RawBlock};

verus! {

/// The value of a little-endian byte sequence.
pub open spec fn spec_le_val(s: Seq<u8>) -> nat
    decreases s.len(),
{
    if s.len() == 0 {
        0
    } else {
        s[0] as nat + 256 * spec_le_val(s.drop_first())
    }
}

/// The `n` little-endian bytes of a value.
pub open spec fn spec_le_bytes(x: nat, n: nat) -> Seq<u8>
    decreases n,
{
    if n == 0 {
        Seq::empty()
    } else {
        seq![(x % 256) as u8] + spec_le_bytes(x / 256, (n - 1) as nat)
    }
}

/// 256 to the `n`.
pub open spec fn pow256(n: nat) -> nat
    decreases n,
{
    if n == 0 {
        1
    } else {
        256 * pow256((n - 1) as nat)
    }
}

/// The first few powers of 256, unfolded once each.
pub proof fn lemma_pow256_values()
    ensures
        pow256(0) == 1,
        pow256(1) == 0x100,
        pow256(2) == 0x1_0000,
        pow256(3) == 0x100_0000,
        pow256(4) == 0x1_0000_0000,
        pow256(5) == 0x100_0000_0000,
        pow256(6) == 0x1_0000_0000_0000,
        pow256(7) == 0x100_0000_0000_0000,
        pow256(8) == 0x1_0000_0000_0000_0000,
{
    assert(pow256(0) == 1);
    assert(pow256(1) == 0x100);
    assert(pow256(2) == 0x1_0000);
    assert(pow256(3) == 0x100_0000);
    assert(pow256(4) == 0x1_0000_0000);
    assert(pow256(5) == 0x100_0000_0000);
    assert(pow256(6) == 0x1_0000_0000_0000);
    assert(pow256(7) == 0x100_0000_0000_0000);
    assert(pow256(8) == 0x1_0000_0000_0000_0000);
}

/// A little-endian sequence is bounded by 256 to its length.
proof fn lemma_le_val_bound(s: Seq<u8>)
    ensures
        spec_le_val(s) < pow256(s.len() as nat),
    decreases s.len(),
{
    if s.len() > 0 {
        lemma_le_val_bound(s.drop_first());
    }
}

/// Reads `n <= 8` little-endian bytes as a value.
fn read_le(v: &Vec<u8>, off: usize, n: usize) -> (r: u64)
    requires
        n <= 8,
        off + n <= v@.len(),
    ensures
        r as nat == spec_le_val(v@.subrange(off as int, off as int + n as int)),
{
    let len = v.len();
    proof {
        lemma_le_val_bound(v@.subrange(off as int, off as int + n as int));
        lemma_pow256_values();
    }
    let mut r: u64 = 0;
    let mut i: usize = n;
    while i > 0
        invariant
            i <= n <= 8,
            off + n <= v@.len() == len,
            r as nat == spec_le_val(v@.subrange(off + i, off as int + n as int)),
            spec_le_val(v@.subrange(off + i, off as int + n as int)) < pow256((n - i) as nat),
            forall|m: nat| m <= 8 ==> pow256(m) <= 0x1_0000_0000_0000_0000,
        decreases i,
    {
        let b = v[off + i - 1];
        proof {
            let whole = v@.subrange(off + i - 1, off as int + n as int);
            assert(whole.drop_first() =~= v@.subrange(off + i, off as int + n as int));
            assert(spec_le_val(whole) == b + 256 * spec_le_val(whole.drop_first()));
            lemma_le_val_bound(whole);
        }
        r = r * 256 + (b as u64);
        i -= 1;
    }
    proof {
        assert(v@.subrange(off as int, off as int + n as int) == v@.subrange(
            off + 0,
            off as int + n as int,
        ));
    }
    r
}

/// Appends the `n <= 8` little-endian bytes of `x`.
pub fn push_le(out: &mut Vec<u8>, x: u64, n: usize)
    requires
        n <= 8,
    ensures
        final(out)@ == old(out)@ + spec_le_bytes(x as nat, n as nat),
{
    let mut rest: u64 = x;
    let mut i: usize = 0;
    while i < n
        invariant
            i <= n <= 8,
            spec_le_bytes(x as nat, n as nat) == out@.subrange(
                old(out)@.len() as int,
                out@.len() as int,
            ) + spec_le_bytes(rest as nat, (n - i) as nat),
            out@.len() == old(out)@.len() + i,
            out@.subrange(0, old(out)@.len() as int) == old(out)@,
        decreases n - i,
    {
        let ghost done = out@.subrange(old(out)@.len() as int, out@.len() as int);
        out.push((rest % 256) as u8);
        proof {
            assert(out@.subrange(old(out)@.len() as int, out@.len() as int) =~= done + seq![
                (rest % 256) as u8,
            ]);
            assert(spec_le_bytes(rest as nat, (n - i) as nat) == seq![(rest % 256) as u8]
                + spec_le_bytes(rest as nat / 256, (n - i - 1) as nat));
            assert(done + seq![(rest % 256) as u8] + spec_le_bytes(
                rest as nat / 256,
                (n - i - 1) as nat,
            ) =~= done + (seq![(rest % 256) as u8] + spec_le_bytes(
                rest as nat / 256,
                (n - i - 1) as nat,
            )));
            assert(out@.subrange(0, old(out)@.len() as int) =~= old(out)@);
        }
        rest = rest / 256;
        i += 1;
    }
    proof {
        assert(spec_le_bytes(rest as nat, 0) =~= Seq::<u8>::empty());
        assert(out@ =~= out@.subrange(0, old(out)@.len() as int) + out@.subrange(
            old(out)@.len() as int,
            out@.len() as int,
        ));
        assert(out@.subrange(old(out)@.len() as int, out@.len() as int) + Seq::<u8>::empty()
            =~= out@.subrange(old(out)@.len() as int, out@.len() as int));
    }
}

} // verus!

verus! {

/// Reads `N` bytes as an array.
fn read_arr<const N: usize>(v: &Vec<u8>, off: usize) -> (r: [u8; N])
    requires
        off + N <= v@.len(),
    ensures
        r@ == v@.subrange(off as int, off as int + N as int),
{
    let mut data = [0u8; N];
    let len = v.len();
    let mut k: usize = 0;
    while k < N
        invariant
            k <= N,
            off + N <= len == v@.len(),
            forall|m: int| 0 <= m < k ==> data@[m] == v@[off + m],
        decreases N - k,
    {
        data[k] = v[off + k];
        k += 1;
    }
    proof {
        assert(data@ =~= v@.subrange(off as int, off as int + N as int));
    }
    data
}

/// Reads `n` bytes as a vector.
fn read_vec(v: &Vec<u8>, off: usize, n: usize) -> (r: Vec<u8>)
    requires
        off + n <= v@.len(),
    ensures
        r@ == v@.subrange(off as int, off as int + n as int),
{
    let mut data: Vec<u8> = Vec::new();
    let len = v.len();
    let mut k: usize = 0;
    while k < n
        invariant
            k <= n,
            off + n <= len == v@.len(),
            data@.len() == k,
            forall|m: int| 0 <= m < k ==> data@[m] == v@[off + m],
        decreases n - k,
    {
        data.push(v[off + k]);
        k += 1;
    }
    proof {
        assert(data@ =~= v@.subrange(off as int, off as int + n as int));
    }
    data
}

/// A fresh copy of a byte buffer.
pub fn copy_bytes(v: &Vec<u8>) -> (r: Vec<u8>)
    ensures
        r@ == v@,
{
    let r = read_vec(v, 0, v.len());
    proof {
        assert(v@.subrange(0, v@.len() as int) =~= v@);
    }
    r
}

/// Appends a slice to a buffer.
fn push_slice(out: &mut Vec<u8>, s: &[u8])
    ensures
        final(out)@ == old(out)@ + s@,
{
    let n = s.len();
    let mut k: usize = 0;
    while k < n
        invariant
            k <= n == s@.len(),
            out@ == old(out)@ + s@.take(k as int),
        decreases n - k,
    {
        let b = s[k];
        out.push(b);
        proof {
            assert(out@ =~= old(out)@ + s@.take(k as int + 1));
        }
        k += 1;
    }
    proof {
        assert(out@ =~= old(out)@ + s@);
    }
}

// ---------------------------------------------------------------------------
// Global state snapshots.
// ---------------------------------------------------------------------------

/// The byte sequences that decode as a global state: a 4-byte length prefix
/// covering the rest, a version tag, and the four fixed fields.
pub open spec fn global_state_wf_bytes(s: Seq<u8>) -> bool {
    &&& s.len() == 81
    &&& spec_le_val(s.subrange(0, 4)) == 77
    &&& s[4] == 1u8
}

/// How a decoded global state relates to its buffer.
pub open spec fn global_state_matches(g: GlobalState, s: Seq<u8>) -> bool {
    &&& g.block.count as nat == spec_le_val(s.subrange(5, 13))
    &&& g.block.merkle_root@ == s.subrange(13, 45)
    &&& g.account.count as nat == spec_le_val(s.subrange(45, 49))
    &&& g.account.merkle_root@ == s.subrange(49, 81)
}

/// Decodes a global-state snapshot. Exactly the well-formed buffers are
/// accepted, and the fields are read bit-exactly; anything else is an
/// `Encoding` error.
pub fn parse_global_state(data: &Vec<u8>) -> (r: Result<GlobalState, Error>)
    ensures
        r is Ok <==> global_state_wf_bytes(data@),
        r matches Ok(g) ==> global_state_matches(g, data@),
        r is Err ==> r == Err::<GlobalState, Error>(Error::Encoding),
{
    proof {
        lemma_pow256_values();
        lemma_le_val_bound(data@.subrange(45, 49));
    }
    if data.len() != 81 {
        return Err(Error::Encoding);
    }
    if read_le(data, 0, 4) != 77 {
        return Err(Error::Encoding);
    }
    if data[4] != 1 {
        return Err(Error::Encoding);
    }
    let block_count = read_le(data, 5, 8);
    let block_root = read_arr::<32>(data, 13);
    let account_count = read_le(data, 45, 4) as u32;
    let account_root = read_arr::<32>(data, 49);
    Ok(
        GlobalState {
            block: BlockState { count: block_count, merkle_root: block_root },
            account: AccountState { count: account_count, merkle_root: account_root },
        },
    )
}

/// The encoding of an account summary: count then root.
pub open spec fn spec_encode_account(a: AccountState) -> Seq<u8> {
    spec_le_bytes(a.count as nat, 4) + a.merkle_root@
}

/// The encoding a global state decodes from.
pub open spec fn spec_encode_global_state(g: GlobalState) -> Seq<u8> {
    spec_le_bytes(77, 4) + seq![1u8] + spec_le_bytes(g.block.count as nat, 8)
        + g.block.merkle_root@ + spec_le_bytes(g.account.count as nat, 4)
        + g.account.merkle_root@
}

/// Encodes a global-state snapshot; the result is exactly the buffer the
/// decoder reads those fields from.
pub fn encode_global_state(g: &GlobalState) -> (r: Vec<u8>)
    ensures
        r@ == spec_encode_global_state(*g),
{
    let mut out: Vec<u8> = Vec::new();
    push_le(&mut out, 77, 4);
    out.push(1u8);
    push_le(&mut out, g.block.count, 8);
    push_slice(&mut out, g.block.merkle_root.as_slice());
    push_le(&mut out, g.account.count as u64, 4);
    push_slice(&mut out, g.account.merkle_root.as_slice());
    proof {
        assert(out@ =~= spec_encode_global_state(*g));
    }
    out
}

} // verus!

verus! {

// ---------------------------------------------------------------------------
// Proposed blocks.
// ---------------------------------------------------------------------------

/// Number of key/value writes the buffer declares.
pub open spec fn l2_kv_count(s: Seq<u8>) -> nat {
    spec_le_val(s.subrange(90, 94))
}

/// Offset of the transaction count.
pub open spec fn l2_tx_cnt_off(s: Seq<u8>) -> int {
    94 + 64 * l2_kv_count(s) as int
}

/// Number of transactions the buffer declares.
pub open spec fn l2_tx_count(s: Seq<u8>) -> nat {
    spec_le_val(s.subrange(l2_tx_cnt_off(s), l2_tx_cnt_off(s) + 4))
}

/// Offset of the join-request count.
pub open spec fn l2_jn_cnt_off(s: Seq<u8>) -> int {
    l2_tx_cnt_off(s) + 4 + 8 * l2_tx_count(s) as int
}

/// Number of join requests the buffer declares.
pub open spec fn l2_jn_count(s: Seq<u8>) -> nat {
    spec_le_val(s.subrange(l2_jn_cnt_off(s), l2_jn_cnt_off(s) + 4))
}

/// Offset of the signature.
pub open spec fn l2_sig_off(s: Seq<u8>) -> int {
    l2_jn_cnt_off(s) + 4 + 20 * l2_jn_count(s) as int
}

/// Length of the block-history proof.
pub open spec fn l2_bp_len(s: Seq<u8>) -> nat {
    spec_le_val(s.subrange(l2_sig_off(s) + 65, l2_sig_off(s) + 69))
}

/// Offset of the block-history proof bytes.
pub open spec fn l2_bp_off(s: Seq<u8>) -> int {
    l2_sig_off(s) + 69
}

/// Length of the account-state proof.
pub open spec fn l2_kp_len(s: Seq<u8>) -> nat {
    spec_le_val(
        s.subrange(l2_bp_off(s) + l2_bp_len(s) as int, l2_bp_off(s) + l2_bp_len(s) as int + 4),
    )
}

/// Offset of the account-state proof bytes.
pub open spec fn l2_kp_off(s: Seq<u8>) -> int {
    l2_bp_off(s) + l2_bp_len(s) as int + 4
}

/// The byte sequences that decode as a block: prefix and version, a valid
/// flag that is 0 or 1, bounded section counts, every section in range, and
/// nothing after the last one.
pub open spec fn l2_wf_bytes(s: Seq<u8>) -> bool {
    &&& s.len() >= 94
    &&& spec_le_val(s.subrange(0, 4)) == s.len() - 4
    &&& s[4] == 1u8
    &&& (s[17] == 0u8 || s[17] == 1u8)
    &&& l2_kv_count(s) <= 0xffff
    &&& s.len() - l2_tx_cnt_off(s) >= 4
    &&& l2_tx_count(s) <= 0xffff
    &&& s.len() - l2_jn_cnt_off(s) >= 4
    &&& l2_jn_count(s) <= 0xffff
    &&& s.len() - l2_sig_off(s) >= 69
    &&& s.len() - l2_bp_off(s) >= l2_bp_len(s) + 4
    &&& s.len() == l2_kp_off(s) + l2_kp_len(s) as int
}

/// How a decoded account summary relates to 36 bytes of the buffer.
pub open spec fn account_matches(a: AccountState, s: Seq<u8>, off: int) -> bool {
    &&& a.count as nat == spec_le_val(s.subrange(off, off + 4))
    &&& a.merkle_root@ == s.subrange(off + 4, off + 36)
}

/// How a decoded block relates to its buffer, field by field.
pub open spec fn l2_matches(b: L2Block, s: Seq<u8>) -> bool {
    &&& b.raw.number as nat == spec_le_val(s.subrange(5, 13))
    &&& b.raw.aggregator_id as nat == spec_le_val(s.subrange(13, 17))
    &&& b.raw.valid == (s[17] == 1u8)
    &&& account_matches(b.raw.prev_account, s, 18)
    &&& account_matches(b.raw.post_account, s, 54)
    &&& b.raw.kv_state@.len() == l2_kv_count(s)
    &&& forall|i: int|
        0 <= i < l2_kv_count(s) ==> b.raw.kv_state@[i].0@ == s.subrange(
            94 + 64 * i,
            94 + 64 * i + 32,
        ) && b.raw.kv_state@[i].1@ == s.subrange(94 + 64 * i + 32, 94 + 64 * i + 64)
    &&& b.raw.transactions@.len() == l2_tx_count(s)
    &&& forall|i: int|
        0 <= i < l2_tx_count(s) ==> b.raw.transactions@[i].from_id as nat == spec_le_val(
            s.subrange(l2_tx_cnt_off(s) + 4 + 8 * i, l2_tx_cnt_off(s) + 4 + 8 * i + 4),
        ) && b.raw.transactions@[i].nonce as nat == spec_le_val(
            s.subrange(l2_tx_cnt_off(s) + 4 + 8 * i + 4, l2_tx_cnt_off(s) + 4 + 8 * i + 8),
        )
    &&& b.raw.join_requests@.len() == l2_jn_count(s)
    &&& forall|i: int|
        0 <= i < l2_jn_count(s) ==> b.raw.join_requests@[i].pubkey_hash@ == s.subrange(
            l2_jn_cnt_off(s) + 4 + 20 * i,
            l2_jn_cnt_off(s) + 4 + 20 * i + 20,
        )
    &&& b.signature@ == s.subrange(l2_sig_off(s), l2_sig_off(s) + 65)
    &&& b.block_proof@ == s.subrange(l2_bp_off(s), l2_bp_off(s) + l2_bp_len(s) as int)
    &&& b.kv_state_proof@ == s.subrange(l2_kp_off(s), l2_kp_off(s) + l2_kp_len(s) as int)
}

/// Decodes a proposed block. Exactly the well-formed buffers are accepted,
/// field by field, section by section; anything else is an `Encoding`
/// error.
#[verifier::rlimit(100)]
#[verifier::spinoff_prover]
pub fn parse_l2block(data: &Vec<u8>) -> (r: Result<L2Block, Error>)
    ensures
        r is Ok <==> l2_wf_bytes(data@),
        r matches Ok(b) ==> l2_matches(b, data@),
        r is Err ==> r == Err::<L2Block, Error>(Error::Encoding),
{
    proof {
        lemma_pow256_values();
        lemma_le_val_bound(data@.subrange(13, 17));
    }
    let len = data.len();
    if len < 94 {
        return Err(Error::Encoding);
    }
    if read_le(data, 0, 4) != (len - 4) as u64 {
        proof {
            lemma_le_val_bound(data@.subrange(0, 4));
        }
        return Err(Error::Encoding);
    }
    if data[4] != 1 {
        return Err(Error::Encoding);
    }
    let valid_byte = data[17];
    if valid_byte > 1 {
        return Err(Error::Encoding);
    }
    let number = read_le(data, 5, 8);
    let aggregator_id = read_le(data, 13, 4) as u32;
    let prev_account = AccountState {
        count: read_le(data, 18, 4) as u32,
        merkle_root: read_arr::<32>(data, 22),
    };
    let post_account = AccountState {
        count: read_le(data, 54, 4) as u32,
        merkle_root: read_arr::<32>(data, 58),
    };
    proof {
        lemma_le_val_bound(data@.subrange(18, 22));
        lemma_le_val_bound(data@.subrange(54, 58));
        lemma_le_val_bound(data@.subrange(90, 94));
    }
    let kv_count64 = read_le(data, 90, 4);
    if kv_count64 > 0xffff {
        return Err(Error::Encoding);
    }
    let kvn = kv_count64 as usize;
    if len - 94 < 64 * kvn + 4 {
        return Err(Error::Encoding);
    }
    let mut kv_state: Vec<(Digest, Digest)> = Vec::new();
    let mut i: usize = 0;
    while i < kvn
        invariant
            i <= kvn,
            kvn == l2_kv_count(data@),
            len == data@.len(),
            len - 94 >= 64 * kvn + 4,
            kv_state@.len() == i,
            forall|m: int|
                0 <= m < i ==> kv_state@[m].0@ == data@.subrange(94 + 64 * m, 94 + 64 * m + 32)
                    && kv_state@[m].1@ == data@.subrange(94 + 64 * m + 32, 94 + 64 * m + 64),
        decreases kvn - i,
    {
        let k = read_arr::<32>(data, 94 + 64 * i);
        let v = read_arr::<32>(data, 94 + 64 * i + 32);
        kv_state.push((k, v));
        i += 1;
    }
    let tx_cnt_off: usize = 94 + 64 * kvn;
    proof {
        assert(tx_cnt_off == l2_tx_cnt_off(data@));
        lemma_le_val_bound(data@.subrange(tx_cnt_off as int, tx_cnt_off as int + 4));
    }
    let tx_count64 = read_le(data, tx_cnt_off, 4);
    if tx_count64 > 0xffff {
        return Err(Error::Encoding);
    }
    let txn = tx_count64 as usize;
    if len - tx_cnt_off - 4 < 8 * txn + 4 {
        return Err(Error::Encoding);
    }
    let mut transactions: Vec<L2Transaction> = Vec::new();
    let mut i: usize = 0;
    while i < txn
        invariant
            i <= txn,
            txn == l2_tx_count(data@),
            tx_cnt_off == l2_tx_cnt_off(data@),
            len == data@.len(),
            tx_cnt_off + 4 + 8 * txn + 4 <= len,
            transactions@.len() == i,
            forall|m: int|
                0 <= m < i ==> transactions@[m].from_id as nat == spec_le_val(
                    data@.subrange(
                        tx_cnt_off + 4 + 8 * m,
                        tx_cnt_off + 4 + 8 * m + 4,
                    ),
                ) && transactions@[m].nonce as nat == spec_le_val(
                    data@.subrange(
                        tx_cnt_off + 4 + 8 * m + 4,
                        tx_cnt_off + 4 + 8 * m + 8,
                    ),
                ),
        decreases txn - i,
    {
        proof {
            lemma_pow256_values();
            lemma_le_val_bound(
                data@.subrange(tx_cnt_off + 4 + 8 * i, tx_cnt_off + 4 + 8 * i + 4),
            );
            lemma_le_val_bound(
                data@.subrange(tx_cnt_off + 4 + 8 * i + 4, tx_cnt_off + 4 + 8 * i + 8),
            );
        }
        let from_id = read_le(data, tx_cnt_off + 4 + 8 * i, 4) as u32;
        let nonce = read_le(data, tx_cnt_off + 4 + 8 * i + 4, 4) as u32;
        transactions.push(L2Transaction { from_id, nonce });
        i += 1;
    }
    let jn_cnt_off: usize = tx_cnt_off + 4 + 8 * txn;
    proof {
        assert(jn_cnt_off == l2_jn_cnt_off(data@));
        lemma_le_val_bound(data@.subrange(jn_cnt_off as int, jn_cnt_off as int + 4));
    }
    let jn_count64 = read_le(data, jn_cnt_off, 4);
    if jn_count64 > 0xffff {
        return Err(Error::Encoding);
    }
    let jnn = jn_count64 as usize;
    if len - jn_cnt_off - 4 < 20 * jnn + 69 {
        return Err(Error::Encoding);
    }
    let mut join_requests: Vec<JoinRequest> = Vec::new();
    let mut i: usize = 0;
    while i < jnn
        invariant
            i <= jnn,
            jnn == l2_jn_count(data@),
            jn_cnt_off == l2_jn_cnt_off(data@),
            len == data@.len(),
            jn_cnt_off + 4 + 20 * jnn + 69 <= len,
            join_requests@.len() == i,
            forall|m: int|
                0 <= m < i ==> join_requests@[m].pubkey_hash@ == data@.subrange(
                    jn_cnt_off + 4 + 20 * m,
                    jn_cnt_off + 4 + 20 * m + 20,
                ),
        decreases jnn - i,
    {
        let ph = read_arr::<20>(data, jn_cnt_off + 4 + 20 * i);
        join_requests.push(JoinRequest { pubkey_hash: ph });
        i += 1;
    }
    let sig_off: usize = jn_cnt_off + 4 + 20 * jnn;
    proof {
        assert(sig_off == l2_sig_off(data@));
        lemma_le_val_bound(data@.subrange(sig_off + 65, sig_off + 69));
    }
    let signature = read_arr::<65>(data, sig_off);
    let bp_len64 = read_le(data, sig_off + 65, 4);
    let remaining = len - sig_off - 69;
    if (remaining as u64) < bp_len64 {
        return Err(Error::Encoding);
    }
    let bpn = bp_len64 as usize;
    if remaining - bpn < 4 {
        return Err(Error::Encoding);
    }
    let bp_off: usize = sig_off + 69;
    let block_proof = read_vec(data, bp_off, bpn);
    proof {
        assert(bp_off == l2_bp_off(data@));
        lemma_le_val_bound(data@.subrange(bp_off + bpn, bp_off + bpn + 4));
    }
    let kp_len64 = read_le(data, bp_off + bpn, 4);
    let kp_off: usize = bp_off + bpn + 4;
    proof {
        assert(kp_off == l2_kp_off(data@));
    }
    if ((len - kp_off) as u64) != kp_len64 {
        return Err(Error::Encoding);
    }
    let kpn = kp_len64 as usize;
    let kv_state_proof = read_vec(data, kp_off, kpn);
    let raw = RawBlock {
        number,
        aggregator_id,
        valid: valid_byte == 1,
        prev_account,
        post_account,
        kv_state,
        transactions,
        join_requests,
    };
    Ok(L2Block { raw, signature, kv_state_proof, block_proof })
}

} // verus!

verus! {

/// The encoding of the key/value section, in order.
pub open spec fn spec_encode_kvs(s: Seq<(Digest, Digest)>) -> Seq<u8>
    decreases s.len(),
{
    if s.len() == 0 {
        Seq::empty()
    } else {
        spec_encode_kvs(s.drop_last()) + s.last().0@ + s.last().1@
    }
}

/// The encoding of the transaction section, in order.
pub open spec fn spec_encode_txs(s: Seq<L2Transaction>) -> Seq<u8>
    decreases s.len(),
{
    if s.len() == 0 {
        Seq::empty()
    } else {
        spec_encode_txs(s.drop_last()) + spec_le_bytes(s.last().from_id as nat, 4)
            + spec_le_bytes(s.last().nonce as nat, 4)
    }
}

/// The encoding of the join-request section, in order.
pub open spec fn spec_encode_joins(s: Seq<JoinRequest>) -> Seq<u8>
    decreases s.len(),
{
    if s.len() == 0 {
        Seq::empty()
    } else {
        spec_encode_joins(s.drop_last()) + s.last().pubkey_hash@
    }
}

/// The section counts a raw block may carry: what one bounded working set
/// can hold, and what the count fields can express.
pub open spec fn raw_wf(b: RawBlock) -> bool {
    &&& b.kv_state@.len() <= 0xffff
    &&& b.transactions@.len() <= 0xffff
    &&& b.join_requests@.len() <= 0xffff
}

/// The raw-block bytes: exactly what the block hash commits to.
pub open spec fn spec_encode_raw(b: RawBlock) -> Seq<u8> {
    spec_le_bytes(b.number as nat, 8) + spec_le_bytes(b.aggregator_id as nat, 4) + seq![
        if b.valid {
            1u8
        } else {
            0u8
        },
    ] + spec_encode_account(b.prev_account) + spec_encode_account(b.post_account)
        + spec_le_bytes(b.kv_state@.len() as nat, 4) + spec_encode_kvs(b.kv_state@)
        + spec_le_bytes(b.transactions@.len() as nat, 4) + spec_encode_txs(b.transactions@)
        + spec_le_bytes(b.join_requests@.len() as nat, 4) + spec_encode_joins(b.join_requests@)
}

/// Appends an account summary.
fn push_account(out: &mut Vec<u8>, a: &AccountState)
    ensures
        final(out)@ == old(out)@ + spec_encode_account(*a),
{
    push_le(out, a.count as u64, 4);
    push_slice(out, a.merkle_root.as_slice());
    proof {
        assert(out@ =~= old(out)@ + spec_encode_account(*a));
    }
}

/// Encodes the raw header fields of a block, the bytes its hash commits to.
#[verifier::rlimit(100)]
#[verifier::spinoff_prover]
pub fn encode_raw_block(b: &RawBlock) -> (r: Vec<u8>)
    requires
        raw_wf(*b),
    ensures
        r@ == spec_encode_raw(*b),
{
    let mut out: Vec<u8> = Vec::new();
    push_le(&mut out, b.number, 8);
    push_le(&mut out, b.aggregator_id as u64, 4);
    out.push(if b.valid { 1u8 } else { 0u8 });
    push_account(&mut out, &b.prev_account);
    push_account(&mut out, &b.post_account);
    push_le(&mut out, b.kv_state.len() as u64, 4);
    let ghost kv_prefix = out@;
    let mut i: usize = 0;
    while i < b.kv_state.len()
        invariant
            i <= b.kv_state@.len(),
            out@ == kv_prefix + spec_encode_kvs(b.kv_state@.take(i as int)),
        decreases b.kv_state@.len() - i,
    {
        push_slice(&mut out, b.kv_state[i].0.as_slice());
        push_slice(&mut out, b.kv_state[i].1.as_slice());
        proof {
            assert(b.kv_state@.take(i as int + 1).drop_last() =~= b.kv_state@.take(i as int));
            assert(out@ =~= kv_prefix + spec_encode_kvs(b.kv_state@.take(i as int + 1)));
        }
        i += 1;
    }
    proof {
        assert(b.kv_state@.take(b.kv_state@.len() as int) =~= b.kv_state@);
    }
    push_le(&mut out, b.transactions.len() as u64, 4);
    let ghost tx_prefix = out@;
    let mut i: usize = 0;
    while i < b.transactions.len()
        invariant
            i <= b.transactions@.len(),
            out@ == tx_prefix + spec_encode_txs(b.transactions@.take(i as int)),
        decreases b.transactions@.len() - i,
    {
        push_le(&mut out, b.transactions[i].from_id as u64, 4);
        push_le(&mut out, b.transactions[i].nonce as u64, 4);
        proof {
            assert(b.transactions@.take(i as int + 1).drop_last() =~= b.transactions@.take(
                i as int,
            ));
            assert(out@ =~= tx_prefix + spec_encode_txs(b.transactions@.take(i as int + 1)));
        }
        i += 1;
    }
    proof {
        assert(b.transactions@.take(b.transactions@.len() as int) =~= b.transactions@);
    }
    push_le(&mut out, b.join_requests.len() as u64, 4);
    let ghost jn_prefix = out@;
    let mut i: usize = 0;
    while i < b.join_requests.len()
        invariant
            i <= b.join_requests@.len(),
            out@ == jn_prefix + spec_encode_joins(b.join_requests@.take(i as int)),
        decreases b.join_requests@.len() - i,
    {
        push_slice(&mut out, b.join_requests[i].pubkey_hash.as_slice());
        proof {
            assert(b.join_requests@.take(i as int + 1).drop_last() =~= b.join_requests@.take(
                i as int,
            ));
            assert(out@ =~= jn_prefix + spec_encode_joins(b.join_requests@.take(i as int + 1)));
        }
        i += 1;
    }
    proof {
        assert(b.join_requests@.take(b.join_requests@.len() as int) =~= b.join_requests@);
        assert(out@ =~= spec_encode_raw(*b));
    }
    out
}

/// The sizes a block value may have for its buffer to carry it.
pub open spec fn l2_value_wf(b: L2Block) -> bool {
    &&& raw_wf(b.raw)
    &&& b.block_proof@.len() <= 0xffffff
    &&& b.kv_state_proof@.len() <= 0xffffff
}

/// The buffer a block value encodes to.
pub open spec fn spec_encode_l2block(b: L2Block) -> Seq<u8> {
    let body = seq![1u8] + spec_encode_raw(b.raw) + b.signature@ + spec_le_bytes(
        b.block_proof@.len() as nat,
        4,
    ) + b.block_proof@ + spec_le_bytes(b.kv_state_proof@.len() as nat, 4) + b.kv_state_proof@;
    spec_le_bytes(body.len() as nat, 4) + body
}

/// Encodes a whole proposed block, length prefix included.
pub fn encode_l2block(b: &L2Block) -> (r: Vec<u8>)
    requires
        l2_value_wf(*b),
    ensures
        r@ == spec_encode_l2block(*b),
{
    let mut body: Vec<u8> = Vec::new();
    body.push(1u8);
    let raw = encode_raw_block(&b.raw);
    push_slice(&mut body, raw.as_slice());
    push_slice(&mut body, b.signature.as_slice());
    push_le(&mut body, b.block_proof.len() as u64, 4);
    push_slice(&mut body, b.block_proof.as_slice());
    push_le(&mut body, b.kv_state_proof.len() as u64, 4);
    push_slice(&mut body, b.kv_state_proof.as_slice());
    proof {
        assert(body@ =~= seq![1u8] + spec_encode_raw(b.raw) + b.signature@ + spec_le_bytes(
            b.block_proof@.len() as nat,
            4,
        ) + b.block_proof@ + spec_le_bytes(b.kv_state_proof@.len() as nat, 4)
            + b.kv_state_proof@);
    }
    let mut out: Vec<u8> = Vec::new();
    push_le(&mut out, body.len() as u64, 4);
    push_slice(&mut out, body.as_slice());
    out
}

} // verus!

verus! {

/// The length of a little-endian encoding.
proof fn lemma_le_bytes_len(x: nat, n: nat)
    ensures
        spec_le_bytes(x, n).len() == n,
    decreases n,
{
    if n > 0 {
        lemma_le_bytes_len(x / 256, (n - 1) as nat);
    }
}

/// Encoding a value and reading it back is the identity.
pub proof fn lemma_le_round_trip(x: nat, n: nat)
    requires
        x < pow256(n),
    ensures
        spec_le_val(spec_le_bytes(x, n)) == x,
    decreases n,
{
    if n > 0 {
        lemma_le_bytes_len(x / 256, (n - 1) as nat);
        assert(spec_le_bytes(x, n).drop_first() =~= spec_le_bytes(x / 256, (n - 1) as nat));
        assert(x / 256 < pow256((n - 1) as nat)) by (nonlinear_arith)
            requires
                x < 256 * pow256((n - 1) as nat),
        ;
        lemma_le_round_trip(x / 256, (n - 1) as nat);
    }
}

/// A global state decodes from its own encoding: the encoder emits a
/// well-formed buffer, and the fields read back are the fields written.
pub proof fn lemma_global_state_round_trip(g: GlobalState)
    ensures
        global_state_wf_bytes(spec_encode_global_state(g)),
        global_state_matches(g, spec_encode_global_state(g)),
{
    let s = spec_encode_global_state(g);
    lemma_pow256_values();
    lemma_le_bytes_len(77, 4);
    lemma_le_bytes_len(g.block.count as nat, 8);
    lemma_le_bytes_len(g.account.count as nat, 4);
    assert(s.len() == 81);
    assert(s.subrange(0, 4) =~= spec_le_bytes(77, 4));
    lemma_le_round_trip(77, 4);
    assert(s[4] == 1u8);
    assert(s.subrange(5, 13) =~= spec_le_bytes(g.block.count as nat, 8));
    lemma_le_round_trip(g.block.count as nat, 8);
    assert(s.subrange(13, 45) =~= g.block.merkle_root@);
    assert(s.subrange(45, 49) =~= spec_le_bytes(g.account.count as nat, 4));
    lemma_le_round_trip(g.account.count as nat, 4);
    assert(s.subrange(49, 81) =~= g.account.merkle_root@);
}

} // verus!
