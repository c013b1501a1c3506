//! The merkle proof verifier: checks a compiled inclusion/exclusion proof
//! against a claimed 256-bit root for a batch of (key, value) pairs.
//!
//! A compiled proof is a byte program over a small stack machine. The
//! machine's meaning is written down once as a specification
//! ([`spec_compute_root`]) over the named node-hash digest, and the
//! executable verifier is proved to return exactly what the specification
//! says, for every byte sequence: malformed programs yield an error, never a
//! crash and never an implicit acceptance.
//!
//! Both logical trees (block history and account state) use this one
//! primitive with different key domains. It is a pure function: no state, no
//! mutation of any tree.

use vstd::prelude::*;

use crate::error::Error;
use crate::hash::{smt_blake2b, smt_digest};
use crate::types::Digest;

verus! {

/// The canonical zero digest: absent keys commit to it, and a pair of zero
/// children merges to it.
pub open spec fn zero_digest() -> Seq<u8> {
    Seq::new(32, |i: int| 0u8)
}

/// Bit `i` of a 256-bit key, numbered from the low end of each byte.
pub open spec fn spec_get_bit(key: Seq<u8>, i: u8) -> bool {
    (key[(i / 8) as int] >> (i % 8)) & 1 != 0
}

/// The key with bit `i` set.
pub open spec fn spec_set_bit(key: Seq<u8>, i: u8) -> Seq<u8> {
    key.update((i / 8) as int, (key[(i / 8) as int] | (1u8 << (i % 8))) as u8)
}

/// The key with every bit below `start` cleared.
pub open spec fn spec_copy_bits(key: Seq<u8>, start: u8) -> Seq<u8> {
    Seq::new(
        32,
        |j: int|
            if j < (start / 8) as int {
                0u8
            } else if j == (start / 8) as int && start % 8 != 0 {
                (key[j] & (0xffu8 << (start % 8))) as u8
            } else {
                key[j]
            },
    )
}

/// The path of the parent node of `key` at `height`: the key with all bits
/// up to and including `height` cleared.
pub open spec fn spec_parent_path(key: Seq<u8>, height: u8) -> Seq<u8> {
    if height == 255 {
        zero_digest()
    } else {
        spec_copy_bits(key, (height + 1) as u8)
    }
}

/// A node value on the machine's stack: either a plain digest or a node
/// merged with a run of zero siblings, kept unhashed so that further zero
/// merges stay cheap.
pub enum SpecMergeValue {
    Value(Seq<u8>),
    MergeWithZero { base_node: Seq<u8>, zero_bits: Seq<u8>, zero_count: u8 },
}

/// The digest a merge value stands for.
pub open spec fn smv_hash(v: SpecMergeValue) -> Seq<u8> {
    match v {
        SpecMergeValue::Value(d) => d,
        SpecMergeValue::MergeWithZero { base_node, zero_bits, zero_count } => smt_digest(
            seq![2u8] + base_node + zero_bits + seq![zero_count],
        ),
    }
}

/// Whether a merge value is the canonical zero.
pub open spec fn smv_is_zero(v: SpecMergeValue) -> bool {
    v matches SpecMergeValue::Value(d) && d == zero_digest()
}

/// The digest of a base node: height, node path and value.
pub open spec fn spec_hash_base_node(height: u8, key: Seq<u8>, value: Seq<u8>) -> Seq<u8> {
    smt_digest(seq![height] + key + value)
}

/// Merging a non-zero node with a zero sibling at `height`.
pub open spec fn spec_merge_with_zero(
    height: u8,
    node_key: Seq<u8>,
    v: SpecMergeValue,
    set_bit: bool,
) -> SpecMergeValue {
    match v {
        SpecMergeValue::Value(d) => {
            let zero_bits = if set_bit {
                spec_set_bit(zero_digest(), height)
            } else {
                zero_digest()
            };
            SpecMergeValue::MergeWithZero {
                base_node: spec_hash_base_node(height, node_key, d),
                zero_bits,
                zero_count: 1u8,
            }
        },
        SpecMergeValue::MergeWithZero { base_node, zero_bits, zero_count } => {
            let zb = if set_bit {
                spec_set_bit(zero_bits, height)
            } else {
                zero_bits
            };
            let zc: u8 = if zero_count == 255 {
                0u8
            } else {
                (zero_count + 1) as u8
            };
            SpecMergeValue::MergeWithZero { base_node, zero_bits: zb, zero_count: zc }
        },
    }
}

/// Merging two sibling nodes at `height` under the parent path `node_key`.
/// Two zeros merge to zero; one zero folds into a zero run; otherwise the
/// children are hashed together with the node position.
pub open spec fn spec_merge(
    height: u8,
    node_key: Seq<u8>,
    lhs: SpecMergeValue,
    rhs: SpecMergeValue,
) -> SpecMergeValue {
    if smv_is_zero(lhs) && smv_is_zero(rhs) {
        SpecMergeValue::Value(zero_digest())
    } else if smv_is_zero(lhs) {
        spec_merge_with_zero(height, node_key, rhs, true)
    } else if smv_is_zero(rhs) {
        spec_merge_with_zero(height, node_key, lhs, false)
    } else {
        SpecMergeValue::Value(
            smt_digest(seq![1u8, height] + node_key + smv_hash(lhs) + smv_hash(rhs)),
        )
    }
}

// ---------------------------------------------------------------------------
// Executable counterparts.
// ---------------------------------------------------------------------------

/// Executable merge value; its view is the specification-level value.
#[derive(Clone, Debug)]
pub enum MergeValue {
    Value(Digest),
    MergeWithZero { base_node: Digest, zero_bits: Digest, zero_count: u8 },
}

impl View for MergeValue {
    type V = SpecMergeValue;

    open spec fn view(&self) -> SpecMergeValue {
        match self {
            MergeValue::Value(d) => SpecMergeValue::Value(d@),
            MergeValue::MergeWithZero { base_node, zero_bits, zero_count } =>
                SpecMergeValue::MergeWithZero {
                    base_node: base_node@,
                    zero_bits: zero_bits@,
                    zero_count: *zero_count,
                },
        }
    }
}

/// The all-zero digest.
pub fn zero32() -> (r: Digest)
    ensures
        r@ == zero_digest(),
{
    let r = [0u8; 32];
    proof {
        assert(r@ =~= zero_digest());
    }
    r
}

/// Whether a digest is the canonical zero.
pub fn is_zero32(d: &Digest) -> (r: bool)
    ensures
        r == (d@ == zero_digest()),
{
    let mut k: usize = 0;
    while k < 32
        invariant
            k <= 32,
            forall|j: int| 0 <= j < k ==> d@[j] == 0u8,
        decreases 32 - k,
    {
        if d[k] != 0 {
            proof {
                assert(d@[k as int] != zero_digest()[k as int]);
            }
            return false;
        }
        k += 1;
    }
    proof {
        assert(d@ =~= zero_digest());
    }
    true
}

/// Byte equality of two digests.
pub fn eq32(a: &Digest, b: &Digest) -> (r: bool)
    ensures
        r == (a@ == b@),
{
    let mut k: usize = 0;
    while k < 32
        invariant
            k <= 32,
            forall|j: int| 0 <= j < k ==> a@[j] == b@[j],
        decreases 32 - k,
    {
        if a[k] != b[k] {
            proof {
                assert(a@[k as int] != b@[k as int]);
            }
            return false;
        }
        k += 1;
    }
    proof {
        assert(a@ =~= b@);
    }
    true
}

/// Bit `i` of a key.
fn get_bit32(key: &Digest, i: u8) -> (r: bool)
    ensures
        r == spec_get_bit(key@, i),
{
    let byte_pos = (i / 8) as usize;
    let bit_pos = i % 8;
    (key[byte_pos] >> bit_pos) & 1 != 0
}

/// The key with bit `i` set.
fn set_bit32(key: Digest, i: u8) -> (r: Digest)
    ensures
        r@ == spec_set_bit(key@, i),
{
    let mut key = key;
    let byte_pos = (i / 8) as usize;
    let bit_pos = i % 8;
    key[byte_pos] = key[byte_pos] | (1u8 << bit_pos);
    key
}

/// The key with every bit below `start` cleared.
fn copy_bits32(key: &Digest, start: u8) -> (r: Digest)
    ensures
        r@ == spec_copy_bits(key@, start),
{
    let mut target = [0u8; 32];
    let start_byte = (start / 8) as usize;
    let mut j: usize = start_byte;
    while j < 32
        invariant
            start_byte <= j <= 32,
            start_byte == (start / 8) as usize,
            forall|m: int| 0 <= m < start_byte ==> target@[m] == 0u8,
            forall|m: int| start_byte <= m < j ==> target@[m] == key@[m],
            forall|m: int| j <= m < 32 ==> target@[m] == 0u8,
        decreases 32 - j,
    {
        target[j] = key[j];
        j += 1;
    }
    let remain = start % 8;
    if remain > 0 {
        target[start_byte] = target[start_byte] & (0xffu8 << remain);
    }
    proof {
        assert(target@ =~= spec_copy_bits(key@, start));
    }
    target
}

/// The parent path of `key` at `height`.
fn parent_path32(key: &Digest, height: u8) -> (r: Digest)
    ensures
        r@ == spec_parent_path(key@, height),
{
    if height == 255 {
        zero32()
    } else {
        copy_bits32(key, height + 1)
    }
}

/// Appends a 32-byte digest to a buffer.
fn push_arr32(out: &mut Vec<u8>, a: &Digest)
    ensures
        final(out)@ == old(out)@ + a@,
{
    let mut k: usize = 0;
    while k < 32
        invariant
            k <= 32,
            out@ == old(out)@ + a@.take(k as int),
        decreases 32 - k,
    {
        out.push(a[k]);
        proof {
            assert(out@ =~= old(out)@ + a@.take(k as int + 1));
        }
        k += 1;
    }
    proof {
        assert(out@ =~= old(out)@ + a@);
    }
}

/// The digest a merge value stands for.
fn mv_hash(v: &MergeValue) -> (r: Digest)
    ensures
        r@ == smv_hash(v@),
{
    match v {
        MergeValue::Value(d) => *d,
        MergeValue::MergeWithZero { base_node, zero_bits, zero_count } => {
            let mut buf: Vec<u8> = Vec::new();
            buf.push(2u8);
            push_arr32(&mut buf, base_node);
            push_arr32(&mut buf, zero_bits);
            buf.push(*zero_count);
            proof {
                assert(buf@ =~= seq![2u8] + base_node@ + zero_bits@ + seq![*zero_count]);
            }
            smt_blake2b(buf.as_slice())
        },
    }
}

/// Whether a merge value is the canonical zero.
fn mv_is_zero(v: &MergeValue) -> (r: bool)
    ensures
        r == smv_is_zero(v@),
{
    match v {
        MergeValue::Value(d) => is_zero32(d),
        MergeValue::MergeWithZero { .. } => false,
    }
}

/// The digest of a base node.
fn hash_base_node(height: u8, key: &Digest, value: &Digest) -> (r: Digest)
    ensures
        r@ == spec_hash_base_node(height, key@, value@),
{
    let mut buf: Vec<u8> = Vec::new();
    buf.push(height);
    push_arr32(&mut buf, key);
    push_arr32(&mut buf, value);
    proof {
        assert(buf@ =~= seq![height] + key@ + value@);
    }
    smt_blake2b(buf.as_slice())
}

/// Merging a non-zero node with a zero sibling.
fn merge_with_zero(height: u8, node_key: &Digest, v: &MergeValue, set_bit: bool) -> (r: MergeValue)
    ensures
        r@ == spec_merge_with_zero(height, node_key@, v@, set_bit),
{
    match v {
        MergeValue::Value(d) => {
            let zero_bits = if set_bit {
                set_bit32(zero32(), height)
            } else {
                zero32()
            };
            let base_node = hash_base_node(height, node_key, d);
            MergeValue::MergeWithZero { base_node, zero_bits, zero_count: 1u8 }
        },
        MergeValue::MergeWithZero { base_node, zero_bits, zero_count } => {
            let zb = if set_bit {
                set_bit32(*zero_bits, height)
            } else {
                *zero_bits
            };
            let zc: u8 = if *zero_count == 255 {
                0u8
            } else {
                *zero_count + 1
            };
            MergeValue::MergeWithZero { base_node: *base_node, zero_bits: zb, zero_count: zc }
        },
    }
}

/// Merging two sibling nodes at `height` under parent path `node_key`.
fn merge_values(height: u8, node_key: &Digest, lhs: &MergeValue, rhs: &MergeValue) -> (r:
    MergeValue)
    ensures
        r@ == spec_merge(height, node_key@, lhs@, rhs@),
{
    let lz = mv_is_zero(lhs);
    let rz = mv_is_zero(rhs);
    if lz && rz {
        MergeValue::Value(zero32())
    } else if lz {
        merge_with_zero(height, node_key, rhs, true)
    } else if rz {
        merge_with_zero(height, node_key, lhs, false)
    } else {
        let lh = mv_hash(lhs);
        let rh = mv_hash(rhs);
        let mut buf: Vec<u8> = Vec::new();
        buf.push(1u8);
        buf.push(height);
        push_arr32(&mut buf, node_key);
        push_arr32(&mut buf, &lh);
        push_arr32(&mut buf, &rh);
        proof {
            assert(buf@ =~= seq![1u8, height] + node_key@ + smv_hash(lhs@) + smv_hash(rhs@));
        }
        MergeValue::Value(smt_blake2b(buf.as_slice()))
    }
}

} // verus!

verus! {

// ---------------------------------------------------------------------------
// Canonical ordering of leaves.
// ---------------------------------------------------------------------------

/// Key order restricted to bytes `0..=i`, most significant byte last in
/// memory: byte 31 is compared first.
pub open spec fn key_le_from(a: Seq<u8>, b: Seq<u8>, i: int) -> bool
    decreases i + 1,
{
    if i < 0 {
        true
    } else if a[i] != b[i] {
        a[i] < b[i]
    } else {
        key_le_from(a, b, i - 1)
    }
}

/// Total order on 256-bit keys: lexicographic from the most significant
/// byte (index 31) down.
pub open spec fn key_le(a: Seq<u8>, b: Seq<u8>) -> bool {
    key_le_from(a, b, 31)
}

/// Inserting a leaf into a sequence before the first leaf whose key exceeds
/// the new one (so equal keys keep their arrival order).
pub open spec fn spec_insert_leaf(s: Seq<(Digest, Digest)>, x: (Digest, Digest)) -> Seq<
    (Digest, Digest),
>
    decreases s.len(),
{
    if s.len() == 0 {
        seq![x]
    } else if key_le(s[0].0@, x.0@) {
        seq![s[0]] + spec_insert_leaf(s.drop_first(), x)
    } else {
        seq![x] + s
    }
}

/// The leaves sorted by key, as insertion sort defines it.
pub open spec fn spec_sort_leaves(s: Seq<(Digest, Digest)>) -> Seq<(Digest, Digest)>
    decreases s.len(),
{
    if s.len() == 0 {
        Seq::empty()
    } else {
        spec_insert_leaf(spec_sort_leaves(s.drop_last()), s.last())
    }
}

/// Key order, executable.
fn key_le32(a: &Digest, b: &Digest) -> (r: bool)
    ensures
        r == key_le(a@, b@),
{
    let mut i: usize = 32;
    while i > 0
        invariant
            i <= 32,
            key_le(a@, b@) == key_le_from(a@, b@, i as int - 1),
        decreases i,
    {
        let idx = i - 1;
        if a[idx] < b[idx] {
            return true;
        }
        if a[idx] > b[idx] {
            return false;
        }
        i = idx;
    }
    true
}

/// Where a scan stopped is exactly where the specification inserts.
proof fn lemma_insert_leaf_at(s: Seq<(Digest, Digest)>, x: (Digest, Digest), j: int)
    requires
        0 <= j <= s.len(),
        forall|i: int| 0 <= i < j ==> key_le(s[i].0@, x.0@),
        j < s.len() ==> !key_le(s[j].0@, x.0@),
    ensures
        spec_insert_leaf(s, x) == s.take(j) + seq![x] + s.subrange(j, s.len() as int),
    decreases j,
{
    if j == 0 {
        if s.len() == 0 {
            assert(spec_insert_leaf(s, x) =~= s.take(0) + seq![x] + s.subrange(0, 0));
        } else {
            assert(spec_insert_leaf(s, x) =~= s.take(0) + seq![x] + s.subrange(
                0,
                s.len() as int,
            ));
        }
    } else {
        lemma_insert_leaf_at(s.drop_first(), x, j - 1);
        assert(spec_insert_leaf(s, x) =~= s.take(j) + seq![x] + s.subrange(j, s.len() as int));
    }
}

/// Sorts the leaves by key; the result is exactly what the specification's
/// insertion sort produces.
pub fn sort_leaves(leaves: &Vec<(Digest, Digest)>) -> (r: Vec<(Digest, Digest)>)
    ensures
        r@ == spec_sort_leaves(leaves@),
{
    let mut out: Vec<(Digest, Digest)> = Vec::new();
    let mut i: usize = 0;
    proof {
        assert(leaves@.take(0) =~= Seq::<(Digest, Digest)>::empty());
    }
    while i < leaves.len()
        invariant
            i <= leaves@.len(),
            out@ == spec_sort_leaves(leaves@.take(i as int)),
        decreases leaves@.len() - i,
    {
        let x = leaves[i];
        let ghost prev = out@;
        let mut j: usize = 0;
        while j < out.len() && key_le32(&out[j].0, &x.0)
            invariant
                j <= out@.len(),
                out@ == prev,
                forall|m: int| 0 <= m < j ==> key_le(out@[m].0@, x.0@),
            decreases out@.len() - j,
        {
            j += 1;
        }
        proof {
            lemma_insert_leaf_at(out@, x, j as int);
        }
        out.insert(j, x);
        proof {
            assert(out@ =~= prev.take(j as int) + seq![x] + prev.subrange(
                j as int,
                prev.len() as int,
            ));
            assert(leaves@.take(i as int + 1).drop_last() =~= leaves@.take(i as int));
            assert(leaves@.take(i as int + 1).last() == leaves@[i as int]);
            assert(out@ == spec_sort_leaves(leaves@.take(i as int + 1)));
        }
        i += 1;
    }
    proof {
        assert(leaves@.take(leaves@.len() as int) =~= leaves@);
    }
    out
}

} // verus!

verus! {

// ---------------------------------------------------------------------------
// The proof machine.
// ---------------------------------------------------------------------------

/// One entry of the machine's stack: a node at `height` on the path `key`.
pub struct SpecStackItem {
    pub height: u16,
    pub key: Seq<u8>,
    pub value: SpecMergeValue,
}

/// Folding `count` zero-sibling merges onto `value`, at heights `base` up to
/// `base + count - 1` along the path `key`.
pub open spec fn spec_zero_fold(key: Seq<u8>, value: SpecMergeValue, base: u16, count: u16) -> SpecMergeValue
    decreases count,
{
    if count == 0 {
        value
    } else {
        let h = (base + count - 1) as u8;
        let prev = spec_zero_fold(key, value, base, (count - 1) as u16);
        let pk = spec_parent_path(key, h);
        if spec_get_bit(key, h) {
            spec_merge(h, pk, SpecMergeValue::Value(zero_digest()), prev)
        } else {
            spec_merge(h, pk, prev, SpecMergeValue::Value(zero_digest()))
        }
    }
}

/// The claims as the machine sees them: each key and value as a plain byte
/// sequence.
pub open spec fn leaf_views(s: Seq<(Digest, Digest)>) -> Seq<(Seq<u8>, Seq<u8>)> {
    s.map_values(|p: (Digest, Digest)| (p.0@, p.1@))
}

/// Sequence-level twin of [`spec_insert_leaf`].
pub open spec fn spec_insert_leaf_v(s: Seq<(Seq<u8>, Seq<u8>)>, x: (Seq<u8>, Seq<u8>)) -> Seq<
    (Seq<u8>, Seq<u8>),
>
    decreases s.len(),
{
    if s.len() == 0 {
        seq![x]
    } else if key_le(s[0].0, x.0) {
        seq![s[0]] + spec_insert_leaf_v(s.drop_first(), x)
    } else {
        seq![x] + s
    }
}

/// Sequence-level twin of [`spec_sort_leaves`].
pub open spec fn spec_sort_leaves_v(s: Seq<(Seq<u8>, Seq<u8>)>) -> Seq<(Seq<u8>, Seq<u8>)>
    decreases s.len(),
{
    if s.len() == 0 {
        Seq::empty()
    } else {
        spec_insert_leaf_v(spec_sort_leaves_v(s.drop_last()), s.last())
    }
}

/// Inserting commutes with taking views.
proof fn lemma_insert_view(s: Seq<(Digest, Digest)>, x: (Digest, Digest))
    ensures
        leaf_views(spec_insert_leaf(s, x)) == spec_insert_leaf_v(leaf_views(s), (x.0@, x.1@)),
    decreases s.len(),
{
    if s.len() == 0 {
        assert(leaf_views(spec_insert_leaf(s, x)) =~= spec_insert_leaf_v(
            leaf_views(s),
            (x.0@, x.1@),
        ));
    } else if key_le(s[0].0@, x.0@) {
        lemma_insert_view(s.drop_first(), x);
        assert(leaf_views(s).drop_first() =~= leaf_views(s.drop_first()));
        assert(leaf_views(spec_insert_leaf(s, x)) =~= spec_insert_leaf_v(
            leaf_views(s),
            (x.0@, x.1@),
        ));
    } else {
        assert(leaf_views(spec_insert_leaf(s, x)) =~= spec_insert_leaf_v(
            leaf_views(s),
            (x.0@, x.1@),
        ));
    }
}

/// Sorting commutes with taking views.
pub proof fn lemma_sort_view(s: Seq<(Digest, Digest)>)
    ensures
        leaf_views(spec_sort_leaves(s)) == spec_sort_leaves_v(leaf_views(s)),
    decreases s.len(),
{
    if s.len() == 0 {
        assert(leaf_views(spec_sort_leaves(s)) =~= spec_sort_leaves_v(leaf_views(s)));
    } else {
        lemma_sort_view(s.drop_last());
        assert(leaf_views(s).drop_last() =~= leaf_views(s.drop_last()));
        lemma_insert_view(spec_sort_leaves(s.drop_last()), s.last());
        assert(leaf_views(s).last() == (s.last().0@, s.last().1@));
    }
}

/// The machine, one step per opcode, from program counter `pc`, next leaf
/// `li` and stack `stack`. `None` is any corrupted program or stack; `Some`
/// carries the final leaf index and stack when the program ends.
pub open spec fn spec_run(
    prog: Seq<u8>,
    leaves: Seq<(Seq<u8>, Seq<u8>)>,
    pc: int,
    li: int,
    stack: Seq<SpecStackItem>,
) -> Option<(int, Seq<SpecStackItem>)>
    decreases prog.len() - pc,
{
    if pc < 0 || pc >= prog.len() {
        Some((li, stack))
    } else {
        let code = prog[pc];
        if code == 0x4C {
            // L: push one leaf at height 0.
            if li < 0 || li >= leaves.len() {
                None
            } else {
                let kv = leaves[li];
                spec_run(
                    prog,
                    leaves,
                    pc + 1,
                    li + 1,
                    stack.push(
                        SpecStackItem { height: 0, key: kv.0, value: SpecMergeValue::Value(kv.1) },
                    ),
                )
            }
        } else if code == 0x50 {
            // P: merge the top with a sibling digest taken from the program.
            if stack.len() == 0 {
                None
            } else if prog.len() - (pc + 1) < 32 {
                None
            } else {
                let sibling = SpecMergeValue::Value(prog.subrange(pc + 1, pc + 33));
                let top = stack.last();
                if top.height > 255 {
                    None
                } else {
                    let h = top.height as u8;
                    let pk = spec_parent_path(top.key, h);
                    let parent = if spec_get_bit(top.key, h) {
                        spec_merge(h, pk, sibling, top.value)
                    } else {
                        spec_merge(h, pk, top.value, sibling)
                    };
                    spec_run(
                        prog,
                        leaves,
                        pc + 33,
                        li,
                        stack.drop_last().push(
                            SpecStackItem {
                                height: (top.height + 1) as u16,
                                key: pk,
                                value: parent,
                            },
                        ),
                    )
                }
            }
        } else if code == 0x51 {
            // Q: as P, but the sibling arrives as a zero-run merge node.
            if stack.len() == 0 {
                None
            } else if prog.len() - (pc + 1) < 65 {
                None
            } else {
                let sibling = SpecMergeValue::MergeWithZero {
                    base_node: prog.subrange(pc + 2, pc + 34),
                    zero_bits: prog.subrange(pc + 34, pc + 66),
                    zero_count: prog[pc + 1],
                };
                let top = stack.last();
                if top.height > 255 {
                    None
                } else {
                    let h = top.height as u8;
                    let pk = spec_parent_path(top.key, h);
                    let parent = if spec_get_bit(top.key, h) {
                        spec_merge(h, pk, sibling, top.value)
                    } else {
                        spec_merge(h, pk, top.value, sibling)
                    };
                    spec_run(
                        prog,
                        leaves,
                        pc + 66,
                        li,
                        stack.drop_last().push(
                            SpecStackItem {
                                height: (top.height + 1) as u16,
                                key: pk,
                                value: parent,
                            },
                        ),
                    )
                }
            }
        } else if code == 0x48 {
            // H: merge the two top entries, which must be siblings.
            if stack.len() < 2 {
                None
            } else {
                let b = stack.last();
                let a = stack[stack.len() - 2];
                if a.height != b.height {
                    None
                } else if a.height > 255 {
                    None
                } else {
                    let h = a.height as u8;
                    let pka = spec_parent_path(a.key, h);
                    let pkb = spec_parent_path(b.key, h);
                    if pka != pkb {
                        None
                    } else {
                        let parent = if spec_get_bit(a.key, h) {
                            spec_merge(h, pka, b.value, a.value)
                        } else {
                            spec_merge(h, pka, a.value, b.value)
                        };
                        spec_run(
                            prog,
                            leaves,
                            pc + 1,
                            li,
                            stack.drop_last().drop_last().push(
                                SpecStackItem {
                                    height: (a.height + 1) as u16,
                                    key: pka,
                                    value: parent,
                                },
                            ),
                        )
                    }
                }
            }
        } else if code == 0x4F {
            // O: merge the top with a run of zero siblings; a count byte of 0
            // means a full run of 256.
            if stack.len() == 0 {
                None
            } else if prog.len() - (pc + 1) < 1 {
                None
            } else {
                let n = prog[pc + 1];
                let count: u16 = if n == 0 {
                    256u16
                } else {
                    n as u16
                };
                let top = stack.last();
                if top.height > 255 {
                    None
                } else if top.height + count - 1 > 255 {
                    None
                } else {
                    let last_h = (top.height + count - 1) as u8;
                    spec_run(
                        prog,
                        leaves,
                        pc + 2,
                        li,
                        stack.drop_last().push(
                            SpecStackItem {
                                height: (top.height + count) as u16,
                                key: spec_parent_path(top.key, last_h),
                                value: spec_zero_fold(top.key, top.value, top.height, count),
                            },
                        ),
                    )
                }
            }
        } else {
            None
        }
    }
}

/// What a compiled proof program computes from already-sorted leaves: the
/// root digest it commits to, or nothing if the program is corrupted.
pub open spec fn spec_compute_root(prog: Seq<u8>, leaves: Seq<(Seq<u8>, Seq<u8>)>) -> Option<
    Seq<u8>,
> {
    match spec_run(prog, leaves, 0, 0, Seq::empty()) {
        Some((li, stack)) => if li == leaves.len() && stack.len() == 1 && stack[0].height == 256 {
            Some(smv_hash(stack[0].value))
        } else {
            None
        },
        None => None,
    }
}

/// The whole verifier: sort the claims, run the program, compare the root.
/// A corrupted program is an error; an honest run answers whether the
/// computed root equals the claimed one.
pub open spec fn spec_verify_proof(
    root: Seq<u8>,
    prog: Seq<u8>,
    leaves: Seq<(Seq<u8>, Seq<u8>)>,
) -> Result<bool, Error> {
    match spec_compute_root(prog, spec_sort_leaves_v(leaves)) {
        Some(h) => Ok(h == root),
        None => Err(Error::MerkleProof),
    }
}

} // verus!

verus! {

/// One entry of the executable stack.
pub struct StackItem {
    pub height: u16,
    pub key: Digest,
    pub value: MergeValue,
}

impl View for StackItem {
    type V = SpecStackItem;

    open spec fn view(&self) -> SpecStackItem {
        SpecStackItem { height: self.height, key: self.key@, value: self.value@ }
    }
}

/// The stack as the specification sees it.
spec fn stack_view(s: Seq<StackItem>) -> Seq<SpecStackItem> {
    s.map_values(|it: StackItem| it@)
}

/// Reads 32 bytes of the program as a digest.
fn read_arr32(v: &Vec<u8>, off: usize) -> (r: Digest)
    requires
        off + 32 <= v@.len(),
    ensures
        r@ == v@.subrange(off as int, off as int + 32),
{
    let mut data = [0u8; 32];
    let n = v.len();
    let mut k: usize = 0;
    while k < 32
        invariant
            k <= 32,
            off + 32 <= n == v@.len(),
            forall|m: int| 0 <= m < k ==> data@[m] == v@[off + m],
        decreases 32 - k,
    {
        data[k] = v[off + k];
        k += 1;
    }
    proof {
        assert(data@ =~= v@.subrange(off as int, off as int + 32));
    }
    data
}

/// Runs a compiled proof program over already-sorted leaves and returns the
/// root it commits to; exactly the programs the specification rejects are
/// rejected here, with a proof error.
#[verifier::rlimit(100)]
#[verifier::spinoff_prover]
fn run_program(prog: &Vec<u8>, leaves: &Vec<(Digest, Digest)>) -> (r: Result<Digest, Error>)
    ensures
        match spec_compute_root(prog@, leaf_views(leaves@)) {
            Some(h) => r matches Ok(d) && d@ == h,
            None => r == Err::<Digest, Error>(Error::MerkleProof),
        },
{
    let mut stack: Vec<StackItem> = Vec::new();
    let mut pc: usize = 0;
    let mut li: usize = 0;
    proof {
        assert(stack_view(stack@) =~= Seq::<SpecStackItem>::empty());
    }
    while pc < prog.len()
        invariant
            pc <= prog@.len(),
            li <= leaves@.len(),
            spec_run(prog@, leaf_views(leaves@), 0, 0, Seq::empty()) == spec_run(
                prog@,
                leaf_views(leaves@),
                pc as int,
                li as int,
                stack_view(stack@),
            ),
        decreases prog@.len() - pc,
    {
        let ghost pc0 = pc as int;
        let ghost li0 = li as int;
        let ghost sv0 = stack_view(stack@);
        let code = prog[pc];
        if code == 0x4C {
            if li >= leaves.len() {
                return Err(Error::MerkleProof);
            }
            let kv = leaves[li];
            stack.push(StackItem { height: 0, key: kv.0, value: MergeValue::Value(kv.1) });
            pc += 1;
            li += 1;
            proof {
                assert(leaf_views(leaves@)[li0] == (kv.0@, kv.1@));
                assert(stack_view(stack@) =~= sv0.push(
                    SpecStackItem {
                        height: 0,
                        key: kv.0@,
                        value: SpecMergeValue::Value(kv.1@),
                    },
                ));
            }
        } else if code == 0x50 {
            if stack.len() == 0 {
                return Err(Error::MerkleProof);
            }
            if prog.len() - (pc + 1) < 32 {
                return Err(Error::MerkleProof);
            }
            let sibling_digest = read_arr32(prog, pc + 1);
            let top = match stack.pop() {
                Some(t) => t,
                None => {
                    return Err(Error::MerkleProof);
                },
            };
            if top.height > 255 {
                return Err(Error::MerkleProof);
            }
            let h = top.height as u8;
            let pk = parent_path32(&top.key, h);
            let sibling = MergeValue::Value(sibling_digest);
            let parent = if get_bit32(&top.key, h) {
                merge_values(h, &pk, &sibling, &top.value)
            } else {
                merge_values(h, &pk, &top.value, &sibling)
            };
            stack.push(StackItem { height: top.height + 1, key: pk, value: parent });
            pc += 33;
            proof {
                assert(stack_view(stack@) =~= sv0.drop_last().push(
                    SpecStackItem { height: (top@.height + 1) as u16, key: pk@, value: parent@ },
                ));
            }
        } else if code == 0x51 {
            if stack.len() == 0 {
                return Err(Error::MerkleProof);
            }
            if prog.len() - (pc + 1) < 65 {
                return Err(Error::MerkleProof);
            }
            let zero_count = prog[pc + 1];
            let base_node = read_arr32(prog, pc + 2);
            let zero_bits = read_arr32(prog, pc + 34);
            let top = match stack.pop() {
                Some(t) => t,
                None => {
                    return Err(Error::MerkleProof);
                },
            };
            if top.height > 255 {
                return Err(Error::MerkleProof);
            }
            let h = top.height as u8;
            let pk = parent_path32(&top.key, h);
            let sibling = MergeValue::MergeWithZero { base_node, zero_bits, zero_count };
            let parent = if get_bit32(&top.key, h) {
                merge_values(h, &pk, &sibling, &top.value)
            } else {
                merge_values(h, &pk, &top.value, &sibling)
            };
            stack.push(StackItem { height: top.height + 1, key: pk, value: parent });
            pc += 66;
            proof {
                assert(stack_view(stack@) =~= sv0.drop_last().push(
                    SpecStackItem { height: (top@.height + 1) as u16, key: pk@, value: parent@ },
                ));
            }
        } else if code == 0x48 {
            if stack.len() < 2 {
                return Err(Error::MerkleProof);
            }
            let b = match stack.pop() {
                Some(t) => t,
                None => {
                    return Err(Error::MerkleProof);
                },
            };
            let a = match stack.pop() {
                Some(t) => t,
                None => {
                    return Err(Error::MerkleProof);
                },
            };
            if a.height != b.height {
                return Err(Error::MerkleProof);
            }
            if a.height > 255 {
                return Err(Error::MerkleProof);
            }
            let h = a.height as u8;
            let pka = parent_path32(&a.key, h);
            let pkb = parent_path32(&b.key, h);
            if !eq32(&pka, &pkb) {
                return Err(Error::MerkleProof);
            }
            let parent = if get_bit32(&a.key, h) {
                merge_values(h, &pka, &b.value, &a.value)
            } else {
                merge_values(h, &pka, &a.value, &b.value)
            };
            stack.push(StackItem { height: a.height + 1, key: pka, value: parent });
            pc += 1;
            proof {
                assert(stack_view(stack@) =~= sv0.drop_last().drop_last().push(
                    SpecStackItem { height: (a@.height + 1) as u16, key: pka@, value: parent@ },
                ));
            }
        } else if code == 0x4F {
            if stack.len() == 0 {
                return Err(Error::MerkleProof);
            }
            if prog.len() - (pc + 1) < 1 {
                return Err(Error::MerkleProof);
            }
            let n = prog[pc + 1];
            let count: u16 = if n == 0 {
                256u16
            } else {
                n as u16
            };
            let top = match stack.pop() {
                Some(t) => t,
                None => {
                    return Err(Error::MerkleProof);
                },
            };
            if top.height > 255 {
                return Err(Error::MerkleProof);
            }
            if top.height + count - 1 > 255 {
                return Err(Error::MerkleProof);
            }
            let mut value = top.value;
            let mut parent_key = top.key;
            let mut idx: u16 = 0;
            while idx < count
                invariant
                    idx <= count,
                    1 <= count <= 256,
                    top@.height + count - 1 <= 255,
                    value@ == spec_zero_fold(top@.key, top@.value, top@.height, idx),
                    idx > 0 ==> parent_key@ == spec_parent_path(
                        top@.key,
                        (top@.height + idx - 1) as u8,
                    ),
                decreases count - idx,
            {
                let height = (top.height + idx) as u8;
                parent_key = parent_path32(&top.key, height);
                let zero = MergeValue::Value(zero32());
                value = if get_bit32(&top.key, height) {
                    merge_values(height, &parent_key, &zero, &value)
                } else {
                    merge_values(height, &parent_key, &value, &zero)
                };
                idx += 1;
            }
            stack.push(StackItem { height: top.height + count, key: parent_key, value });
            pc += 2;
            proof {
                assert(stack_view(stack@) =~= sv0.drop_last().push(
                    SpecStackItem {
                        height: (top@.height + count) as u16,
                        key: spec_parent_path(top@.key, (top@.height + count - 1) as u8),
                        value: spec_zero_fold(top@.key, top@.value, top@.height, count),
                    },
                ));
            }
        } else {
            return Err(Error::MerkleProof);
        }
    }
    if stack.len() != 1 {
        return Err(Error::MerkleProof);
    }
    if li != leaves.len() {
        return Err(Error::MerkleProof);
    }
    let top = &stack[0];
    if top.height != 256 {
        return Err(Error::MerkleProof);
    }
    proof {
        assert(stack_view(stack@)[0] == stack@[0]@);
    }
    Ok(mv_hash(&top.value))
}

/// Checks a compiled proof against a claimed root for a batch of claims:
/// the claims are canonicalized by key, the program is run, and the root it
/// commits to is compared with the claimed one. Fails closed: every
/// malformed program is an error, and the order of the claims never changes
/// the answer.
pub fn verify_proof(root: &Digest, proof: &Vec<u8>, leaves: &Vec<(Digest, Digest)>) -> (r: Result<
    bool,
    Error,
>)
    ensures
        r == spec_verify_proof(root@, proof@, leaf_views(leaves@)),
{
    let sorted = sort_leaves(leaves);
    proof {
        lemma_sort_view(leaves@);
    }
    match run_program(proof, &sorted) {
        Ok(computed) => Ok(eq32(&computed, root)),
        Err(e) => Err(e),
    }
}

} // verus!
