use sparse_merkle_tree::blake2b::Blake2bHasher;
use sparse_merkle_tree::default_store::DefaultStore;
use sparse_merkle_tree::{SparseMerkleTree, H256};

use state_validator::codec::{encode_global_state, encode_l2block, parse_global_state,
    parse_l2block};
use state_validator::error::Error;
use state_validator::signature::verify_block_signature;
use state_validator::smt::verify_proof;
use state_validator::transition::{compute_block_hash, compute_block_smt_key, verify_l2block};
use state_validator::types::{AccountState, AggregatorEntry, AggregatorRegistry, BlockState,
    GlobalState, JoinRequest, L2Block, L2Transaction, RawBlock};
use state_validator::{run_verification, verify_state_transition};

type Smt = SparseMerkleTree<Blake2bHasher, H256, DefaultStore<H256>>;

const ROLLUP_HASH: [u8; 32] = [0x11; 32];

fn chain_hash32(data: &[u8]) -> [u8; 32] {
    let mut out = [0u8; 32];
    let mut h = blake2b_ref::Blake2bBuilder::new(32).personal(b"ckb-default-hash").build();
    h.update(data);
    h.finalize(&mut out);
    out
}

fn pubkey_hash20(pk33: &[u8; 33]) -> [u8; 20] {
    let d = chain_hash32(pk33);
    let mut r = [0u8; 20];
    r.copy_from_slice(&d[..20]);
    r
}

fn keypair(seed: u8) -> (libsecp256k1::SecretKey, [u8; 33]) {
    let sk = libsecp256k1::SecretKey::parse(&[seed; 32]).unwrap();
    let pk = libsecp256k1::PublicKey::from_secret_key(&sk);
    (sk, pk.serialize_compressed())
}

fn sign65(sk: &libsecp256k1::SecretKey, msg32: [u8; 32]) -> [u8; 65] {
    let m = libsecp256k1::Message::parse(&msg32);
    let (sig, rid) = libsecp256k1::sign(&m, sk);
    let mut out = [0u8; 65];
    out[..64].copy_from_slice(&sig.serialize());
    out[64] = rid.serialize();
    out
}

fn pre_block_tree() -> Smt {
    let mut tree = Smt::default();
    for n in 0..5u64 {
        let key = H256::from(compute_block_smt_key(n));
        let mut v = [0u8; 32];
        v[0] = (n as u8) + 1;
        tree.update(key, H256::from(v)).unwrap();
    }
    tree
}

struct Scenario {
    prev: GlobalState,
    post: GlobalState,
    block: L2Block,
    registry: AggregatorRegistry,
}

fn registry() -> AggregatorRegistry {
    AggregatorRegistry {
        entries: vec![
            AggregatorEntry { id: 2, pubkey_hash: pubkey_hash20(&keypair(2).1), active: true },
            AggregatorEntry { id: 5, pubkey_hash: pubkey_hash20(&keypair(5).1), active: true },
        ],
    }
}

/// The base scenario: pre {block:{count:5,root:R0}, account:{count:3,root:A0}},
/// block {number:5, aggregator_id:2, valid:true}, post {block:{count:6,root:R1}},
/// no state writes, signed by aggregator 2.
fn base_scenario() -> Scenario {
    let account_root = [0xAA; 32];
    let account = AccountState { count: 3, merkle_root: account_root };

    let tree = pre_block_tree();
    let prev_root: [u8; 32] = (*tree.root()).into();
    let key5 = compute_block_smt_key(5);
    let proof = tree.merkle_proof(vec![H256::from(key5)]).unwrap();
    let compiled = proof.compile(vec![H256::from(key5)]).unwrap();
    let block_proof: Vec<u8> = compiled.into();

    let raw = RawBlock {
        number: 5,
        aggregator_id: 2,
        valid: true,
        prev_account: account,
        post_account: account,
        kv_state: vec![],
        transactions: vec![],
        join_requests: vec![],
    };
    let block_hash = compute_block_hash(&raw);

    let mut post_tree = pre_block_tree();
    post_tree.update(H256::from(key5), H256::from(block_hash)).unwrap();
    let post_root: [u8; 32] = (*post_tree.root()).into();

    let (sk2, _) = keypair(2);
    let signature = sign65(&sk2, block_hash);
    let block = L2Block { raw, signature, kv_state_proof: vec![], block_proof };
    let prev = GlobalState { block: BlockState { count: 5, merkle_root: prev_root }, account };
    let post = GlobalState { block: BlockState { count: 6, merkle_root: post_root }, account };
    Scenario { prev, post, block, registry: registry() }
}

fn resign(block: &mut L2Block, seed: u8) {
    let hash = compute_block_hash(&block.raw);
    let (sk, _) = keypair(seed);
    block.signature = sign65(&sk, hash);
}

fn run(s: &Scenario) -> Result<(), Error> {
    run_verification(&s.block, &s.prev, &s.post, &s.registry, ROLLUP_HASH)
}

#[test]
fn accepts_empty_block_scenario() {
    let s = base_scenario();
    assert_eq!(run(&s), Ok(()));
    let ctx = verify_l2block(&s.block, &s.prev, &s.post, &s.registry, ROLLUP_HASH).unwrap();
    assert_eq!(ctx.number, 5);
    assert_eq!(ctx.aggregator_id, 2);
    assert_eq!(ctx.account_count, 3);
    assert!(ctx.kv_pairs.is_empty());
    assert_eq!(ctx.block_hash, compute_block_hash(&s.block.raw));
}

#[test]
fn rejects_post_count_seven() {
    let mut s = base_scenario();
    s.post.block.count = 7;
    assert_eq!(run(&s), Err(Error::PrevGlobalState));
}

#[test]
fn rejects_signature_from_other_aggregator() {
    let mut s = base_scenario();
    resign(&mut s.block, 5);
    assert_eq!(run(&s), Err(Error::WrongSignature));
}

#[test]
fn rejects_invalid_flag() {
    let mut s = base_scenario();
    s.block.raw.valid = false;
    assert_eq!(run(&s), Err(Error::SubmitInvalidBlock));
}

#[test]
fn rejects_wrong_block_number() {
    let mut s = base_scenario();
    s.block.raw.number = 4;
    resign(&mut s.block, 2);
    assert_eq!(run(&s), Err(Error::PrevGlobalState));
}

#[test]
fn rejects_flipped_proof_byte() {
    let mut s = base_scenario();
    let last = s.block.block_proof.len() - 1;
    s.block.block_proof[last] ^= 0x40;
    assert_eq!(run(&s), Err(Error::MerkleProof));
}

#[test]
fn rejects_unrelated_key_change_with_reused_proof() {
    let s = base_scenario();
    // A post tree that also rewrites the slot of block 3 commits to a
    // different sibling structure; the reused proof must not accept it.
    let key5 = compute_block_smt_key(5);
    let mut post_tree = pre_block_tree();
    post_tree.update(H256::from(key5), H256::from(compute_block_hash(&s.block.raw))).unwrap();
    post_tree.update(H256::from(compute_block_smt_key(3)), H256::from([0x77; 32])).unwrap();
    let mut s2 = base_scenario();
    s2.post.block.merkle_root = (*post_tree.root()).into();
    assert_eq!(run(&s2), Err(Error::MerkleProof));
}

#[test]
fn accepts_block_with_state_writes() {
    let mut s = base_scenario();
    // An account tree with three occupied slots; the block claims their
    // prior values, proved against the previous account root.
    let mut acct_tree = Smt::default();
    let mut kvs: Vec<([u8; 32], [u8; 32])> = Vec::new();
    for i in 0..3u8 {
        let k = chain_hash32(&[i]);
        let v = [i + 1; 32];
        acct_tree.update(H256::from(k), H256::from(v)).unwrap();
        kvs.push((k, v));
    }
    let acct_root: [u8; 32] = (*acct_tree.root()).into();
    let keys: Vec<H256> = kvs.iter().map(|(k, _)| H256::from(*k)).collect();
    let kv_proof: Vec<u8> = acct_tree
        .merkle_proof(keys.clone())
        .unwrap()
        .compile(keys)
        .unwrap()
        .into();

    let account = AccountState { count: 3, merkle_root: acct_root };
    s.prev.account = account;
    s.post.account = account;
    s.block.raw.prev_account = account;
    s.block.raw.post_account = account;
    s.block.raw.kv_state = kvs.clone();
    s.block.kv_state_proof = kv_proof.clone();
    resign(&mut s.block, 2);

    // The post block root must commit to the updated block hash.
    let key5 = compute_block_smt_key(5);
    let mut post_tree = pre_block_tree();
    post_tree.update(H256::from(key5), H256::from(compute_block_hash(&s.block.raw))).unwrap();
    s.post.block.merkle_root = (*post_tree.root()).into();

    assert_eq!(run(&s), Ok(()));

    // The order of the claims is irrelevant: reversing them changes the
    // block hash but not the verdict.
    let mut s2 = s;
    s2.block.raw.kv_state.reverse();
    resign(&mut s2.block, 2);
    let mut post_tree2 = pre_block_tree();
    post_tree2.update(H256::from(key5), H256::from(compute_block_hash(&s2.block.raw))).unwrap();
    s2.post.block.merkle_root = (*post_tree2.root()).into();
    assert_eq!(run(&s2), Ok(()));
}

#[test]
fn rejects_unknown_aggregator() {
    let mut s = base_scenario();
    s.block.raw.aggregator_id = 9;
    resign(&mut s.block, 2);
    let key5 = compute_block_smt_key(5);
    let mut post_tree = pre_block_tree();
    post_tree.update(H256::from(key5), H256::from(compute_block_hash(&s.block.raw))).unwrap();
    s.post.block.merkle_root = (*post_tree.root()).into();
    assert_eq!(run(&s), Err(Error::InvalidAggregator));
}

#[test]
fn rejects_inactive_aggregator() {
    let mut s = base_scenario();
    s.registry.entries[0].active = false;
    assert_eq!(run(&s), Err(Error::InvalidAggregator));
}

#[test]
fn rejects_garbage_signature_as_mechanical_failure() {
    let mut s = base_scenario();
    s.block.signature = [0xFF; 65];
    assert_eq!(run(&s), Err(Error::Secp256k1));
}

#[test]
fn rejects_mismatched_post_account() {
    let mut s = base_scenario();
    s.post.account.count = 4;
    assert_eq!(run(&s), Err(Error::PostGlobalState));
}

#[test]
fn rejects_mismatched_prev_account_digest() {
    let mut s = base_scenario();
    s.block.raw.prev_account.merkle_root = [0xBB; 32];
    resign(&mut s.block, 2);
    let key5 = compute_block_smt_key(5);
    let mut post_tree = pre_block_tree();
    post_tree.update(H256::from(key5), H256::from(compute_block_hash(&s.block.raw))).unwrap();
    s.post.block.merkle_root = (*post_tree.root()).into();
    assert_eq!(run(&s), Err(Error::PrevGlobalState));
}

#[test]
fn checks_transaction_senders() {
    let mut s = base_scenario();
    s.block.raw.transactions = vec![L2Transaction { from_id: 2, nonce: 0 }];
    resign(&mut s.block, 2);
    let key5 = compute_block_smt_key(5);
    let mut post_tree = pre_block_tree();
    post_tree.update(H256::from(key5), H256::from(compute_block_hash(&s.block.raw))).unwrap();
    s.post.block.merkle_root = (*post_tree.root()).into();
    assert_eq!(run(&s), Ok(()));

    let mut s2 = s;
    s2.block.raw.transactions = vec![L2Transaction { from_id: 7, nonce: 0 }];
    resign(&mut s2.block, 2);
    let mut post_tree2 = pre_block_tree();
    post_tree2.update(H256::from(key5), H256::from(compute_block_hash(&s2.block.raw))).unwrap();
    s2.post.block.merkle_root = (*post_tree2.root()).into();
    assert_eq!(run(&s2), Err(Error::InvalidTransaction));
}

#[test]
fn join_requests_grow_account_count() {
    let mut s = base_scenario();
    s.block.raw.join_requests = vec![JoinRequest { pubkey_hash: [9; 20] }];
    resign(&mut s.block, 2);
    let key5 = compute_block_smt_key(5);
    let mut post_tree = pre_block_tree();
    post_tree.update(H256::from(key5), H256::from(compute_block_hash(&s.block.raw))).unwrap();
    s.post.block.merkle_root = (*post_tree.root()).into();
    assert_eq!(run(&s), Ok(()));

    let mut ctx = verify_l2block(&s.block, &s.prev, &s.post, &s.registry, ROLLUP_HASH).unwrap();
    assert_eq!(verify_block_signature(&ctx, &s.registry, &s.block), Ok(()));
    assert_eq!(state_validator::actions::dispatch_actions(&mut ctx, &s.block), Ok(()));
    assert_eq!(ctx.account_count, 4);
    assert_eq!(ctx.number, 5);
}

#[test]
fn join_overflow_is_rejected_without_side_effect() {
    let mut s = base_scenario();
    let account = AccountState { count: u32::MAX, merkle_root: s.prev.account.merkle_root };
    s.prev.account = account;
    s.post.account = account;
    s.block.raw.prev_account = account;
    s.block.raw.post_account = account;
    s.block.raw.join_requests = vec![JoinRequest { pubkey_hash: [9; 20] }];
    resign(&mut s.block, 2);
    let key5 = compute_block_smt_key(5);
    let mut post_tree = pre_block_tree();
    post_tree.update(H256::from(key5), H256::from(compute_block_hash(&s.block.raw))).unwrap();
    s.post.block.merkle_root = (*post_tree.root()).into();
    assert_eq!(run(&s), Err(Error::InvalidJoin));

    let mut ctx = verify_l2block(&s.block, &s.prev, &s.post, &s.registry, ROLLUP_HASH).unwrap();
    let before = ctx.account_count;
    assert_eq!(
        state_validator::actions::dispatch_actions(&mut ctx, &s.block),
        Err(Error::InvalidJoin)
    );
    assert_eq!(ctx.account_count, before);
}

#[test]
fn verify_proof_is_order_insensitive() {
    let mut tree = Smt::default();
    let k1 = chain_hash32(b"one");
    let k2 = chain_hash32(b"two");
    tree.update(H256::from(k1), H256::from([1; 32])).unwrap();
    tree.update(H256::from(k2), H256::from([2; 32])).unwrap();
    let root: [u8; 32] = (*tree.root()).into();
    let keys = vec![H256::from(k1), H256::from(k2)];
    let proof: Vec<u8> = tree.merkle_proof(keys.clone()).unwrap().compile(keys).unwrap().into();
    let a = vec![(k1, [1; 32]), (k2, [2; 32])];
    let b = vec![(k2, [2; 32]), (k1, [1; 32])];
    assert_eq!(verify_proof(&root, &proof, &a), Ok(true));
    assert_eq!(verify_proof(&root, &proof, &b), Ok(true));
    let wrong = vec![(k1, [3; 32]), (k2, [2; 32])];
    assert!(verify_proof(&root, &proof, &wrong) != Ok(true));
}

#[test]
fn global_state_round_trip() {
    let g = GlobalState {
        block: BlockState { count: 42, merkle_root: [7; 32] },
        account: AccountState { count: 9, merkle_root: [8; 32] },
    };
    let bytes = encode_global_state(&g);
    assert_eq!(parse_global_state(&bytes), Ok(g));
}

#[test]
fn l2block_round_trip() {
    let s = base_scenario();
    let bytes = encode_l2block(&s.block);
    let parsed = parse_l2block(&bytes).unwrap();
    assert_eq!(parsed.raw.number, s.block.raw.number);
    assert_eq!(parsed.raw.aggregator_id, s.block.raw.aggregator_id);
    assert_eq!(parsed.raw.valid, s.block.raw.valid);
    assert_eq!(parsed.raw.prev_account, s.block.raw.prev_account);
    assert_eq!(parsed.raw.post_account, s.block.raw.post_account);
    assert_eq!(parsed.raw.kv_state, s.block.raw.kv_state);
    assert_eq!(parsed.signature.to_vec(), s.block.signature.to_vec());
    assert_eq!(parsed.block_proof, s.block.block_proof);
    assert_eq!(parsed.kv_state_proof, s.block.kv_state_proof);
}

#[test]
fn decode_failures_are_encoding_errors() {
    assert_eq!(parse_global_state(&vec![]), Err(Error::Encoding));
    assert_eq!(parse_global_state(&vec![0u8; 81]), Err(Error::Encoding));
    let g = GlobalState {
        block: BlockState { count: 1, merkle_root: [0; 32] },
        account: AccountState { count: 0, merkle_root: [0; 32] },
    };
    let mut bytes = encode_global_state(&g);
    bytes[4] = 2;
    assert_eq!(parse_global_state(&bytes), Err(Error::Encoding));
    assert_eq!(parse_l2block(&vec![0u8; 10]).err(), Some(Error::Encoding));
    let s = base_scenario();
    let mut bb = encode_l2block(&s.block);
    let n = bb.len();
    bb.truncate(n - 1);
    assert_eq!(parse_l2block(&bb).err(), Some(Error::Encoding));
}

#[test]
fn full_pipeline_from_buffers() {
    let s = base_scenario();
    let pb = encode_global_state(&s.prev);
    let sb = encode_global_state(&s.post);
    let bb = encode_l2block(&s.block);
    assert_eq!(
        verify_state_transition(&pb, &bb, &sb, &s.registry, ROLLUP_HASH),
        Ok(())
    );
    let bad = vec![1u8, 2, 3];
    assert_eq!(
        verify_state_transition(&bad, &bb, &sb, &s.registry, ROLLUP_HASH),
        Err(Error::Encoding)
    );
}

#[test]
fn duplicate_claim_keys_are_rejected() {
    let mut s = base_scenario();
    let k = chain_hash32(b"slot");
    s.block.raw.kv_state = vec![(k, [1; 32]), (k, [2; 32])];
    resign(&mut s.block, 2);
    let key5 = compute_block_smt_key(5);
    let mut post_tree = pre_block_tree();
    post_tree.update(H256::from(key5), H256::from(compute_block_hash(&s.block.raw))).unwrap();
    s.post.block.merkle_root = (*post_tree.root()).into();
    assert_eq!(run(&s), Err(Error::Encoding));
}

#[test]
fn accepts_genesis_block_on_empty_history() {
    let account_root = [0xAA; 32];
    let account = AccountState { count: 1, merkle_root: account_root };
    let tree = Smt::default();
    let prev_root: [u8; 32] = (*tree.root()).into();
    let key0 = compute_block_smt_key(0);
    let proof = tree.merkle_proof(vec![H256::from(key0)]).unwrap();
    let block_proof: Vec<u8> = proof.compile(vec![H256::from(key0)]).unwrap().into();
    let raw = RawBlock {
        number: 0,
        aggregator_id: 2,
        valid: true,
        prev_account: account,
        post_account: account,
        kv_state: vec![],
        transactions: vec![],
        join_requests: vec![],
    };
    let block_hash = compute_block_hash(&raw);
    let mut post_tree = Smt::default();
    post_tree.update(H256::from(key0), H256::from(block_hash)).unwrap();
    let post_root: [u8; 32] = (*post_tree.root()).into();
    let (sk2, _) = keypair(2);
    let signature = sign65(&sk2, block_hash);
    let block = L2Block { raw, signature, kv_state_proof: vec![], block_proof };
    let prev = GlobalState { block: BlockState { count: 0, merkle_root: prev_root }, account };
    let post = GlobalState { block: BlockState { count: 1, merkle_root: post_root }, account };
    assert_eq!(
        run_verification(&block, &prev, &post, &registry(), ROLLUP_HASH),
        Ok(())
    );
}
