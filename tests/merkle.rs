use integrity_verification::error::IntegrityVerificationError;
use integrity_verification::json::{JsonNumber, JsonValue};
use integrity_verification::merkle::{
    check_proof_valid, complete_proof, parse_pubkey, pow2_u64, proof_nodes, proof_target,
    split_account, verify_leaf, ProofTarget,
};
use solana_program::pubkey::Pubkey;
use spl_concurrent_merkle_tree::concurrent_merkle_tree::ConcurrentMerkleTree;
use spl_concurrent_merkle_tree::node::empty_node;

const LEAF: [u8; 32] = [7u8; 32];
const TREE_KEY: [u8; 32] = [9u8; 32];

fn text(s: &str) -> JsonValue {
    JsonValue::Text(s.to_string())
}

fn obj(members: Vec<(&str, JsonValue)>) -> JsonValue {
    JsonValue::Object(members.into_iter().map(|(k, v)| (k.to_string(), v)).collect())
}

fn b58(b: &[u8; 32]) -> String {
    Pubkey::new_from_array(*b).to_string()
}

fn header(depth: u32, buffer: u32) -> Vec<u8> {
    let mut h = vec![1u8, 0u8];
    h.extend_from_slice(&buffer.to_le_bytes());
    h.extend_from_slice(&depth.to_le_bytes());
    h.extend_from_slice(&[0u8; 32]);
    h.extend_from_slice(&0u64.to_le_bytes());
    h.extend_from_slice(&[0u8; 6]);
    h
}

/// A depth-3 tree holding one leaf at index 0, as account data with `canopy` after it.
fn account(canopy: &[u8]) -> Vec<u8> {
    let mut tree = ConcurrentMerkleTree::<3, 8>::new();
    tree.initialize().unwrap();
    tree.append(LEAF).unwrap();
    let mut data = header(3, 8);
    data.extend_from_slice(bytemuck::bytes_of(&tree));
    data.extend_from_slice(canopy);
    data
}

fn proof_response(leaf: &[u8; 32], levels: u32) -> JsonValue {
    let proof = (0..levels).map(|l| text(&b58(&empty_node(l)))).collect();
    obj(vec![(
        "result",
        obj(vec![
            ("tree_id", text(&b58(&TREE_KEY))),
            ("leaf", text(&b58(leaf))),
            ("proof", JsonValue::Array(proof)),
        ]),
    )])
}

fn asset(leaf_id: u64) -> JsonValue {
    obj(vec![(
        "result",
        obj(vec![("compression", obj(vec![("leaf_id", JsonValue::Number(JsonNumber::PosInt(leaf_id)))]))]),
    )])
}

fn validate(leaf: &[u8; 32], levels: u32, leaf_id: u64, data: Option<Vec<u8>>) -> Result<bool, IntegrityVerificationError> {
    let response = proof_response(leaf, levels);
    let target = proof_target(&response)?;
    check_proof_valid(&target, &response, &asset(leaf_id), data)
}

#[test]
fn valid_proof_is_accepted() {
    assert!(validate(&LEAF, 3, 0, Some(account(&[]))).unwrap());
}

#[test]
fn flipped_leaf_byte_is_rejected() {
    let mut leaf = LEAF;
    leaf[5] ^= 1;
    assert!(!validate(&leaf, 3, 0, Some(account(&[]))).unwrap());
}

#[test]
fn verification_is_repeatable() {
    let first = validate(&LEAF, 3, 0, Some(account(&[]))).unwrap();
    for _ in 0..3 {
        assert_eq!(validate(&LEAF, 3, 0, Some(account(&[]))).unwrap(), first);
    }
}

#[test]
fn canopy_fills_omitted_levels() {
    let canopy: Vec<u8> = [empty_node(2), empty_node(2)].concat();
    assert!(validate(&LEAF, 2, 0, Some(account(&canopy))).unwrap());
}

#[test]
fn completed_proof_reaches_depth() {
    let one_level: Vec<u8> = [[1u8; 32], [2u8; 32]].concat();
    let mut proof = vec![[5u8; 32], [6u8; 32]];
    complete_proof(&one_level, 3, 0, &mut proof).unwrap();
    assert_eq!(proof.len(), 3);
    assert_eq!(proof[0], [5u8; 32]);
    assert_eq!(proof[2], [2u8; 32]);

    let two_levels = vec![3u8; 6 * 32];
    let mut proof = vec![[5u8; 32]];
    complete_proof(&two_levels, 3, 0, &mut proof).unwrap();
    assert_eq!(proof.len(), 3);

    let mut proof = vec![[5u8; 32], [6u8; 32], [7u8; 32]];
    complete_proof(&two_levels, 3, 0, &mut proof).unwrap();
    assert_eq!(proof.len(), 3);

    let mut proof: Vec<[u8; 32]> = vec![];
    complete_proof(&[], 3, 0, &mut proof).unwrap();
    assert_eq!(proof.len(), 0);
}

#[test]
fn bad_canopy_length_is_refused() {
    let mut proof = vec![[5u8; 32]];
    let r = complete_proof(&[0u8; 32], 3, 0, &mut proof);
    assert!(matches!(r, Err(IntegrityVerificationError::InvalidCanopy(32))));
    assert_eq!(proof.len(), 1);
    let r = complete_proof(&[0u8; 33], 3, 0, &mut proof);
    assert!(matches!(r, Err(IntegrityVerificationError::InvalidCanopy(33))));
}

#[test]
fn account_regions_partition_the_data() {
    let canopy = vec![4u8; 64];
    let data = account(&canopy);
    let acc = split_account(&data).unwrap();
    assert_eq!(acc.header.get_max_depth(), 3);
    assert_eq!(acc.header.get_max_buffer_size(), 8);
    assert_eq!(acc.tree.len(), 1248);
    assert_eq!(acc.canopy, &canopy[..]);
    assert_eq!(56 + acc.tree.len() + acc.canopy.len(), data.len());
}

#[test]
fn short_account_is_refused() {
    let r = split_account(&[1u8; 10]);
    assert!(matches!(r, Err(IntegrityVerificationError::AccountDataTooShort(10))));
    let mut data = account(&[]);
    data.truncate(100);
    assert!(matches!(split_account(&data), Err(IntegrityVerificationError::AccountDataTooShort(100))));
}

#[test]
fn bad_header_is_refused() {
    let mut data = account(&[]);
    data[1] = 1;
    assert!(matches!(split_account(&data), Err(IntegrityVerificationError::Anchor(_))));
    let mut data = header(4, 8);
    data.extend_from_slice(&[0u8; 2000]);
    assert!(matches!(split_account(&data), Err(IntegrityVerificationError::CannotCreateMerkleTree(4, 8))));
}

#[test]
fn leaf_index_out_of_range_is_refused() {
    let r = validate(&LEAF, 3, 8, Some(account(&[])));
    assert!(matches!(r, Err(IntegrityVerificationError::LeafIndexOutOfRange(8))));
    let data = account(&[]);
    let acc = split_account(&data).unwrap();
    let r = verify_leaf(&acc, &TREE_KEY, LEAF, vec![], 1 << 40);
    assert!(matches!(r, Err(IntegrityVerificationError::LeafIndexOutOfRange(_))));
}

#[test]
fn wrong_proof_length_is_invalid() {
    let data = account(&[]);
    let acc = split_account(&data).unwrap();
    assert_eq!(verify_leaf(&acc, &TREE_KEY, LEAF, vec![empty_node(0)], 0).unwrap(), false);
}

#[test]
fn missing_fields_are_named() {
    let response = obj(vec![("result", obj(vec![]))]);
    assert!(matches!(proof_target(&response), Err(IntegrityVerificationError::CannotGetResponseField(f)) if f == "tree_id"));
    let response = obj(vec![("result", obj(vec![("tree_id", text(&b58(&TREE_KEY)))]))]);
    assert!(matches!(proof_target(&response), Err(IntegrityVerificationError::CannotGetResponseField(f)) if f == "leaf"));

    let response = proof_response(&LEAF, 3);
    let target = proof_target(&response).unwrap();
    let r = check_proof_valid(&target, &response, &obj(vec![]), Some(account(&[])));
    assert!(matches!(r, Err(IntegrityVerificationError::CannotGetResponseField(f)) if f == "leaf_id"));
    let bare = obj(vec![("result", obj(vec![("tree_id", text("x")), ("leaf", text("y"))]))]);
    let r = check_proof_valid(&target, &bare, &asset(0), Some(account(&[])));
    assert!(matches!(r, Err(IntegrityVerificationError::CannotGetResponseField(f)) if f == "proof"));
}

#[test]
fn absent_account_is_named() {
    let r = validate(&LEAF, 3, 0, None);
    assert!(matches!(r, Err(IntegrityVerificationError::NullAssetAccount(t)) if t == b58(&TREE_KEY)));
}

#[test]
fn bad_address_text_is_refused() {
    let response = obj(vec![("result", obj(vec![("tree_id", text(&b58(&TREE_KEY))), ("leaf", text("not-base58!"))]))]);
    assert!(matches!(proof_target(&response), Err(IntegrityVerificationError::ParsePubkey(t)) if t == "not-base58!"));
}

#[test]
fn addresses_decode_to_their_bytes() {
    let t = b58(&LEAF);
    assert_eq!(parse_pubkey(&t).unwrap(), LEAF);
    let target: ProofTarget = proof_target(&proof_response(&LEAF, 0)).unwrap();
    assert_eq!(target.leaf, LEAF);
    assert_eq!(target.tree_key, TREE_KEY);
}

#[test]
fn proof_items_that_are_no_address_are_passed_over() {
    let items = vec![text(&b58(&LEAF)), JsonValue::Bool(true), text("??"), text(&b58(&TREE_KEY))];
    assert_eq!(proof_nodes(&items), vec![LEAF, TREE_KEY]);
}

#[test]
fn powers_of_two() {
    assert_eq!(pow2_u64(0), 1);
    assert_eq!(pow2_u64(30), 1 << 30);
}

#[test]
fn inconsistent_tree_counters_are_refused() {
    let mut data = account(&[]);
    data[56 + 8] = 200;
    let r = validate(&LEAF, 3, 0, Some(data));
    assert!(matches!(r, Err(IntegrityVerificationError::InconsistentTree)));
}
