use vstd::prelude::*;
use anchor_lang::AnchorDeserialize;
use spl_account_compression::concurrent_tree_wrapper::{merkle_tree_prove_leaf, ProveLeafArgs};
use spl_account_compression::state::ConcurrentMerkleTreeHeader;
use solana_program::pubkey::Pubkey;
use crate::error::IntegrityVerificationError;
use crate::json::{array_spec, at_path, key_path2, key_path3, text_spec, u64_spec, JsonValue};
use vstd::string::StringExecFns;

verus! {

#[verifier::external_type_specification]
#[verifier::external_body]
pub struct ExConcurrentMerkleTreeHeader(ConcurrentMerkleTreeHeader);

/// Bytes of the fixed header at the start of a tree account.
pub const CONCURRENT_MERKLE_TREE_HEADER_SIZE_V1: usize = 56;

/// The 32 bytes of the account address written as `s` in base 58, if it is one.
pub uninterp spec fn pubkey_bytes(s: Seq<char>) -> Option<[u8; 32]>;

/// The proof that the canopy completes `proof` to, for the leaf at `index` of
/// a tree of depth `max_depth`.
pub uninterp spec fn canopy_completed(canopy: Seq<u8>, max_depth: u32, index: u32, proof: Seq<[u8; 32]>) -> Seq<[u8; 32]>;

/// The root that hashing `leaf` up along `proof` gives, for the leaf at `index`.
pub uninterp spec fn recomputed_root(leaf: [u8; 32], proof: Seq<[u8; 32]>, index: u32) -> [u8; 32];

/// Whether the tree held in `tree` (of the given depth and buffer size) accepts
/// `leaf` at `index` with `proof`, claimed against `root`, once the proof is
/// brought up to date through the tree's change log.
pub uninterp spec fn leaf_proven(
    max_depth: u32,
    max_buffer_size: u32,
    tree: Seq<u8>,
    root: [u8; 32],
    leaf: [u8; 32],
    proof: Seq<[u8; 32]>,
    index: u32,
) -> bool;

pub open spec fn pow2(k: nat) -> nat
    decreases k,
{
    if k == 0 {
        1
    } else {
        2 * pow2((k - 1) as nat)
    }
}

/// The little-endian `u32` at `at`.
pub open spec fn u32_le(b: Seq<u8>, at: int) -> int {
    b[at] + 256 * b[at + 1] + 65536 * b[at + 2] + 16777216 * b[at + 3]
}

/// Whether bytes are a header: an account type of 0 or 1, version 1 (tag 0),
/// and nothing left over.
pub open spec fn header_accepted(b: Seq<u8>) -> bool {
    b.len() == CONCURRENT_MERKLE_TREE_HEADER_SIZE_V1 && b[0] <= 1 && b[1] == 0
}

/// The (depth, buffer size) pairs that have a tree layout.
pub open spec fn supported_shape(d: u32, b: u32) -> bool {
    ||| (d == 3 && b == 8)
    ||| (d == 5 && b == 8)
    ||| (6 <= d <= 9 && b == 16)
    ||| (10 <= d <= 13 && b == 32)
    ||| (d == 14 && (b == 64 || b == 256 || b == 1024 || b == 2048))
    ||| (15 <= d <= 19 && b == 64)
    ||| (d == 20 && (b == 64 || b == 256 || b == 1024 || b == 2048))
    ||| (d == 24 && (b == 64 || b == 256 || b == 512 || b == 1024 || b == 2048))
    ||| (d == 26 && (b == 512 || b == 1024 || b == 2048))
    ||| (d == 30 && (b == 512 || b == 1024 || b == 2048))
}

/// Bytes of the tree region: three counters, `b` change-log entries of a root,
/// `d` path nodes and an index each, then the rightmost path.
pub open spec fn tree_size(d: u32, b: u32) -> int {
    24 + b * (40 + 32 * d) + (32 * d + 40)
}

/// Whether a canopy of `len` bytes caches `levels` levels of a tree of depth `max_depth`.
pub open spec fn canopy_levels(len: nat, max_depth: nat, levels: nat) -> bool {
    len % 32 == 0 && len / 32 + 2 == pow2(levels + 1) && levels <= max_depth
}

/// The length of a proof of `old_len` nodes once a canopy caching `levels`
/// levels has completed it, for a tree of depth `max_depth`.
pub open spec fn completed_len(old_len: nat, levels: nat, max_depth: nat) -> nat {
    if old_len >= max_depth {
        old_len
    } else if old_len + levels <= max_depth {
        old_len + levels
    } else {
        max_depth
    }
}

/// The header of a tree account: its depth and change-log capacity.
pub struct TreeHeader {
    max_depth: u32,
    max_buffer_size: u32,
    raw: ConcurrentMerkleTreeHeader,
}

impl TreeHeader {
    pub closed spec fn depth(&self) -> u32 {
        self.max_depth
    }

    pub closed spec fn buffer_size(&self) -> u32 {
        self.max_buffer_size
    }

    pub fn get_max_depth(&self) -> (r: u32)
        ensures
            r == self.depth(),
    {
        self.max_depth
    }

    pub fn get_max_buffer_size(&self) -> (r: u32)
        ensures
            r == self.buffer_size(),
    {
        self.max_buffer_size
    }
}

/// The little-endian value of `b`.
pub open spec fn le_value(b: Seq<u8>) -> nat
    decreases b.len(),
{
    if b.len() == 0 {
        0
    } else {
        (b[0] + 256 * le_value(b.drop_first())) as nat
    }
}

pub open spec fn pow256(k: nat) -> nat
    decreases k,
{
    if k == 0 {
        1
    } else {
        256 * pow256((k - 1) as nat)
    }
}

/// The little-endian integer of `n` bytes at `at`.
pub open spec fn field_at(tree: Seq<u8>, at: int, n: int) -> nat {
    le_value(tree.subrange(at, at + n))
}

/// Where the index of change-log entry `j` lies, in a tree region of depth `d`.
pub open spec fn changelog_index_offset(d: u32, j: int) -> int {
    24 + j * (40 + 32 * d) + 32 + 32 * d
}

/// Whether the counters of a tree region are those of an initialized tree:
/// the newest change-log entry and the number in use lie within the buffer,
/// and every entry's leaf index lies within the tree.
pub open spec fn tree_consistent(tree: Seq<u8>, d: u32, b: u32) -> bool {
    &&& field_at(tree, 8, 8) < b
    &&& 1 <= field_at(tree, 16, 8) <= b
    &&& forall|j: int| 0 <= j < b ==> #[trigger] field_at(tree, changelog_index_offset(d, j), 4) < pow2(d as nat)
}

/// The little-endian integer of `n` bytes of `bytes` at `at`.
pub fn read_le(bytes: &[u8], at: usize, n: usize) -> (r: u64)
    requires
        n <= 8,
        at + n <= bytes@.len(),
    ensures
        r == field_at(bytes@, at as int, n as int),
{
    let len = bytes.len();
    let mut r: u64 = 0;
    let mut i: usize = n;
    assert(bytes@.subrange(at + n, at + n).len() == 0);
    while i > 0
        invariant
            0 <= i <= n <= 8,
            len == bytes@.len(),
            at + n <= bytes@.len(),
            r == le_value(bytes@.subrange(at + i, at + n)),
            r < pow256((n - i) as nat),
        decreases i,
    {
        let ghost tail = bytes@.subrange(at + i - 1, at + n);
        assert(tail.drop_first() =~= bytes@.subrange(at + i, at + n));
        assert(tail[0] == bytes@[at + i - 1]);
        proof {
            assert(pow256((n - i + 1) as nat) == 256 * pow256((n - i) as nat));
            reveal_with_fuel(pow256, 9);
            assert(pow256((n - i + 1) as nat) <= pow256(8)) by {
                lemma_pow256_monotone((n - i + 1) as nat, 8);
            }
            let b = bytes@[at + i - 1];
            assert(r * 256 + b < 256 * pow256((n - i) as nat)) by (nonlinear_arith)
                requires
                    r < pow256((n - i) as nat),
                    b < 256,
            ;
        }
        r = bytes[at + i - 1] as u64 + 256 * r;
        i = i - 1;
    }
    r
}

proof fn lemma_pow256_monotone(a: nat, b: nat)
    requires
        a <= b,
    ensures
        pow256(a) <= pow256(b),
    decreases b,
{
    if a < b {
        lemma_pow256_monotone(a, (b - 1) as nat);
    }
}

/// Whether the counters of `tree` are those of an initialized tree.
pub fn check_tree_consistent(tree: &[u8], d: u32, b: u32) -> (r: bool)
    requires
        supported_shape(d, b),
        tree@.len() == tree_size(d, b),
    ensures
        r == tree_consistent(tree@, d, b),
{
    proof {
        lemma_pow2_monotone(d as nat, 31);
        lemma_pow2_31();
    }
    let active = read_le(tree, 8, 8);
    let in_use = read_le(tree, 16, 8);
    if active >= b as u64 || in_use < 1 || in_use > b as u64 {
        return false;
    }
    let limit = pow2_u64(d);
    let entry = 40 + 32 * d as usize;
    let mut j: u32 = 0;
    while j < b
        invariant
            0 <= j <= b,
            supported_shape(d, b),
            tree@.len() == tree_size(d, b),
            entry == 40 + 32 * d,
            limit == pow2(d as nat),
            forall|k: int| 0 <= k < j ==> #[trigger] field_at(tree@, changelog_index_offset(d, k), 4) < pow2(d as nat),
        decreases b - j,
    {
        assert(changelog_index_offset(d, j as int) + 4 <= tree_size(d, b)) by (nonlinear_arith)
            requires
                j < b,
                d <= 30,
                b <= 2048,
        ;
        assert(j * entry <= 2048 * 1000) by (nonlinear_arith)
            requires
                j < b,
                b <= 2048,
                entry <= 1000,
        ;
        let at = 24 + (j as usize) * entry + 32 + 32 * d as usize;
        if read_le(tree, at, 4) >= limit {
            return false;
        }
        j = j + 1;
    }
    true
}

/// Relies on solana_program's `Pubkey::from_str`: base-58 text of 32 bytes.
#[verifier::external_body]
fn decode_pubkey(s: &str) -> (r: Option<[u8; 32]>)
    ensures
        r == pubkey_bytes(s@),
{
    s.parse::<Pubkey>().ok().map(|k| k.to_bytes())
}

/// Relies on `ConcurrentMerkleTreeHeader::try_from_slice` (borsh): an account
/// type byte, a version tag, then the buffer size and the depth as
/// little-endian `u32`s, the authority, the creation slot and padding.
#[verifier::external_body]
fn decode_header(bytes: &[u8]) -> (r: Result<TreeHeader, String>)
    ensures
        r is Ok <==> header_accepted(bytes@),
        r matches Ok(h) ==> h.depth() == u32_le(bytes@, 6) && h.buffer_size() == u32_le(bytes@, 2),
{
    match ConcurrentMerkleTreeHeader::try_from_slice(bytes) {
        Ok(raw) => Ok(TreeHeader { max_depth: raw.get_max_depth(), max_buffer_size: raw.get_max_buffer_size(), raw }),
        Err(e) => Err(e.to_string()),
    }
}

/// Relies on spl_account_compression's `merkle_tree_get_size`: the size of the
/// tree layout of the header's depth and buffer size.
#[verifier::external_body]
fn tree_region_size(header: &TreeHeader) -> (r: Option<usize>)
    ensures
        r is Some <==> supported_shape(header.depth(), header.buffer_size()),
        r matches Some(n) ==> n == tree_size(header.depth(), header.buffer_size()),
{
    spl_account_compression::state::merkle_tree_get_size(&header.raw).ok()
}

/// Relies on spl_account_compression's `fill_in_proof_from_canopy`: checks the
/// canopy's length, then appends the cached nodes above the proof, no more
/// than bring it to the tree's depth.
#[verifier::external_body]
fn fill_from_canopy(canopy: &[u8], max_depth: u32, index: u32, proof: &mut Vec<[u8; 32]>) -> (r: Result<(), String>)
    requires
        max_depth <= 30,
        index < pow2(max_depth as nat),
        canopy@.len() / 32 + 2 <= u32::MAX,
    ensures
        r is Ok <==> exists|l: nat| canopy_levels(canopy@.len(), max_depth as nat, l),
        r is Ok ==> final(proof)@ == canopy_completed(canopy@, max_depth, index, old(proof)@),
        r is Ok ==> final(proof)@.subrange(0, old(proof)@.len() as int) == old(proof)@,
        r is Ok ==> forall|l: nat| #[trigger] canopy_levels(canopy@.len(), max_depth as nat, l)
            ==> final(proof)@.len() == completed_len(old(proof)@.len(), l, max_depth as nat),
        r is Err ==> final(proof)@ == old(proof)@,
{
    spl_account_compression::canopy::fill_in_proof_from_canopy(canopy, max_depth, index, proof).map_err(|e| e.to_string())
}

/// Relies on spl_concurrent_merkle_tree's `hash::recompute`.
#[verifier::external_body]
fn recompute_root(leaf: &[u8; 32], proof: &Vec<[u8; 32]>, index: u32) -> (r: [u8; 32])
    requires
        proof@.len() <= 30,
    ensures
        r == recomputed_root(*leaf, proof@, index),
{
    spl_concurrent_merkle_tree::hash::recompute(*leaf, proof, index)
}

/// Relies on spl_account_compression's `merkle_tree_prove_leaf`: success when
/// the tree proves the leaf, the tree's own error when it does not. The tree
/// bytes are copied to an 8-byte aligned buffer first, as the layout needs.
#[verifier::external_body]
fn prove_leaf(header: &TreeHeader, tree_key: &[u8; 32], tree: &[u8], root: [u8; 32], leaf: [u8; 32], proof: &Vec<[u8; 32]>, index: u32) -> (r: bool)
    requires
        supported_shape(header.depth(), header.buffer_size()),
        tree@.len() == tree_size(header.depth(), header.buffer_size()),
        tree_consistent(tree@, header.depth(), header.buffer_size()),
        proof@.len() <= header.depth(),
    ensures
        r == leaf_proven(header.depth(), header.buffer_size(), tree@, root, leaf, proof@, index),
{
    let mut words = vec![0u64; tree.len() / 8];
    bytemuck::cast_slice_mut::<u64, u8>(&mut words).copy_from_slice(tree);
    let args = ProveLeafArgs { current_root: root, leaf, proof_vec: proof.clone(), index };
    merkle_tree_prove_leaf(&header.raw, Pubkey::new_from_array(*tree_key), bytemuck::cast_slice(&words), &args).is_ok()
}

proof fn lemma_pow2_monotone(a: nat, b: nat)
    requires
        a <= b,
    ensures
        pow2(a) <= pow2(b),
    decreases b,
{
    if a < b {
        lemma_pow2_monotone(a, (b - 1) as nat);
    }
}

proof fn lemma_pow2_31()
    ensures
        pow2(30) == 0x4000_0000,
        pow2(31) == 0x8000_0000,
{
    reveal_with_fuel(pow2, 32);
}

/// `2^k` for a small `k`.
pub fn pow2_u64(k: u32) -> (r: u64)
    requires
        k <= 31,
    ensures
        r == pow2(k as nat),
{
    let mut r: u64 = 1;
    let mut i: u32 = 0;
    while i < k
        invariant
            0 <= i <= k <= 31,
            r == pow2(i as nat),
        decreases k - i,
    {
        proof {
            lemma_pow2_monotone((i + 1) as nat, 31);
            lemma_pow2_31();
        }
        r = r * 2;
        i = i + 1;
    }
    r
}

/// The proof nodes that an API proof array gives: each item that is the text
/// of an account address, in order; other items are passed over.
pub open spec fn decoded_nodes(items: Seq<JsonValue>) -> Seq<[u8; 32]>
    decreases items.len(),
{
    if items.len() == 0 {
        Seq::empty()
    } else {
        let rest = decoded_nodes(items.drop_last());
        match items.last() {
            JsonValue::Text(s) => match pubkey_bytes(s@) {
                Some(b) => rest.push(b),
                None => rest,
            },
            _ => rest,
        }
    }
}

/// The nodes of a proof array, each item that is an address decoded, others passed over.
pub fn proof_nodes(items: &Vec<JsonValue>) -> (r: Vec<[u8; 32]>)
    ensures
        r@ == decoded_nodes(items@),
{
    let mut r: Vec<[u8; 32]> = Vec::new();
    let mut i: usize = 0;
    while i < items.len()
        invariant
            0 <= i <= items@.len(),
            r@ == decoded_nodes(items@.subrange(0, i as int)),
        decreases items@.len() - i,
    {
        proof {
            let next = items@.subrange(0, i + 1);
            assert(next.drop_last() =~= items@.subrange(0, i as int));
            assert(next.last() == items@[i as int]);
        }
        match items[i].as_text() {
            Some(s) => match decode_pubkey(s.as_str()) {
                Some(b) => r.push(b),
                None => {},
            },
            None => {},
        }
        i = i + 1;
    }
    assert(items@.subrange(0, items@.len() as int) =~= items@);
    r
}

/// Decodes an account address written in base 58.
pub fn parse_pubkey(s: &String) -> (r: Result<[u8; 32], IntegrityVerificationError>)
    ensures
        match pubkey_bytes(s@) {
            Some(b) => r == Ok::<[u8; 32], IntegrityVerificationError>(b),
            None => r matches Err(IntegrityVerificationError::ParsePubkey(t)) && t@ == s@,
        },
{
    match decode_pubkey(s.as_str()) {
        Some(b) => Ok(b),
        None => Err(IntegrityVerificationError::ParsePubkey(s.clone())),
    }
}

/// Completes `proof` with the nodes that the canopy caches. When the API
/// left out no more levels than the canopy holds, the completed proof reaches
/// exactly the tree's depth.
pub fn complete_proof(canopy: &[u8], max_depth: u32, index: u32, proof: &mut Vec<[u8; 32]>) -> (r: Result<(), IntegrityVerificationError>)
    requires
        max_depth <= 30,
        index < pow2(max_depth as nat),
    ensures
        r is Ok <==> exists|l: nat| canopy_levels(canopy@.len(), max_depth as nat, l),
        r matches Err(e) ==> e is InvalidCanopy && final(proof)@ == old(proof)@,
        r is Ok ==> final(proof)@ == canopy_completed(canopy@, max_depth, index, old(proof)@),
        r is Ok ==> final(proof)@.subrange(0, old(proof)@.len() as int) == old(proof)@,
        r is Ok ==> forall|l: nat| #[trigger] canopy_levels(canopy@.len(), max_depth as nat, l)
            ==> final(proof)@.len() == completed_len(old(proof)@.len(), l, max_depth as nat),
        r is Ok ==> forall|l: nat| #[trigger] canopy_levels(canopy@.len(), max_depth as nat, l)
            && old(proof)@.len() <= max_depth <= old(proof)@.len() + l ==> final(proof)@.len() == max_depth,
{
    if canopy.len() / 32 + 2 > 0xffff_ffff {
        proof {
            assert forall|l: nat| !canopy_levels(canopy@.len(), max_depth as nat, l) by {
                if l <= max_depth {
                    lemma_pow2_monotone(l + 1, 31);
                    lemma_pow2_31();
                }
            }
        }
        return Err(IntegrityVerificationError::InvalidCanopy(canopy.len()));
    }
    match fill_from_canopy(canopy, max_depth, index, proof) {
        Ok(()) => Ok(()),
        Err(_) => Err(IntegrityVerificationError::InvalidCanopy(canopy.len())),
    }
}

/// A completed proof reaches the tree's depth whenever the levels the API left
/// out are at most those the canopy caches.
pub proof fn lemma_completed_proof_reaches_depth(old_len: nat, levels: nat, max_depth: nat)
    requires
        old_len <= max_depth <= old_len + levels,
    ensures
        completed_len(old_len, levels, max_depth) == max_depth,
{
}

/// The verdict on `leaf` at `leaf_id` with `proof`, for a tree whose regions
/// are `tree` and `canopy`: the canopy completes the proof; a proof of any
/// length but the depth is invalid; otherwise the tree must accept the leaf
/// against the root that the completed proof recomputes.
pub open spec fn leaf_verdict(d: u32, b: u32, tree: Seq<u8>, canopy: Seq<u8>, leaf: [u8; 32], proof: Seq<[u8; 32]>, leaf_id: u64) -> bool {
    let index = leaf_id as u32;
    let full = canopy_completed(canopy, d, index, proof);
    if full.len() != d {
        false
    } else {
        leaf_proven(d, b, tree, recomputed_root(leaf, full, index), leaf, full, index)
    }
}

/// The regions of a tree account: the header, the tree and the canopy.
pub struct TreeAccount<'a> {
    pub header: TreeHeader,
    pub tree: &'a [u8],
    pub canopy: &'a [u8],
}

pub open spec fn header_depth(data: Seq<u8>) -> u32 {
    u32_le(data, 6) as u32
}

pub open spec fn header_buffer_size(data: Seq<u8>) -> u32 {
    u32_le(data, 2) as u32
}

/// Whether `data` holds a header of a supported shape followed by a whole tree region.
pub open spec fn account_accepted(data: Seq<u8>) -> bool {
    &&& data.len() >= CONCURRENT_MERKLE_TREE_HEADER_SIZE_V1
    &&& header_accepted(data.subrange(0, CONCURRENT_MERKLE_TREE_HEADER_SIZE_V1 as int))
    &&& supported_shape(header_depth(data), header_buffer_size(data))
    &&& CONCURRENT_MERKLE_TREE_HEADER_SIZE_V1 + tree_size(header_depth(data), header_buffer_size(data)) <= data.len()
}

/// Splits account data into the header, the tree region that the header's
/// shape sizes, and the canopy: the rest. The three regions partition the data.
pub fn split_account<'a>(data: &'a [u8]) -> (r: Result<TreeAccount<'a>, IntegrityVerificationError>)
    ensures
        r is Ok <==> account_accepted(data@),
        data@.len() < CONCURRENT_MERKLE_TREE_HEADER_SIZE_V1 ==> (r matches Err(IntegrityVerificationError::AccountDataTooShort(n)) && n == data@.len()),
        data@.len() >= CONCURRENT_MERKLE_TREE_HEADER_SIZE_V1 && !header_accepted(data@.subrange(0, CONCURRENT_MERKLE_TREE_HEADER_SIZE_V1 as int))
            ==> r matches Err(IntegrityVerificationError::Anchor(_)),
        data@.len() >= CONCURRENT_MERKLE_TREE_HEADER_SIZE_V1 && header_accepted(data@.subrange(0, CONCURRENT_MERKLE_TREE_HEADER_SIZE_V1 as int))
            && !supported_shape(header_depth(data@), header_buffer_size(data@))
            ==> (r matches Err(IntegrityVerificationError::CannotCreateMerkleTree(d, b)) && d == header_depth(data@) && b == header_buffer_size(data@)),
        data@.len() >= CONCURRENT_MERKLE_TREE_HEADER_SIZE_V1 && header_accepted(data@.subrange(0, CONCURRENT_MERKLE_TREE_HEADER_SIZE_V1 as int))
            && supported_shape(header_depth(data@), header_buffer_size(data@)) && !account_accepted(data@)
            ==> (r matches Err(IntegrityVerificationError::AccountDataTooShort(n)) && n == data@.len()),
        r matches Ok(a) ==> {
            &&& a.header.depth() == header_depth(data@)
            &&& a.header.buffer_size() == header_buffer_size(data@)
            &&& a.tree@.len() == tree_size(a.header.depth(), a.header.buffer_size())
            &&& data@ == data@.subrange(0, CONCURRENT_MERKLE_TREE_HEADER_SIZE_V1 as int) + a.tree@ + a.canopy@
        },
{
    if data.len() < CONCURRENT_MERKLE_TREE_HEADER_SIZE_V1 {
        return Err(IntegrityVerificationError::AccountDataTooShort(data.len()));
    }
    let (header_bytes, rest) = data.split_at(CONCURRENT_MERKLE_TREE_HEADER_SIZE_V1);
    let header = match decode_header(header_bytes) {
        Ok(h) => h,
        Err(e) => return Err(IntegrityVerificationError::Anchor(e)),
    };
    proof {
        assert(u32_le(header_bytes@, 6) == u32_le(data@, 6));
        assert(u32_le(header_bytes@, 2) == u32_le(data@, 2));
    }
    let size = match tree_region_size(&header) {
        Some(n) => n,
        None => return Err(IntegrityVerificationError::CannotCreateMerkleTree(header.get_max_depth(), header.get_max_buffer_size())),
    };
    if size > rest.len() {
        return Err(IntegrityVerificationError::AccountDataTooShort(data.len()));
    }
    let (tree, canopy) = rest.split_at(size);
    assert(data@ =~= header_bytes@ + tree@ + canopy@);
    Ok(TreeAccount { header, tree, canopy })
}

/// Checks `leaf` at `leaf_id` against the tree of `account`: the canopy
/// completes `proof`, and the tree must accept the leaf with it.
pub fn verify_leaf(account: &TreeAccount, tree_key: &[u8; 32], leaf: [u8; 32], proof: Vec<[u8; 32]>, leaf_id: u64) -> (r: Result<bool, IntegrityVerificationError>)
    requires
        supported_shape(account.header.depth(), account.header.buffer_size()),
        account.tree@.len() == tree_size(account.header.depth(), account.header.buffer_size()),
    ensures
        !tree_consistent(account.tree@, account.header.depth(), account.header.buffer_size())
            ==> (r matches Err(e) && e is InconsistentTree),
        tree_consistent(account.tree@, account.header.depth(), account.header.buffer_size())
            && leaf_id >= pow2(account.header.depth() as nat) ==> (r matches Err(IntegrityVerificationError::LeafIndexOutOfRange(i)) && i == leaf_id),
        tree_consistent(account.tree@, account.header.depth(), account.header.buffer_size())
            && leaf_id < pow2(account.header.depth() as nat) ==> (r is Ok <==> exists|l: nat|
            canopy_levels(account.canopy@.len(), account.header.depth() as nat, l)),
        r matches Err(e) ==> e is InconsistentTree || e is LeafIndexOutOfRange || e is InvalidCanopy,
        tree_consistent(account.tree@, account.header.depth(), account.header.buffer_size())
            && leaf_id < pow2(account.header.depth() as nat) && r is Err ==> (r matches Err(e) && e is InvalidCanopy),
        r is Ok ==> forall|l: nat| #[trigger] canopy_levels(account.canopy@.len(), account.header.depth() as nat, l)
            && proof@.len() <= account.header.depth() <= proof@.len() + l
            ==> canopy_completed(account.canopy@, account.header.depth(), leaf_id as u32, proof@).len() == account.header.depth(),
        r matches Ok(v) ==> v == leaf_verdict(
            account.header.depth(),
            account.header.buffer_size(),
            account.tree@,
            account.canopy@,
            leaf,
            proof@,
            leaf_id,
        ),
{
    let depth = account.header.get_max_depth();
    if !check_tree_consistent(account.tree, depth, account.header.get_max_buffer_size()) {
        return Err(IntegrityVerificationError::InconsistentTree);
    }
    proof {
        lemma_pow2_monotone(depth as nat, 30);
        lemma_pow2_31();
    }
    if leaf_id >= pow2_u64(depth) {
        return Err(IntegrityVerificationError::LeafIndexOutOfRange(leaf_id));
    }
    let index = leaf_id as u32;
    let mut full = proof;
    match complete_proof(account.canopy, depth, index, &mut full) {
        Ok(()) => {},
        Err(e) => return Err(e),
    }
    if full.len() != depth as usize {
        return Ok(false);
    }
    let root = recompute_root(&leaf, &full, index);
    Ok(prove_leaf(&account.header, tree_key, account.tree, root, leaf, &full, index))
}

/// What a proof response names: the tree, its address decoded, and the leaf.
#[derive(Debug)]
pub struct ProofTarget {
    pub tree_id: String,
    pub tree_key: [u8; 32],
    pub leaf: [u8; 32],
}

pub open spec fn tree_id_text(response: JsonValue) -> Option<Seq<char>> {
    text_spec(at_path(response, seq!["result"@, "tree_id"@]))
}

pub open spec fn leaf_text(response: JsonValue) -> Option<Seq<char>> {
    text_spec(at_path(response, seq!["result"@, "leaf"@]))
}

pub open spec fn proof_items(response: JsonValue) -> Option<Seq<JsonValue>> {
    array_spec(at_path(response, seq!["result"@, "proof"@]))
}

pub open spec fn leaf_id_of(asset: JsonValue) -> Option<u64> {
    u64_spec(at_path(asset, seq!["result"@, "compression"@, "leaf_id"@]))
}

/// Reads the tree and the leaf that a proof response names.
pub fn proof_target(response: &JsonValue) -> (r: Result<ProofTarget, IntegrityVerificationError>)
    ensures
        r is Ok <==> {
            &&& tree_id_text(*response) matches Some(t) && pubkey_bytes(t) is Some
            &&& leaf_text(*response) matches Some(l) && pubkey_bytes(l) is Some
        },
        r matches Ok(p) ==> {
            &&& Some(p.tree_id@) == tree_id_text(*response)
            &&& Some(p.tree_key) == pubkey_bytes(p.tree_id@)
            &&& Some(p.leaf) == pubkey_bytes(leaf_text(*response)->0)
        },
        tree_id_text(*response) is None ==> (r matches Err(IntegrityVerificationError::CannotGetResponseField(f)) && f@ == "tree_id"@),
        tree_id_text(*response) is Some && leaf_text(*response) is None
            ==> (r matches Err(IntegrityVerificationError::CannotGetResponseField(f)) && f@ == "leaf"@),
        tree_id_text(*response) is Some && leaf_text(*response) is Some && r is Err ==> (r matches Err(IntegrityVerificationError::ParsePubkey(_))),
{
    let tree_path = key_path2("result", "tree_id");
    let tree_id = match response.at(&tree_path) {
        Some(v) => match v.as_text() {
            Some(t) => t,
            None => return Err(IntegrityVerificationError::CannotGetResponseField(String::from_str("tree_id"))),
        },
        None => return Err(IntegrityVerificationError::CannotGetResponseField(String::from_str("tree_id"))),
    };
    let leaf_path = key_path2("result", "leaf");
    let leaf_text = match response.at(&leaf_path) {
        Some(v) => match v.as_text() {
            Some(t) => t,
            None => return Err(IntegrityVerificationError::CannotGetResponseField(String::from_str("leaf"))),
        },
        None => return Err(IntegrityVerificationError::CannotGetResponseField(String::from_str("leaf"))),
    };
    let leaf = parse_pubkey(leaf_text)?;
    let tree_key = parse_pubkey(tree_id)?;
    Ok(ProofTarget { tree_id: tree_id.clone(), tree_key, leaf })
}

pub open spec fn tree_region(data: Seq<u8>) -> Seq<u8> {
    data.subrange(
        CONCURRENT_MERKLE_TREE_HEADER_SIZE_V1 as int,
        CONCURRENT_MERKLE_TREE_HEADER_SIZE_V1 + tree_size(header_depth(data), header_buffer_size(data)),
    )
}

pub open spec fn canopy_region(data: Seq<u8>) -> Seq<u8> {
    data.subrange(
        CONCURRENT_MERKLE_TREE_HEADER_SIZE_V1 + tree_size(header_depth(data), header_buffer_size(data)),
        data.len() as int,
    )
}

/// Whether every input that the proof check reads is present and well-formed.
pub open spec fn proof_check_possible(response: JsonValue, asset: JsonValue, data: Option<Seq<u8>>) -> bool {
    &&& leaf_id_of(asset) is Some
    &&& data matches Some(d) && account_accepted(d)
    &&& proof_items(response) is Some
    &&& tree_consistent(tree_region(data->0), header_depth(data->0), header_buffer_size(data->0))
    &&& leaf_id_of(asset)->0 < pow2(header_depth(data->0) as nat)
    &&& exists|l: nat| canopy_levels(canopy_region(data->0).len(), header_depth(data->0) as nat, l)
}

/// Validates the proof of `response` for `target`: `asset` is the reference
/// host's record of the asset, which gives the leaf index, and `account_data`
/// the tree account as the chain holds it now (`None` when there is none).
pub fn check_proof_valid(target: &ProofTarget, response: &JsonValue, asset: &JsonValue, account_data: Option<Vec<u8>>) -> (r: Result<bool, IntegrityVerificationError>)
    ensures
        r is Ok <==> proof_check_possible(*response, *asset, match account_data {
            Some(d) => Some(d@),
            None => None,
        }),
        leaf_id_of(*asset) is None ==> (r matches Err(IntegrityVerificationError::CannotGetResponseField(f)) && f@ == "leaf_id"@),
        leaf_id_of(*asset) is Some && account_data is None ==> (r matches Err(IntegrityVerificationError::NullAssetAccount(t)) && t == target.tree_id),
        leaf_id_of(*asset) is Some && account_data is Some && account_data->0@.len() < CONCURRENT_MERKLE_TREE_HEADER_SIZE_V1
            ==> (r matches Err(IntegrityVerificationError::AccountDataTooShort(n)) && n == account_data->0@.len()),
        leaf_id_of(*asset) is Some && account_data is Some && account_data->0@.len() >= CONCURRENT_MERKLE_TREE_HEADER_SIZE_V1
            && !header_accepted(account_data->0@.subrange(0, CONCURRENT_MERKLE_TREE_HEADER_SIZE_V1 as int))
            ==> (r matches Err(IntegrityVerificationError::Anchor(_))),
        leaf_id_of(*asset) is Some && account_data is Some && account_data->0@.len() >= CONCURRENT_MERKLE_TREE_HEADER_SIZE_V1
            && header_accepted(account_data->0@.subrange(0, CONCURRENT_MERKLE_TREE_HEADER_SIZE_V1 as int))
            && !supported_shape(header_depth(account_data->0@), header_buffer_size(account_data->0@))
            ==> (r matches Err(IntegrityVerificationError::CannotCreateMerkleTree(d, b)) && d == header_depth(account_data->0@)
                && b == header_buffer_size(account_data->0@)),
        leaf_id_of(*asset) is Some && account_data is Some && account_data->0@.len() >= CONCURRENT_MERKLE_TREE_HEADER_SIZE_V1
            && header_accepted(account_data->0@.subrange(0, CONCURRENT_MERKLE_TREE_HEADER_SIZE_V1 as int))
            && supported_shape(header_depth(account_data->0@), header_buffer_size(account_data->0@)) && !account_accepted(account_data->0@)
            ==> (r matches Err(IntegrityVerificationError::AccountDataTooShort(n)) && n == account_data->0@.len()),
        leaf_id_of(*asset) is Some && account_data is Some && account_accepted(account_data->0@) && proof_items(*response) is None
            ==> (r matches Err(IntegrityVerificationError::CannotGetResponseField(f)) && f@ == "proof"@),
        leaf_id_of(*asset) is Some && account_data is Some && account_accepted(account_data->0@) && proof_items(*response) is Some
            && !tree_consistent(tree_region(account_data->0@), header_depth(account_data->0@), header_buffer_size(account_data->0@))
            ==> (r matches Err(e) && e is InconsistentTree),
        leaf_id_of(*asset) is Some && account_data is Some && account_accepted(account_data->0@) && proof_items(*response) is Some
            && tree_consistent(tree_region(account_data->0@), header_depth(account_data->0@), header_buffer_size(account_data->0@))
            && leaf_id_of(*asset)->0 >= pow2(header_depth(account_data->0@) as nat)
            ==> (r matches Err(IntegrityVerificationError::LeafIndexOutOfRange(i)) && i == leaf_id_of(*asset)->0),
        leaf_id_of(*asset) is Some && account_data is Some && account_accepted(account_data->0@) && proof_items(*response) is Some
            && tree_consistent(tree_region(account_data->0@), header_depth(account_data->0@), header_buffer_size(account_data->0@))
            && leaf_id_of(*asset)->0 < pow2(header_depth(account_data->0@) as nat)
            && !(exists|l: nat| canopy_levels(canopy_region(account_data->0@).len(), header_depth(account_data->0@) as nat, l))
            ==> (r matches Err(e) && e is InvalidCanopy),
        r is Ok ==> forall|l: nat| #[trigger] canopy_levels(canopy_region(account_data->0@).len(), header_depth(account_data->0@) as nat, l)
            && decoded_nodes(proof_items(*response)->0).len() <= header_depth(account_data->0@)
            <= decoded_nodes(proof_items(*response)->0).len() + l
            ==> canopy_completed(
                canopy_region(account_data->0@),
                header_depth(account_data->0@),
                leaf_id_of(*asset)->0 as u32,
                decoded_nodes(proof_items(*response)->0),
            ).len() == header_depth(account_data->0@),
        r matches Ok(v) ==> v == leaf_verdict(
            header_depth(account_data->0@),
            header_buffer_size(account_data->0@),
            tree_region(account_data->0@),
            canopy_region(account_data->0@),
            target.leaf,
            decoded_nodes(proof_items(*response)->0),
            leaf_id_of(*asset)->0,
        ),
{
    let id_path = key_path3("result", "compression", "leaf_id");
    let leaf_id = match asset.at(&id_path) {
        Some(v) => match v.as_u64() {
            Some(n) => n,
            None => return Err(IntegrityVerificationError::CannotGetResponseField(String::from_str("leaf_id"))),
        },
        None => return Err(IntegrityVerificationError::CannotGetResponseField(String::from_str("leaf_id"))),
    };
    let data = match account_data {
        Some(d) => d,
        None => return Err(IntegrityVerificationError::NullAssetAccount(target.tree_id.clone())),
    };
    let account = split_account(data.as_slice())?;
    proof {
        let h = data@.subrange(0, CONCURRENT_MERKLE_TREE_HEADER_SIZE_V1 as int);
        assert(tree_region(data@) =~= account.tree@);
        assert(canopy_region(data@) =~= account.canopy@);
    }
    let proof_path = key_path2("result", "proof");
    let items = match response.at(&proof_path) {
        Some(v) => match v.as_array() {
            Some(items) => items,
            None => return Err(IntegrityVerificationError::CannotGetResponseField(String::from_str("proof"))),
        },
        None => return Err(IntegrityVerificationError::CannotGetResponseField(String::from_str("proof"))),
    };
    let nodes = proof_nodes(items);
    verify_leaf(&account, &target.tree_key, target.leaf, nodes, leaf_id)
}

} // verus!
