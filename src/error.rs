use vstd::prelude::*;

verus! {

/// What can go wrong while checking one category or one proof.
#[derive(Debug)]
pub enum IntegrityVerificationError {
    /// The category's keys could not be had.
    FetchKeys(String),
    /// A response lacks the named field, or holds it with another type.
    CannotGetResponseField(String),
    /// The text is no valid account address.
    ParsePubkey(String),
    /// The account-compression program refused the tree data.
    Anchor(String),
    /// The tree header names a depth and buffer size that no tree layout has.
    CannotCreateMerkleTree(u32, u32),
    /// The chain holds no account under this address.
    NullAssetAccount(String),
    /// A filter expression does not compile.
    InvalidRegex(String),
    /// A configuration value is out of range.
    ValidateConfig(String),
    /// A host answered with this status instead of success.
    ResponseStatusCode(u16),
    /// The account data ends before the region that must come next.
    AccountDataTooShort(usize),
    /// The tree region's counters are not those of an initialized tree.
    InconsistentTree,
    /// The leaf index does not fit in the tree.
    LeafIndexOutOfRange(u64),
    /// The canopy region, of this many bytes, caches no whole number of levels.
    InvalidCanopy(usize),
}

} // verus!
