use vstd::prelude::*;

verus! {

/// The field that listed assets are ordered by.
#[derive(Debug, Clone, Copy, PartialEq, Eq, Hash)]
pub enum AssetSortBy {
    Created,
    Updated,
    RecentAction,
    NoSorting,
}

/// The direction of an ordering.
#[derive(Debug, Clone, Copy, PartialEq, Eq, Hash)]
pub enum AssetSortDirection {
    Asc,
    Desc,
}

impl Default for AssetSortDirection {
    fn default() -> (r: AssetSortDirection)
        ensures
            r == AssetSortDirection::Desc,
    {
        AssetSortDirection::Desc
    }
}

/// How listed assets are ordered.
#[derive(Debug, Clone, Copy, PartialEq, Eq, Hash)]
pub struct AssetSorting {
    pub sort_by: AssetSortBy,
    pub sort_direction: Option<AssetSortDirection>,
}

impl Default for AssetSorting {
    /// Newest first: by creation, descending.
    fn default() -> (r: AssetSorting)
        ensures
            r.sort_by == AssetSortBy::Created,
            r.sort_direction == Some(AssetSortDirection::Desc),
    {
        AssetSorting { sort_by: AssetSortBy::Created, sort_direction: Some(AssetSortDirection::default()) }
    }
}

/// Parameters of a listing of the assets of one group.
#[derive(Debug, Clone, PartialEq, Eq)]
pub struct GetAssetsByGroup {
    pub group_key: String,
    pub group_value: String,
    pub sort_by: Option<AssetSorting>,
    pub limit: Option<u32>,
    pub page: Option<u32>,
    pub before: Option<String>,
    pub after: Option<String>,
}

/// Parameters of a listing of the assets of one owner.
#[derive(Debug, Clone, PartialEq, Eq)]
pub struct GetAssetsByOwner {
    pub owner_address: String,
    pub sort_by: Option<AssetSorting>,
    pub limit: Option<u32>,
    pub page: Option<u32>,
    pub before: Option<String>,
    pub after: Option<String>,
}

/// Parameters of a lookup of one asset.
#[derive(Debug, Clone, PartialEq, Eq)]
pub struct GetAsset {
    pub id: String,
}

/// Parameters of a lookup of one asset's proof.
#[derive(Debug, Clone, PartialEq, Eq)]
pub struct GetAssetProof {
    pub id: String,
}

/// Parameters of a listing of the assets of one creator.
#[derive(Debug, Clone, PartialEq, Eq)]
pub struct GetAssetsByCreator {
    pub creator_address: String,
    pub only_verified: Option<bool>,
    pub sort_by: Option<AssetSorting>,
    pub limit: Option<u32>,
    pub page: Option<u32>,
    pub before: Option<String>,
    pub after: Option<String>,
}

/// Parameters of a listing of the assets of one authority.
#[derive(Debug, Clone, PartialEq, Eq)]
pub struct GetAssetsByAuthority {
    pub authority_address: String,
    pub sort_by: Option<AssetSorting>,
    pub limit: Option<u32>,
    pub page: Option<u32>,
    pub before: Option<String>,
    pub after: Option<String>,
}

} // verus!
