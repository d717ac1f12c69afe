//! Messages of the index protocol.

use vstd::prelude::*;

verus! {

/// How a caller hashes blocks.
#[derive(Debug, Clone, Copy, PartialEq, Eq, Structural)]
pub enum HashAlgorithm {
    HashAlgoUnknown,
    HashAlgoSha256ChainUnigram,
    HashAlgoSha256ChainBigram,
}

impl HashAlgorithm {
    /// The number that stands for this algorithm on the wire.
    pub open spec fn wire_number(self) -> i32 {
        match self {
            HashAlgorithm::HashAlgoUnknown => 0,
            HashAlgorithm::HashAlgoSha256ChainUnigram => 1,
            HashAlgorithm::HashAlgoSha256ChainBigram => 2,
        }
    }

    /// The number that stands for this algorithm on the wire.
    pub fn number(self) -> (r: i32)
        ensures
            r == self.wire_number(),
    {
        self as i32
    }
}

/// Where a worker holds a block.
#[derive(Debug, Clone, Copy, PartialEq, Eq, Structural)]
pub enum TierType {
    TierUnknown,
    TierHbm,
    TierDram,
    TierSsd,
}

/// The number of [`TierType::TierHbm`].
pub const TIER_HBM: i32 = 1;

/// The number of [`TierType::TierDram`].
pub const TIER_DRAM: i32 = 2;

/// The number of [`TierType::TierSsd`].
pub const TIER_SSD: i32 = 3;

/// The tier with the given number.
pub open spec fn tier_with_number(number: i32) -> Option<TierType> {
    if number == 0 {
        Some(TierType::TierUnknown)
    } else if number == TIER_HBM {
        Some(TierType::TierHbm)
    } else if number == TIER_DRAM {
        Some(TierType::TierDram)
    } else if number == TIER_SSD {
        Some(TierType::TierSsd)
    } else {
        None
    }
}

impl TierType {
    /// The tier with the given number, `None` for a number this build does not
    /// know.
    pub fn from_number(number: i32) -> (r: Option<TierType>)
        ensures
            r == tier_with_number(number),
    {
        match number {
            0 => Some(TierType::TierUnknown),
            1 => Some(TierType::TierHbm),
            2 => Some(TierType::TierDram),
            3 => Some(TierType::TierSsd),
            _ => None,
        }
    }
}

/// What an action of a batch does.
#[derive(Debug, Clone, Copy, PartialEq, Eq, Structural)]
pub enum ExternalKvActionType {
    ActionUnknown,
    ActionReport,
    ActionRevoke,
    ActionClearAllAtTier,
}

/// The action type with the given number.
pub open spec fn action_with_number(number: i32) -> Option<ExternalKvActionType> {
    if number == 0 {
        Some(ExternalKvActionType::ActionUnknown)
    } else if number == 1 {
        Some(ExternalKvActionType::ActionReport)
    } else if number == 2 {
        Some(ExternalKvActionType::ActionRevoke)
    } else if number == 3 {
        Some(ExternalKvActionType::ActionClearAllAtTier)
    } else {
        None
    }
}

impl ExternalKvActionType {
    /// The action type with the given number, `None` for a number this build
    /// does not know.
    pub fn from_number(number: i32) -> (r: Option<ExternalKvActionType>)
        ensures
            r == action_with_number(number),
    {
        match number {
            0 => Some(ExternalKvActionType::ActionUnknown),
            1 => Some(ExternalKvActionType::ActionReport),
            2 => Some(ExternalKvActionType::ActionRevoke),
            3 => Some(ExternalKvActionType::ActionClearAllAtTier),
            _ => None,
        }
    }
}

/// The hash space that block hashes were computed in.
#[derive(Debug, PartialEq, Eq)]
pub struct HashSpec {
    pub block_size: u32,
    pub algo: i32,
    pub version: u32,
    pub namespace: String,
}

/// The model of a [`HashSpec`].
pub struct HashSpecView {
    pub block_size: u32,
    pub algo: i32,
    pub version: u32,
    pub namespace: Seq<char>,
}

impl View for HashSpec {
    type V = HashSpecView;

    open spec fn view(&self) -> HashSpecView {
        HashSpecView {
            block_size: self.block_size,
            algo: self.algo,
            version: self.version,
            namespace: self.namespace@,
        }
    }
}

impl Clone for HashSpec {
    fn clone(&self) -> (r: Self)
        ensures
            r == *self,
    {
        HashSpec {
            block_size: self.block_size,
            algo: self.algo,
            version: self.version,
            namespace: self.namespace.clone(),
        }
    }
}

/// How a worker's cache components take part in prefix matching.
#[derive(Debug, Clone, Copy, PartialEq, Eq, Structural)]
pub struct WorkerCacheSpec {
    pub version: u32,
    /// Which components the worker's model needs, as a bitmask.
    pub components: u32,
    pub swa_window_tokens: u32,
    /// Tiers from which each component can be served, as bitmasks of
    /// `1 << tier`.
    pub full_tier_mask: u32,
    pub swa_tier_mask: u32,
    pub mamba_tier_mask: u32,
}

/// One mutation of a batch.
#[derive(Debug, Clone, PartialEq, Eq)]
pub struct ExternalKvAction {
    /// The number of an [`ExternalKvActionType`].
    pub kind: i32,
    pub tier: i32,
    pub hashes: Vec<String>,
    pub component_masks: Vec<u32>,
    pub block_sizes: Vec<u32>,
}

/// The model of an [`ExternalKvAction`].
pub struct ActionView {
    pub kind: i32,
    pub tier: i32,
    pub hashes: Seq<Seq<char>>,
}

impl View for ExternalKvAction {
    type V = ActionView;

    open spec fn view(&self) -> ActionView {
        ActionView { kind: self.kind, tier: self.tier, hashes: crate::text::texts(self.hashes@) }
    }
}

/// A worker's ordered batch of placement changes.
#[derive(Debug, Clone, PartialEq, Eq)]
pub struct ApplyExternalKvBatchRequest {
    pub worker_id: String,
    /// The worker's routing identity.
    pub worker_address: String,
    pub seq: u64,
    /// Identifies one lifetime of the publisher.
    pub incarnation: String,
    pub hash_spec: Option<HashSpec>,
    pub dp_rank: u32,
    pub actions: Vec<ExternalKvAction>,
}

/// Where a worker's stream stands after a batch.
#[derive(Debug, Clone, Copy, PartialEq, Eq, Structural)]
pub struct ApplyExternalKvBatchResponse {
    pub last_applied_seq: u64,
    pub duplicate: bool,
    pub has_applied_seq: bool,
}

/// Asks which workers hold the given blocks.
#[derive(Debug, Clone, PartialEq, Eq)]
pub struct MatchExternalKvRequest {
    pub hashes: Vec<String>,
    pub count_as_hit: bool,
}

/// The blocks that a worker holds at one tier.
#[derive(Debug, Clone, PartialEq, Eq)]
pub struct TierHashes {
    pub tier: i32,
    pub hashes: Vec<String>,
}

/// The model of a [`TierHashes`].
pub struct TierHashesView {
    pub tier: i32,
    pub hashes: Seq<Seq<char>>,
}

impl View for TierHashes {
    type V = TierHashesView;

    open spec fn view(&self) -> TierHashesView {
        TierHashesView { tier: self.tier, hashes: crate::text::texts(self.hashes@) }
    }
}

/// One worker that holds some of the requested blocks.
#[derive(Debug, Clone, PartialEq, Eq)]
pub struct ExternalKvNodeMatch {
    pub worker_id: String,
    pub address: String,
    pub hashes_by_tier: Vec<TierHashes>,
    pub dp_rank: u32,
}

/// The model of an [`ExternalKvNodeMatch`].
pub struct NodeMatchView {
    pub worker_id: Seq<char>,
    pub address: Seq<char>,
    pub hashes_by_tier: Seq<TierHashesView>,
    pub dp_rank: u32,
}

impl View for ExternalKvNodeMatch {
    type V = NodeMatchView;

    open spec fn view(&self) -> NodeMatchView {
        NodeMatchView {
            worker_id: self.worker_id@,
            address: self.address@,
            hashes_by_tier: self.hashes_by_tier@.map_values(|t: TierHashes| t@),
            dp_rank: self.dp_rank,
        }
    }
}

/// The workers that hold the requested blocks.
#[derive(Debug, Clone, PartialEq, Eq)]
pub struct MatchExternalKvResponse {
    pub matches: Vec<ExternalKvNodeMatch>,
}

impl View for MatchExternalKvResponse {
    type V = Seq<NodeMatchView>;

    open spec fn view(&self) -> Seq<NodeMatchView> {
        self.matches@.map_values(|m: ExternalKvNodeMatch| m@)
    }
}

/// Asks how much of an ordered request each worker can serve.
#[derive(Debug, Clone, PartialEq, Eq)]
pub struct MatchExternalKvPrefixRequest {
    pub hashes: Vec<String>,
    pub hash_spec: Option<HashSpec>,
    /// Consider at most this many leading blocks; 0 means all of them.
    pub max_blocks: u32,
    /// Return at most this many workers; 0 means all of them.
    pub top_k: u32,
    pub count_as_hit: bool,
}

/// One worker's reusable prefix.
#[derive(Debug, Clone, PartialEq, Eq)]
pub struct ExternalKvPrefixMatch {
    pub worker_id: String,
    pub address: String,
    pub dp_rank: u32,
    pub matched_prefix_blocks: u32,
    pub tiers: Vec<i32>,
}

/// The model of an [`ExternalKvPrefixMatch`].
pub struct PrefixMatchView {
    pub worker_id: Seq<char>,
    pub address: Seq<char>,
    pub dp_rank: u32,
    pub matched_prefix_blocks: u32,
    pub tiers: Seq<i32>,
}

impl View for ExternalKvPrefixMatch {
    type V = PrefixMatchView;

    open spec fn view(&self) -> PrefixMatchView {
        PrefixMatchView {
            worker_id: self.worker_id@,
            address: self.address@,
            dp_rank: self.dp_rank,
            matched_prefix_blocks: self.matched_prefix_blocks,
            tiers: self.tiers@,
        }
    }
}

/// The reusable prefix of every worker that has one, longest first.
#[derive(Debug, Clone, PartialEq, Eq)]
pub struct MatchExternalKvPrefixResponse {
    pub matches: Vec<ExternalKvPrefixMatch>,
    pub best_prefix_blocks: u32,
    /// How many of the request's blocks were read to answer it.
    pub queried_blocks: u32,
    /// Workers that were dropped because they recorded another hash space.
    pub spec_mismatched_workers: u32,
}

/// The model of a [`MatchExternalKvPrefixResponse`].
pub struct PrefixResponseView {
    pub matches: Seq<PrefixMatchView>,
    pub best_prefix_blocks: u32,
    pub queried_blocks: u32,
    pub spec_mismatched_workers: u32,
}

impl View for MatchExternalKvPrefixResponse {
    type V = PrefixResponseView;

    open spec fn view(&self) -> PrefixResponseView {
        PrefixResponseView {
            matches: prefix_matches(self.matches@),
            best_prefix_blocks: self.best_prefix_blocks,
            queried_blocks: self.queried_blocks,
            spec_mismatched_workers: self.spec_mismatched_workers,
        }
    }
}

/// The models of a sequence of prefix matches.
pub open spec fn prefix_matches(s: Seq<ExternalKvPrefixMatch>) -> Seq<PrefixMatchView> {
    s.map_values(|m: ExternalKvPrefixMatch| m@)
}

/// Asks how often the given blocks were hit.
#[derive(Debug, Clone, PartialEq, Eq)]
pub struct GetExternalKvHitCountsRequest {
    pub hashes: Vec<String>,
}

/// How often one block was hit.
#[derive(Debug, Clone, PartialEq, Eq)]
pub struct HitCountEntry {
    pub hash: String,
    pub hit_count_total: u64,
}

/// The hit counters that exist for the requested blocks.
#[derive(Debug, Clone, PartialEq, Eq)]
pub struct GetExternalKvHitCountsResponse {
    pub entries: Vec<HitCountEntry>,
}

/// The model of a hit count response: hashes with their counts.
impl View for GetExternalKvHitCountsResponse {
    type V = Seq<(Seq<char>, u64)>;

    open spec fn view(&self) -> Seq<(Seq<char>, u64)> {
        self.entries@.map_values(|e: HitCountEntry| (e.hash@, e.hit_count_total))
    }
}

} // verus!
