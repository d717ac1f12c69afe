//! The prefix scan: which worker holds how much of a request.
//!
//! The scan reads the first block, then the registry once for the workers that
//! hold it, then walks forward in growing windows. A candidate drops out at its
//! first gap and the scan stops as soon as none is left, so the number of
//! blocks read follows the prefix that exists rather than the length of the
//! request.

use vstd::hash_map::StringHashMap;
use vstd::prelude::*;

use crate::pb::{
    ExternalKvPrefixMatch, MatchExternalKvPrefixRequest, MatchExternalKvPrefixResponse,
    PrefixMatchView,
};
use crate::ranking::TieBreak;
use crate::redis_backend::hits::{HitBump, HitBumpView};
use crate::redis_backend::replies::{OwnerView, PlacementOwner, RegistryView, WorkerView};
use crate::status::RpcStatus;

verus! {

/// First look-ahead window of a scan, doubled as the prefix proves itself.
pub const PREFIX_SCAN_CHUNK: usize = 32;

/// Largest look-ahead window, which bounds the concurrent reads of a request.
pub const REDIS_FANOUT_CHUNK: usize = 256;

/// How far a scan reads before it answers with what it has.
pub const PREFIX_SCAN_MAX_BLOCKS: usize = 2048;

/// How many leading blocks a hit-counted scan credits.
pub const PREFIX_HIT_MAX_BLOCKS: usize = 256;

/// A worker that holds the first block and is still being extended, or has
/// stalled at a gap.
#[derive(Debug)]
pub struct PrefixCandidate {
    pub worker: String,
    pub address: String,
    pub dp_rank: u32,
    pub generation: i64,
    /// The tiers at which it holds blocks of the prefix, as a bitmask.
    pub mask: i64,
    /// How many leading blocks it holds.
    pub matched: usize,
}

/// The model of a [`PrefixCandidate`].
pub struct CandidateView {
    pub worker: Seq<char>,
    pub address: Seq<char>,
    pub dp_rank: u32,
    pub generation: i64,
    pub mask: i64,
    pub matched: nat,
}

impl View for PrefixCandidate {
    type V = CandidateView;

    open spec fn view(&self) -> CandidateView {
        CandidateView {
            worker: self.worker@,
            address: self.address@,
            dp_rank: self.dp_rank,
            generation: self.generation,
            mask: self.mask,
            matched: self.matched as nat,
        }
    }
}

/// The models of several candidates.
pub open spec fn candidate_views(s: Seq<PrefixCandidate>) -> Seq<CandidateView> {
    s.map_values(|c: PrefixCandidate| c@)
}

/// The state of a scan.
pub struct ScanView {
    pub extending: Seq<CandidateView>,
    pub stalled: Seq<CandidateView>,
    /// How many blocks were read.
    pub queried: nat,
    /// How many blocks the next window reads at most.
    pub chunk: nat,
    /// How many blocks are read at most.
    pub limit: nat,
    /// Workers that were dropped because they recorded another hash space.
    pub mismatched: u32,
}

/// The last entry of `worker` in a block's placement.
pub open spec fn owner_entry(row: Seq<OwnerView>, worker: Seq<char>) -> Option<OwnerView>
    decreases row.len(),
{
    if row.len() == 0 {
        None
    } else if row.last().worker == worker {
        Some(row.last())
    } else {
        owner_entry(row.drop_last(), worker)
    }
}

/// Whether a block is placed on `worker` in its given generation.
pub open spec fn holds(row: Seq<OwnerView>, worker: Seq<char>, generation: i64) -> bool {
    owner_entry(row, worker) matches Some(owner) && owner.generation == generation
}

/// Whether a block extends a candidate's prefix.
pub open spec fn keeps(c: CandidateView, row: Seq<OwnerView>) -> bool {
    holds(row, c.worker, c.generation)
}

/// A candidate with one more block.
pub open spec fn extended(c: CandidateView, row: Seq<OwnerView>) -> CandidateView {
    CandidateView {
        mask: c.mask | owner_entry(row, c.worker)->0.mask,
        matched: c.matched + 1,
        ..c
    }
}

/// The candidates that a block extends, extended by it.
pub open spec fn kept_by(s: Seq<CandidateView>, row: Seq<OwnerView>) -> Seq<CandidateView> {
    s.filter(|c: CandidateView| keeps(c, row)).map_values(|c: CandidateView| extended(c, row))
}

/// The candidates that stall at a block.
pub open spec fn dropped_by(s: Seq<CandidateView>, row: Seq<OwnerView>) -> Seq<CandidateView> {
    s.filter(|c: CandidateView| !keeps(c, row))
}

/// The scan after one more block.
pub open spec fn step(v: ScanView, row: Seq<OwnerView>) -> ScanView {
    ScanView {
        extending: kept_by(v.extending, row),
        stalled: v.stalled + dropped_by(v.extending, row),
        ..v
    }
}

/// The scan after several more blocks.
pub open spec fn walk(v: ScanView, rows: Seq<Seq<OwnerView>>) -> ScanView
    decreases rows.len(),
{
    if rows.len() == 0 {
        v
    } else {
        step(walk(v, rows.drop_last()), rows.last())
    }
}

/// The next window's size.
pub open spec fn grown(chunk: nat) -> nat {
    if 2 * chunk <= REDIS_FANOUT_CHUNK {
        2 * chunk
    } else {
        REDIS_FANOUT_CHUNK as nat
    }
}

/// Where the next window of a scan ends; `None` when the scan is over.
pub open spec fn window_end(v: ScanView) -> Option<nat> {
    if v.queried < v.limit && v.extending.len() > 0 {
        if v.queried + v.chunk <= v.limit {
            Some(v.queried + v.chunk)
        } else {
            Some(v.limit)
        }
    } else {
        None
    }
}

/// The scan after the blocks of a window.
pub open spec fn absorbed(v: ScanView, rows: Seq<Seq<OwnerView>>) -> ScanView {
    ScanView { queried: v.queried + rows.len(), chunk: grown(v.chunk), ..walk(v, rows) }
}

/// All candidates of a scan.
pub open spec fn settled(v: ScanView) -> Seq<CandidateView> {
    v.stalled + v.extending
}

/// What a candidate is reported as.
pub open spec fn match_of(c: CandidateView) -> PrefixMatchView {
    PrefixMatchView {
        worker_id: c.worker,
        address: c.address,
        dp_rank: c.dp_rank,
        matched_prefix_blocks: c.matched as u32,
        tiers: crate::redis_backend::codec::tiers_of(c.mask),
    }
}

/// The answer of a scan.
pub open spec fn scan_answer(v: ScanView, top_k: u32) -> crate::pb::PrefixResponseView {
    crate::ranking::answer(
        TieBreak::WorkerId,
        settled(v).map_values(|c: CandidateView| match_of(c)),
        top_k,
        v.queried as u32,
        v.mismatched,
    )
}

/// The longest prefix of any candidate.
pub open spec fn longest_match(s: Seq<CandidateView>) -> nat
    decreases s.len(),
{
    if s.len() == 0 {
        0
    } else if s.last().matched > longest_match(s.drop_last()) {
        s.last().matched
    } else {
        longest_match(s.drop_last())
    }
}

/// The candidates whose prefix covers the block at `index`.
pub open spec fn reusing(s: Seq<CandidateView>, index: nat) -> Seq<(Seq<char>, i64)>
    decreases s.len(),
{
    if s.len() == 0 {
        Seq::empty()
    } else if s.last().matched > index {
        reusing(s.drop_last(), index).push((s.last().worker, s.last().generation))
    } else {
        reusing(s.drop_last(), index)
    }
}

/// The hits that a scan records: for each of the first blocks of the longest
/// prefix, the candidates that can reuse it.
pub open spec fn planned_hits(hashes: Seq<Seq<char>>, s: Seq<CandidateView>) -> Seq<HitBumpView> {
    let best = if longest_match(s) <= PREFIX_HIT_MAX_BLOCKS {
        longest_match(s)
    } else {
        PREFIX_HIT_MAX_BLOCKS as nat
    };
    Seq::new(best, |i: int| HitBumpView { hash: hashes[i], owners: reusing(s, i as nat) })
}

/// The hits that a query asks a scan to record.
pub open spec fn hits_asked(
    count_as_hit: bool,
    hashes: Seq<Seq<char>>,
    s: Seq<CandidateView>,
) -> Seq<HitBumpView> {
    if count_as_hit {
        planned_hits(hashes, s)
    } else {
        Seq::empty()
    }
}

/// How a query ends.
#[derive(Debug)]
pub struct Concluded {
    /// What the query is answered with.
    pub outcome: Result<MatchExternalKvPrefixResponse, RpcStatus>,
    /// Why hits could not be recorded, which is to be logged.
    pub unrecorded: Option<RpcStatus>,
}

/// Whether a query ends as it should: its scan is the answer, whatever became of
/// the hits.
pub open spec fn concludes(
    v: ScanView,
    top_k: u32,
    recorded: Result<(), RpcStatus>,
    r: Concluded,
) -> bool {
    &&& r.outcome matches Ok(response) && response@ == scan_answer(v, top_k)
    &&& r.unrecorded == match recorded {
        Ok(_) => None,
        Err(status) => Some(status),
    }
}

/// The state invariant of a scan.
pub open spec fn scan_is_valid(v: ScanView) -> bool {
    &&& 1 <= v.queried <= v.limit <= PREFIX_SCAN_MAX_BLOCKS
    &&& PREFIX_SCAN_CHUNK <= v.chunk <= REDIS_FANOUT_CHUNK
    &&& v.queried < v.limit ==> v.chunk <= v.queried + PREFIX_SCAN_CHUNK - 1
    &&& forall|i: int|
        0 <= i < v.extending.len() ==> (#[trigger] v.extending[i]).matched == v.queried
    &&& forall|i: int|
        0 <= i < v.stalled.len() ==> 1 <= (#[trigger] v.stalled[i]).matched < v.queried
}

/// The models of the rows of a window.
pub open spec fn row_views(rows: Seq<Vec<PlacementOwner>>) -> Seq<Seq<OwnerView>> {
    rows.map_values(|row: Vec<PlacementOwner>| crate::redis_backend::replies::owner_views(row@))
}

/// What becomes of a worker that holds the first block.
pub enum Verdict {
    /// It cannot be routed to, or its placement is out of date.
    Unusable,
    /// It recorded another hash space.
    Mismatched,
    /// Its prefix is followed.
    Admitted,
}

/// Judges a worker that holds the first block. A worker that never reported a
/// hash space is unchecked, and a request that names none checks nothing.
pub open spec fn verdict(
    owner: OwnerView,
    view: RegistryView,
    required: Option<Seq<char>>,
) -> Verdict {
    if !view.alive || view.address.len() == 0 || owner.generation != view.generation {
        Verdict::Unusable
    } else if required is Some && view.spec.len() > 0 && view.spec != required->0 {
        Verdict::Mismatched
    } else {
        Verdict::Admitted
    }
}

/// The candidate that an admitted worker starts as.
pub open spec fn first_candidate(owner: OwnerView, view: RegistryView) -> CandidateView {
    CandidateView {
        worker: owner.worker,
        address: view.address,
        dp_rank: view.dp_rank,
        generation: view.generation,
        mask: owner.mask,
        matched: 1,
    }
}

/// The candidates among the first `n` workers that hold the first block.
pub open spec fn admitted(
    owners: Seq<OwnerView>,
    views: Seq<RegistryView>,
    required: Option<Seq<char>>,
    n: int,
) -> Seq<CandidateView>
    decreases n,
{
    if n <= 0 {
        Seq::empty()
    } else {
        let before = admitted(owners, views, required, n - 1);
        if verdict(owners[n - 1], views[n - 1], required) is Admitted {
            before.push(first_candidate(owners[n - 1], views[n - 1]))
        } else {
            before
        }
    }
}

/// How many of the first `n` workers recorded another hash space.
pub open spec fn mismatches(
    owners: Seq<OwnerView>,
    views: Seq<RegistryView>,
    required: Option<Seq<char>>,
    n: int,
) -> nat
    decreases n,
{
    if n <= 0 {
        0
    } else {
        mismatches(owners, views, required, n - 1) + (if verdict(
            owners[n - 1],
            views[n - 1],
            required,
        ) is Mismatched {
            1nat
        } else {
            0
        })
    }
}

/// The largest count that an answer can carry, up to the given one.
pub open spec fn capped(count: nat) -> u32 {
    if count <= u32::MAX {
        count as u32
    } else {
        u32::MAX
    }
}

/// How many blocks of a request a scan may read.
pub open spec fn scan_limit(len: nat, max_blocks: u32) -> nat {
    let limit = crate::prefix::considered(len, max_blocks);
    if limit <= PREFIX_SCAN_MAX_BLOCKS {
        limit
    } else {
        PREFIX_SCAN_MAX_BLOCKS as nat
    }
}

/// How many registry entries can be paired with owners.
pub open spec fn paired(owners: nat, views: nat) -> nat {
    if owners <= views {
        owners
    } else {
        views
    }
}

/// A scan that has read the first block and the registry.
pub open spec fn started(
    owners: Seq<OwnerView>,
    views: Seq<RegistryView>,
    required: Option<Seq<char>>,
    len: nat,
    max_blocks: u32,
) -> ScanView {
    let n = paired(owners.len(), views.len()) as int;
    ScanView {
        extending: admitted(owners, views, required, n),
        stalled: Seq::empty(),
        queried: 1,
        chunk: PREFIX_SCAN_CHUNK as nat,
        limit: scan_limit(len, max_blocks),
        mismatched: capped(mismatches(owners, views, required, n)),
    }
}

/// What a scan begins with.
#[derive(Debug)]
pub enum ScanStart {
    /// The request names no block.
    Answer(MatchExternalKvPrefixResponse),
    /// The placement of this block is to be read.
    ReadFirst(String),
}

/// Begins a scan: a request without blocks is answered, any other one asks for
/// its first block.
pub fn begin_scan(request: &MatchExternalKvPrefixRequest) -> (r: ScanStart)
    ensures
        match r {
            ScanStart::Answer(response) => request.hashes@.len() == 0 && response@
                == crate::ranking::answer(TieBreak::WorkerId, Seq::empty(), request.top_k, 0, 0),
            ScanStart::ReadFirst(hash) => request.hashes@.len() > 0 && hash@
                == request.hashes@[0]@,
        },
{
    if request.hashes.len() == 0 {
        let none: Vec<ExternalKvPrefixMatch> = Vec::new();
        assert(crate::pb::prefix_matches(none@) =~= Seq::<PrefixMatchView>::empty());
        ScanStart::Answer(prefix_response(none, request.top_k, 0, 0))
    } else {
        ScanStart::ReadFirst(request.hashes[0].clone())
    }
}

/// The answer of a scan: longest prefix first, equally long ones by worker id,
/// at most `top_k` of them.
pub fn prefix_response(
    matches: Vec<ExternalKvPrefixMatch>,
    top_k: u32,
    queried_blocks: u32,
    spec_mismatched_workers: u32,
) -> (r: MatchExternalKvPrefixResponse)
    ensures
        r@ == crate::ranking::answer(
            TieBreak::WorkerId,
            crate::pb::prefix_matches(matches@),
            top_k,
            queried_blocks,
            spec_mismatched_workers,
        ),
{
    crate::ranking::ranked_response(
        TieBreak::WorkerId,
        matches,
        top_k,
        queried_blocks,
        spec_mismatched_workers,
    )
}

/// The workers of a placement, whose registry entries are to be read.
pub fn owner_workers(owners: &Vec<PlacementOwner>) -> (r: Vec<String>)
    ensures
        crate::text::texts(r@) == crate::redis_backend::replies::owner_views(owners@).map_values(
            |o: OwnerView| o.worker,
        ),
{
    let mut workers: Vec<String> = Vec::new();
    let mut i: usize = 0;
    while i < owners.len()
        invariant
            i <= owners@.len(),
            i == workers@.len(),
            forall|k: int| 0 <= k < i ==> (#[trigger] workers@[k])@ == owners@[k].worker@,
        decreases owners@.len() - i,
    {
        workers.push(owners[i].worker.clone());
        i = i + 1;
    }
    assert(crate::text::texts(workers@) =~= crate::redis_backend::replies::owner_views(
        owners@,
    ).map_values(|o: OwnerView| o.worker));
    workers
}

/// A running prefix scan.
#[derive(Debug)]
pub struct PrefixScan {
    extending: Vec<PrefixCandidate>,
    stalled: Vec<PrefixCandidate>,
    queried: usize,
    chunk: usize,
    limit: usize,
    mismatched: u32,
}

impl View for PrefixScan {
    type V = ScanView;

    closed spec fn view(&self) -> ScanView {
        ScanView {
            extending: candidate_views(self.extending@),
            stalled: candidate_views(self.stalled@),
            queried: self.queried as nat,
            chunk: self.chunk as nat,
            limit: self.limit as nat,
            mismatched: self.mismatched,
        }
    }
}

/// Whether `index` finds the last entry of `worker` in `row`.
spec fn finds(index: Map<Seq<char>, usize>, row: Seq<OwnerView>, worker: Seq<char>) -> bool {
    match owner_entry(row, worker) {
        Some(owner) => index.contains_key(worker) && index[worker] < row.len()
            && row[index[worker] as int] == owner,
        None => !index.contains_key(worker),
    }
}

/// The entries of a placement by worker; a later entry replaces an earlier one.
fn index_row(row: &Vec<PlacementOwner>) -> (r: StringHashMap<usize>)
    ensures
        forall|w: Seq<char>|
            #[trigger] finds(r@, crate::redis_backend::replies::owner_views(row@), w),
{
    let ghost views = crate::redis_backend::replies::owner_views(row@);
    let mut r: StringHashMap<usize> = StringHashMap::new();
    let mut i: usize = 0;
    while i < row.len()
        invariant
            i <= row@.len(),
            views == crate::redis_backend::replies::owner_views(row@),
            forall|w: Seq<char>| #[trigger] finds(r@, views.take(i as int), w),
        decreases row@.len() - i,
    {
        let ghost before = r@;
        r.insert(row[i].worker.clone(), i);
        assert forall|w: Seq<char>| #[trigger] finds(r@, views.take(i + 1), w) by {
            assert(views.take(i + 1).drop_last() =~= views.take(i as int));
            assert(views.take(i + 1).last() == row@[i as int]@);
            assert(finds(before, views.take(i as int), w));
        }
        i = i + 1;
    }
    assert(views.take(i as int) =~= views);
    r
}

impl PrefixScan {
    /// Admits the workers that hold the first block. `views` are their registry
    /// entries, in the order of `owners`.
    pub fn start(
        request: &MatchExternalKvPrefixRequest,
        owners: Vec<PlacementOwner>,
        views: Vec<WorkerView>,
    ) -> (r: PrefixScan)
        requires
            request.hashes@.len() > 0,
        ensures
            scan_is_valid(r@),
            r@ == started(
                crate::redis_backend::replies::owner_views(owners@),
                crate::redis_backend::replies::registry_views(views@),
                crate::redis_backend::codec::checked_spec(
                    crate::redis_backend::codec::optional_spec(request.hash_spec),
                ),
                request.hashes@.len(),
                request.max_blocks,
            ),
    {
        let required = crate::redis_backend::codec::encode_checked_spec(&request.hash_spec);
        let ghost needed = crate::redis_backend::codec::checked_spec(
            crate::redis_backend::codec::optional_spec(request.hash_spec),
        );
        let ghost ov = crate::redis_backend::replies::owner_views(owners@);
        let ghost rv = crate::redis_backend::replies::registry_views(views@);
        let n: usize = if owners.len() <= views.len() {
            owners.len()
        } else {
            views.len()
        };
        let mut extending: Vec<PrefixCandidate> = Vec::new();
        let mut mismatched: u32 = 0;
        let mut i: usize = 0;
        assert(candidate_views(extending@) =~= admitted(ov, rv, needed, 0));
        while i < n
            invariant
                i <= n <= owners@.len(),
                n <= views@.len(),
                ov == crate::redis_backend::replies::owner_views(owners@),
                rv == crate::redis_backend::replies::registry_views(views@),
                match required {
                    Some(text) => needed == Some(text@),
                    None => needed is None,
                },
                candidate_views(extending@) == admitted(ov, rv, needed, i as int),
                mismatched == capped(mismatches(ov, rv, needed, i as int)),
                forall|k: int| 0 <= k < extending@.len() ==> (#[trigger] extending@[k]).matched == 1,
            decreases n - i,
        {
            let owner = &owners[i];
            let view = &views[i];
            assert(ov[i as int] == owner@);
            assert(rv[i as int] == view@);
            if view.alive && !view.address.as_str().is_empty() && owner.generation == view.generation {
                let other_space = match &required {
                    Some(required) => !view.spec.as_str().is_empty() && !(view.spec == *required),
                    None => false,
                };
                if other_space {
                    mismatched = mismatched.saturating_add(1);
                } else {
                    let ghost before = extending@;
                    extending.push(
                        PrefixCandidate {
                            worker: owner.worker.clone(),
                            address: view.address.clone(),
                            dp_rank: view.dp_rank,
                            generation: view.generation,
                            mask: owner.mask,
                            matched: 1,
                        },
                    );
                    assert(candidate_views(extending@) =~= candidate_views(before).push(
                        first_candidate(owner@, view@),
                    ));
                }
            }
            i = i + 1;
        }
        let wanted = crate::prefix::prefix_limit(request.hashes.len(), request.max_blocks);
        let limit: usize = if wanted <= PREFIX_SCAN_MAX_BLOCKS {
            wanted
        } else {
            PREFIX_SCAN_MAX_BLOCKS
        };
        let scan = PrefixScan {
            extending,
            stalled: Vec::new(),
            queried: 1,
            chunk: PREFIX_SCAN_CHUNK,
            limit,
            mismatched,
        };
        assert(candidate_views(scan.stalled@) =~= Seq::<CandidateView>::empty());
        scan
    }

    /// The blocks to read next, as a range of the request; `None` when the scan
    /// is over.
    pub fn next_window(&self) -> (r: Option<(usize, usize)>)
        requires
            scan_is_valid(self@),
        ensures
            match r {
                Some((start, end)) => start == self@.queried && window_end(self@) == Some(
                    end as nat,
                ) && start < end <= self@.limit,
                None => window_end(self@) is None,
            },
    {
        if self.queried < self.limit && self.extending.len() > 0 {
            let end: usize = if self.queried + self.chunk <= self.limit {
                self.queried + self.chunk
            } else {
                self.limit
            };
            Some((self.queried, end))
        } else {
            None
        }
    }

    /// Walks the candidates over one block.
    fn walk_row(&mut self, row: &Vec<PlacementOwner>)
        requires
            forall|i: int|
                0 <= i < old(self)@.extending.len() ==> (#[trigger] old(self)@.extending[i]).matched
                    < usize::MAX,
        ensures
            final(self)@ == step(
                old(self)@,
                crate::redis_backend::replies::owner_views(row@),
            ),
    {
        let ghost rv = crate::redis_backend::replies::owner_views(row@);
        let ghost before = candidate_views(self.extending@);
        let ghost settled = candidate_views(self.stalled@);
        let ghost start = self@;
        assert(start.extending == before);
        let owned = index_row(row);
        let mut candidates: Vec<PrefixCandidate> = Vec::new();
        std::mem::swap(&mut candidates, &mut self.extending);
        let ghost input = candidates@;
        let ghost keep = |c: CandidateView| keeps(c, rv);
        let ghost drop = |c: CandidateView| !keeps(c, rv);
        let ghost grow = |c: CandidateView| extended(c, rv);
        proof {
            reveal_with_fuel(Seq::filter, 1);
            assert(before.take(0) =~= Seq::<CandidateView>::empty());
            assert(before.take(0).filter(keep).map_values(grow) =~= Seq::<CandidateView>::empty());
            assert(before.take(0).filter(drop) =~= Seq::<CandidateView>::empty());
            assert(candidate_views(self.extending@) =~= Seq::<CandidateView>::empty());
            assert(candidate_views(self.stalled@) =~= settled + before.take(0).filter(drop));
        }
        for candidate in it: candidates
            invariant
                it.seq() == input,
                before == candidate_views(input),
                rv == crate::redis_backend::replies::owner_views(row@),
                keep == (|c: CandidateView| keeps(c, rv)),
                drop == (|c: CandidateView| !keeps(c, rv)),
                grow == (|c: CandidateView| extended(c, rv)),
                forall|i: int| 0 <= i < before.len() ==> (#[trigger] before[i]).matched < usize::MAX,
                forall|w: Seq<char>| #[trigger] finds(owned@, rv, w),
                self.queried == start.queried,
                self.chunk == start.chunk,
                self.limit == start.limit,
                self.mismatched == start.mismatched,
                candidate_views(self.extending@) == before.take(it.index() as int).filter(
                    keep,
                ).map_values(grow),
                candidate_views(self.stalled@) == settled + before.take(it.index() as int).filter(
                    drop,
                ),
        {
            let ghost k = it.index() as int;
            let ghost done = before.take(k);
            let ghost extending_before = self.extending@;
            let ghost stalled_before = self.stalled@;
            let mut candidate = candidate;
            let ghost c = candidate@;
            proof {
                assert(before[k] == c);
                assert(before.take(k + 1) =~= done.push(c));
                done.lemma_filter_push(c, keep);
                done.lemma_filter_push(c, drop);
                assert(finds(owned@, rv, c.worker));
            }
            let kept: Option<i64> = match owned.get(candidate.worker.as_str()) {
                Some(at) => {
                    let owner = &row[*at];
                    if owner.generation == candidate.generation {
                        Some(owner.mask)
                    } else {
                        None
                    }
                },
                None => None,
            };
            match kept {
                Some(mask) => {
                    candidate.mask = candidate.mask | mask;
                    candidate.matched = candidate.matched + 1;
                    assert(candidate@ == extended(c, rv));
                    self.extending.push(candidate);
                    assert(keep(c));
                    assert(candidate_views(self.extending@) =~= candidate_views(
                        extending_before,
                    ).push(grow(c)));
                    assert(done.filter(keep).push(c).map_values(grow) =~= done.filter(
                        keep,
                    ).map_values(grow).push(grow(c)));
                },
                None => {
                    self.stalled.push(candidate);
                    assert(drop(c));
                    assert(candidate_views(self.stalled@) =~= candidate_views(
                        stalled_before,
                    ).push(c));
                    assert(settled + done.filter(drop).push(c) =~= (settled + done.filter(
                        drop,
                    )).push(c));
                },
            }
        }
        assert(before.take(before.len() as int) =~= before);
    }

    /// Takes in the placements of the blocks of the last window, in order.
    pub fn absorb(&mut self, rows: &Vec<Vec<PlacementOwner>>)
        requires
            scan_is_valid(old(self)@),
            window_end(old(self)@) == Some(old(self)@.queried + rows@.len()),
        ensures
            scan_is_valid(final(self)@),
            final(self)@ == absorbed(old(self)@, row_views(rows@)),
    {
        let ghost start = self@;
        let ghost all = row_views(rows@);
        let mut i: usize = 0;
        assert(all.take(0) =~= Seq::<Seq<OwnerView>>::empty());
        while i < rows.len()
            invariant
                i <= rows@.len(),
                all == row_views(rows@),
                scan_is_valid(start),
                start.queried + rows@.len() <= start.limit,
                self@ == walk(start, all.take(i as int)),
            decreases rows@.len() - i,
        {
            proof {
                walk_keeps_the_bookkeeping(start, all.take(i as int));
                assert(all.take(i + 1).drop_last() =~= all.take(i as int));
                assert(all.take(i + 1).last() == crate::redis_backend::replies::owner_views(
                    rows@[i as int]@,
                ));
            }
            self.walk_row(&rows[i]);
            i = i + 1;
        }
        proof {
            assert(all.take(i as int) =~= all);
            walk_keeps_the_bookkeeping(start, all);
        }
        self.queried = self.queried + rows.len();
        self.chunk = if self.chunk + self.chunk <= REDIS_FANOUT_CHUNK {
            self.chunk + self.chunk
        } else {
            REDIS_FANOUT_CHUNK
        };
        assert(self@ == absorbed(start, all));
    }

    /// The answer of the scan.
    pub fn into_response(self, top_k: u32) -> (r: MatchExternalKvPrefixResponse)
        requires
            scan_is_valid(self@),
        ensures
            r@ == scan_answer(self@, top_k),
    {
        let ghost all = settled(self@);
        let ghost count = self@.stalled.len() as int;
        let mut matches: Vec<ExternalKvPrefixMatch> = Vec::new();
        let ghost model = |c: CandidateView| match_of(c);
        let mut i: usize = 0;
        assert(crate::pb::prefix_matches(matches@) =~= all.take(0).map_values(model));
        while i < self.stalled.len()
            invariant
                i <= self.stalled@.len(),
                count == self.stalled@.len(),
                scan_is_valid(self@),
                all == settled(self@),
                model == (|c: CandidateView| match_of(c)),
                crate::pb::prefix_matches(matches@) == all.take(i as int).map_values(model),
            decreases self.stalled@.len() - i,
        {
            let ghost before = matches@;
            proof {
                assert(self@.stalled[i as int] == self.stalled@[i as int]@);
                assert(all[i as int] == self.stalled@[i as int]@);
            }
            matches.push(reported(&self.stalled[i]));
            assert(crate::pb::prefix_matches(matches@) =~= crate::pb::prefix_matches(before).push(
                model(all[i as int]),
            ));
            assert(all.take(i + 1).map_values(model) =~= all.take(i as int).map_values(model).push(
                model(all[i as int]),
            ));
            i = i + 1;
        }
        let mut j: usize = 0;
        while j < self.extending.len()
            invariant
                j <= self.extending@.len(),
                count == self.stalled@.len(),
                scan_is_valid(self@),
                all == settled(self@),
                model == (|c: CandidateView| match_of(c)),
                crate::pb::prefix_matches(matches@) == all.take(count + j).map_values(model),
            decreases self.extending@.len() - j,
        {
            let ghost before = matches@;
            proof {
                assert(self@.extending[j as int] == self.extending@[j as int]@);
                assert(all[count + j] == self.extending@[j as int]@);
            }
            matches.push(reported(&self.extending[j]));
            assert(crate::pb::prefix_matches(matches@) =~= crate::pb::prefix_matches(before).push(
                model(all[count + j]),
            ));
            assert(all.take(count + j + 1).map_values(model) =~= all.take(count + j).map_values(
                model,
            ).push(model(all[count + j])));
            j = j + 1;
        }
        assert(all.take(count + j) =~= all);
        prefix_response(matches, top_k, self.queried as u32, self.mismatched)
    }

    /// The hits to record for the blocks that a returned worker can reuse, at
    /// most [`PREFIX_HIT_MAX_BLOCKS`] of them.
    pub fn hit_plan(&self, hashes: &Vec<String>) -> (r: Vec<HitBump>)
        requires
            scan_is_valid(self@),
            self@.limit <= hashes@.len(),
        ensures
            crate::redis_backend::hits::bump_views(r@) == planned_hits(
                crate::text::texts(hashes@),
                settled(self@),
            ),
    {
        let ghost all = settled(self@);
        let ghost names = crate::text::texts(hashes@);
        let longest: usize = self.longest();
        let best: usize = if longest <= PREFIX_HIT_MAX_BLOCKS {
            longest
        } else {
            PREFIX_HIT_MAX_BLOCKS
        };
        let mut plan: Vec<HitBump> = Vec::new();
        let mut index: usize = 0;
        while index < best
            invariant
                index <= best <= hashes@.len(),
                names == crate::text::texts(hashes@),
                all == settled(self@),
                plan@.len() == index,
                forall|k: int|
                    0 <= k < index ==> (#[trigger] plan@[k])@ == (HitBumpView {
                        hash: names[k],
                        owners: reusing(all, k as nat),
                    }),
            decreases best - index,
        {
            let owners = self.reusers(index);
            plan.push(HitBump { hash: hashes[index].clone(), owners });
            index = index + 1;
        }
        assert(crate::redis_backend::hits::bump_views(plan@) =~= planned_hits(names, all));
        plan
    }

    /// The hits to record for a query, none unless it asks for it.
    pub fn hits_to_record(&self, request: &MatchExternalKvPrefixRequest) -> (r: Vec<HitBump>)
        requires
            scan_is_valid(self@),
            self@.limit <= request.hashes@.len(),
        ensures
            crate::redis_backend::hits::bump_views(r@) == hits_asked(
                request.count_as_hit,
                crate::text::texts(request.hashes@),
                settled(self@),
            ),
    {
        if request.count_as_hit {
            self.hit_plan(&request.hashes)
        } else {
            let none: Vec<HitBump> = Vec::new();
            assert(crate::redis_backend::hits::bump_views(none@) =~= Seq::<HitBumpView>::empty());
            none
        }
    }

    /// Ends the query, once its hits were recorded or could not be. The answer
    /// stands either way: a counter that could not be written must not cost the
    /// caller its routing signal.
    pub fn conclude(self, top_k: u32, recorded: Result<(), RpcStatus>) -> (r: Concluded)
        requires
            scan_is_valid(self@),
        ensures
            concludes(self@, top_k, recorded, r),
    {
        let unrecorded = match recorded {
            Ok(_) => None,
            Err(status) => Some(status),
        };
        Concluded { outcome: Ok(self.into_response(top_k)), unrecorded }
    }

    /// The longest prefix of any candidate.
    fn longest(&self) -> (r: usize)
        requires
            scan_is_valid(self@),
        ensures
            r == longest_match(settled(self@)),
            r <= self@.queried,
    {
        let ghost all = settled(self@);
        let ghost count = self@.stalled.len() as int;
        let mut best: usize = 0;
        let mut i: usize = 0;
        assert(all.take(0) =~= Seq::<CandidateView>::empty());
        while i < self.stalled.len()
            invariant
                i <= self.stalled@.len(),
                count == self.stalled@.len(),
                scan_is_valid(self@),
                all == settled(self@),
                best == longest_match(all.take(i as int)),
                best <= self@.queried,
            decreases self.stalled@.len() - i,
        {
            proof {
                assert(self@.stalled[i as int] == self.stalled@[i as int]@);
                assert(all[i as int] == self.stalled@[i as int]@);
                assert(all.take(i + 1).drop_last() =~= all.take(i as int));
            }
            if self.stalled[i].matched > best {
                best = self.stalled[i].matched;
            }
            i = i + 1;
        }
        let mut j: usize = 0;
        while j < self.extending.len()
            invariant
                j <= self.extending@.len(),
                count == self.stalled@.len(),
                scan_is_valid(self@),
                all == settled(self@),
                best == longest_match(all.take(count + j)),
                best <= self@.queried,
            decreases self.extending@.len() - j,
        {
            proof {
                assert(self@.extending[j as int] == self.extending@[j as int]@);
                assert(all[count + j] == self.extending@[j as int]@);
                assert(all.take(count + j + 1).drop_last() =~= all.take(count + j));
            }
            if self.extending[j].matched > best {
                best = self.extending[j].matched;
            }
            j = j + 1;
        }
        assert(all.take(count + j) =~= all);
        best
    }

    /// The candidates whose prefix covers the block at `index`.
    fn reusers(&self, index: usize) -> (r: Vec<(String, i64)>)
        ensures
            crate::redis_backend::hits::credited(r@) == reusing(settled(self@), index as nat),
    {
        let ghost all = settled(self@);
        let ghost count = self@.stalled.len() as int;
        let mut owners: Vec<(String, i64)> = Vec::new();
        let mut i: usize = 0;
        assert(crate::redis_backend::hits::credited(owners@) =~= reusing(
            all.take(0),
            index as nat,
        ));
        while i < self.stalled.len()
            invariant
                i <= self.stalled@.len(),
                count == self.stalled@.len(),
                all == settled(self@),
                crate::redis_backend::hits::credited(owners@) == reusing(
                    all.take(i as int),
                    index as nat,
                ),
            decreases self.stalled@.len() - i,
        {
            let ghost before = owners@;
            proof {
                assert(all[i as int] == self.stalled@[i as int]@);
                assert(all.take(i + 1).drop_last() =~= all.take(i as int));
            }
            if self.stalled[i].matched > index {
                owners.push((self.stalled[i].worker.clone(), self.stalled[i].generation));
                assert(crate::redis_backend::hits::credited(owners@)
                    =~= crate::redis_backend::hits::credited(before).push(
                    (all[i as int].worker, all[i as int].generation),
                ));
            }
            i = i + 1;
        }
        let mut j: usize = 0;
        while j < self.extending.len()
            invariant
                j <= self.extending@.len(),
                count == self.stalled@.len(),
                all == settled(self@),
                crate::redis_backend::hits::credited(owners@) == reusing(
                    all.take(count + j),
                    index as nat,
                ),
            decreases self.extending@.len() - j,
        {
            let ghost before = owners@;
            proof {
                assert(all[count + j] == self.extending@[j as int]@);
                assert(all.take(count + j + 1).drop_last() =~= all.take(count + j));
            }
            if self.extending[j].matched > index {
                owners.push((self.extending[j].worker.clone(), self.extending[j].generation));
                assert(crate::redis_backend::hits::credited(owners@)
                    =~= crate::redis_backend::hits::credited(before).push(
                    (all[count + j].worker, all[count + j].generation),
                ));
            }
            j = j + 1;
        }
        assert(all.take(count + j) =~= all);
        owners
    }
}

/// What a candidate is reported as.
fn reported(candidate: &PrefixCandidate) -> (r: ExternalKvPrefixMatch)
    requires
        candidate.matched <= PREFIX_SCAN_MAX_BLOCKS,
    ensures
        r@ == match_of(candidate@),
{
    ExternalKvPrefixMatch {
        worker_id: candidate.worker.clone(),
        address: candidate.address.clone(),
        dp_rank: candidate.dp_rank,
        matched_prefix_blocks: candidate.matched as u32,
        tiers: crate::redis_backend::codec::tiers_from_mask(candidate.mask),
    }
}

/// Walking keeps the bookkeeping: extending candidates hold every block read so
/// far, stalled ones fewer.
pub proof fn walk_keeps_the_bookkeeping(v: ScanView, rows: Seq<Seq<OwnerView>>)
    requires
        scan_is_valid(v),
    ensures
        ({
            let w = walk(v, rows);
            &&& w.queried == v.queried
            &&& w.chunk == v.chunk
            &&& w.limit == v.limit
            &&& w.mismatched == v.mismatched
            &&& forall|i: int|
                0 <= i < w.extending.len() ==> (#[trigger] w.extending[i]).matched == v.queried
                    + rows.len()
            &&& forall|i: int|
                0 <= i < w.stalled.len() ==> 1 <= (#[trigger] w.stalled[i]).matched < v.queried
                    + rows.len()
        }),
    decreases rows.len(),
{
    if rows.len() > 0 {
        let row = rows.last();
        let p = walk(v, rows.drop_last());
        let w = walk(v, rows);
        walk_keeps_the_bookkeeping(v, rows.drop_last());
        let keep = |c: CandidateView| keeps(c, row);
        let drop = |c: CandidateView| !keeps(c, row);
        assert forall|i: int| 0 <= i < w.extending.len() implies (
        #[trigger] w.extending[i]).matched == v.queried + rows.len() by {
            let c = p.extending.filter(keep)[i];
            assert(p.extending.filter(keep).contains(c));
            p.extending.lemma_filter_contains_rev(keep, c);
            assert(p.extending.contains(c));
            let k = choose|k: int| 0 <= k < p.extending.len() && p.extending[k] == c;
            assert(p.extending[k].matched == v.queried + rows.len() - 1);
        }
        assert forall|i: int| 0 <= i < w.stalled.len() implies 1 <= (
        #[trigger] w.stalled[i]).matched < v.queried + rows.len() by {
            if i < p.stalled.len() {
                assert(w.stalled[i] == p.stalled[i]);
            } else {
                let c = p.extending.filter(drop)[i - p.stalled.len()];
                assert(p.extending.filter(drop).contains(c));
                p.extending.lemma_filter_contains_rev(drop, c);
                assert(p.extending.contains(c));
                let k = choose|k: int| 0 <= k < p.extending.len() && p.extending[k] == c;
                assert(p.extending[k].matched == v.queried + rows.len() - 1);
            }
        }
    }
}

} // verus!
