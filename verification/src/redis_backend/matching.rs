//! The placement match: which workers hold which of the requested blocks.

use vstd::prelude::*;

use crate::pb::{
    ExternalKvNodeMatch, MatchExternalKvRequest, MatchExternalKvResponse, NodeMatchView,
    TierHashes, TierHashesView, TIER_DRAM, TIER_HBM, TIER_SSD,
};
use crate::redis_backend::hits::{HitBump, HitBumpView};
use crate::redis_backend::replies::{OwnerView, PlacementOwner, RegistryView, WorkerView};

verus! {

/// One block that a worker was found to hold.
#[derive(Debug)]
pub struct Sighting {
    pub hash: String,
    /// The worker's generation when the block was placed.
    pub generation: i64,
    pub mask: i64,
}

/// The model of a [`Sighting`].
pub struct SightingView {
    pub hash: Seq<char>,
    pub generation: i64,
    pub mask: i64,
}

impl View for Sighting {
    type V = SightingView;

    open spec fn view(&self) -> SightingView {
        SightingView { hash: self.hash@, generation: self.generation, mask: self.mask }
    }
}

/// What the placement of one block says of its workers.
pub open spec fn sightings_in(hash: Seq<char>, row: Seq<OwnerView>) -> Seq<
    (Seq<char>, SightingView),
> {
    row.map_values(
        |o: OwnerView|
            (o.worker, SightingView { hash, generation: o.generation, mask: o.mask }),
    )
}

/// What the placements of the first `n` blocks say, block by block.
pub open spec fn sightings(hashes: Seq<Seq<char>>, rows: Seq<Seq<OwnerView>>, n: int) -> Seq<
    (Seq<char>, SightingView),
>
    decreases n,
{
    if n <= 0 {
        Seq::empty()
    } else {
        sightings(hashes, rows, n - 1) + sightings_in(hashes[n - 1], rows[n - 1])
    }
}

/// Collects what the placements of the blocks say, by worker. Workers come in
/// the order in which they are first seen.
pub fn group_by_worker(hashes: &Vec<String>, rows: &Vec<Vec<PlacementOwner>>) -> (r: Vec<
    (String, Vec<Sighting>),
>)
    ensures
        crate::grouping::group_views(r@) == crate::grouping::grouped(
            sightings(
                crate::text::texts(hashes@),
                crate::redis_backend::scan::row_views(rows@),
                crate::redis_backend::scan::paired(hashes@.len(), rows@.len()) as int,
            ),
        ),
{
    let ghost names = crate::text::texts(hashes@);
    let ghost table = crate::redis_backend::scan::row_views(rows@);
    let n: usize = if hashes.len() <= rows.len() {
        hashes.len()
    } else {
        rows.len()
    };
    let mut seen: Vec<(String, Sighting)> = Vec::new();
    let mut i: usize = 0;
    assert(crate::grouping::keyed_views(seen@) =~= sightings(names, table, 0));
    while i < n
        invariant
            i <= n <= hashes@.len(),
            n <= rows@.len(),
            names == crate::text::texts(hashes@),
            table == crate::redis_backend::scan::row_views(rows@),
            crate::grouping::keyed_views(seen@) == sightings(names, table, i as int),
        decreases n - i,
    {
        let ghost before = sightings(names, table, i as int);
        let ghost whole = sightings_in(names[i as int], table[i as int]);
        let row = &rows[i];
        let mut j: usize = 0;
        assert(before + whole.take(0) =~= before);
        while j < row.len()
            invariant
                i < n <= hashes@.len(),
                j <= row@.len(),
                names == crate::text::texts(hashes@),
                whole == sightings_in(
                    names[i as int],
                    crate::redis_backend::replies::owner_views(row@),
                ),
                crate::grouping::keyed_views(seen@) == before + whole.take(j as int),
            decreases row@.len() - j,
        {
            let ghost earlier = seen@;
            seen.push(
                (
                    row[j].worker.clone(),
                    Sighting {
                        hash: hashes[i].clone(),
                        generation: row[j].generation,
                        mask: row[j].mask,
                    },
                ),
            );
            assert(crate::grouping::keyed_views(seen@) =~= crate::grouping::keyed_views(
                earlier,
            ).push(whole[j as int]));
            assert(whole.take(j + 1) =~= whole.take(j as int).push(whole[j as int]));
            assert(before + whole.take(j + 1) =~= (before + whole.take(j as int)).push(
                whole[j as int],
            ));
            j = j + 1;
        }
        assert(whole.take(j as int) =~= whole);
        i = i + 1;
    }
    crate::grouping::group_by_text(seen)
}

/// The workers of the groups, whose registry entries are to be read.
pub fn group_workers(groups: &Vec<(String, Vec<Sighting>)>) -> (r: Vec<String>)
    ensures
        crate::text::texts(r@) == crate::grouping::group_views(groups@).map_values(
            |g: (Seq<char>, Seq<SightingView>)| g.0,
        ),
{
    let mut workers: Vec<String> = Vec::new();
    let mut i: usize = 0;
    while i < groups.len()
        invariant
            i <= groups@.len(),
            i == workers@.len(),
            forall|k: int| 0 <= k < i ==> (#[trigger] workers@[k])@ == groups@[k].0@,
        decreases groups@.len() - i,
    {
        workers.push(groups[i].0.clone());
        i = i + 1;
    }
    assert(crate::text::texts(workers@) =~= crate::grouping::group_views(groups@).map_values(
        |g: (Seq<char>, Seq<SightingView>)| g.0,
    ));
    workers
}

/// The blocks that are held at a tier in the given generation.
pub open spec fn held_at(s: Seq<SightingView>, generation: i64, tier: i32) -> Seq<Seq<char>>
    decreases s.len(),
{
    if s.len() == 0 {
        Seq::empty()
    } else {
        let before = held_at(s.drop_last(), generation, tier);
        if s.last().generation == generation && crate::redis_backend::codec::placed_at(
            s.last().mask,
            tier,
        ) {
            before.push(s.last().hash)
        } else {
            before
        }
    }
}

/// The list of a tier, where it holds anything.
pub open spec fn listed(s: Seq<SightingView>, generation: i64, tier: i32) -> Seq<TierHashesView> {
    let hashes = held_at(s, generation, tier);
    if hashes.len() > 0 {
        seq![TierHashesView { tier, hashes }]
    } else {
        Seq::empty()
    }
}

/// The blocks that a worker holds in the given generation, by ascending tier.
pub open spec fn tier_lists(s: Seq<SightingView>, generation: i64) -> Seq<TierHashesView> {
    listed(s, generation, TIER_HBM) + listed(s, generation, TIER_DRAM) + listed(
        s,
        generation,
        TIER_SSD,
    )
}

/// What is reported of a worker: the blocks of its current generation, if it is
/// alive and holds any at a known tier.
pub open spec fn node_of(worker: Seq<char>, s: Seq<SightingView>, view: RegistryView) -> Option<
    NodeMatchView,
> {
    let hashes_by_tier = tier_lists(s, view.generation);
    if view.alive && hashes_by_tier.len() > 0 {
        Some(
            NodeMatchView {
                worker_id: worker,
                address: view.address,
                hashes_by_tier,
                dp_rank: view.dp_rank,
            },
        )
    } else {
        None
    }
}

/// What is reported of the first `n` workers.
pub open spec fn nodes(
    groups: Seq<(Seq<char>, Seq<SightingView>)>,
    views: Seq<RegistryView>,
    n: int,
) -> Seq<NodeMatchView>
    decreases n,
{
    if n <= 0 {
        Seq::empty()
    } else {
        let before = nodes(groups, views, n - 1);
        match node_of(groups[n - 1].0, groups[n - 1].1, views[n - 1]) {
            Some(node) => before.push(node),
            None => before,
        }
    }
}

/// The blocks that are held at a tier in the given generation.
fn hashes_at(sightings: &Vec<Sighting>, generation: i64, tier: i32) -> (r: Vec<String>)
    ensures
        crate::text::texts(r@) == held_at(
            crate::grouping::value_views(sightings@),
            generation,
            tier,
        ),
{
    let ghost all = crate::grouping::value_views(sightings@);
    let mut hashes: Vec<String> = Vec::new();
    let mut i: usize = 0;
    assert(crate::text::texts(hashes@) =~= held_at(all.take(0), generation, tier));
    while i < sightings.len()
        invariant
            i <= sightings@.len(),
            all == crate::grouping::value_views(sightings@),
            crate::text::texts(hashes@) == held_at(all.take(i as int), generation, tier),
        decreases sightings@.len() - i,
    {
        let ghost before = hashes@;
        assert(all.take(i + 1).drop_last() =~= all.take(i as int));
        assert(all.take(i + 1).last() == sightings@[i as int]@);
        if sightings[i].generation == generation && crate::redis_backend::codec::is_placed_at(
            sightings[i].mask,
            tier,
        ) {
            hashes.push(sightings[i].hash.clone());
            assert(crate::text::texts(hashes@) =~= crate::text::texts(before).push(
                sightings@[i as int].hash@,
            ));
        }
        i = i + 1;
    }
    assert(all.take(i as int) =~= all);
    hashes
}

/// The models of tier lists.
pub open spec fn tier_views(s: Seq<TierHashes>) -> Seq<TierHashesView> {
    s.map_values(|t: TierHashes| t@)
}

/// Appends the list of a tier, where it holds anything.
fn append_tier(
    lists: &mut Vec<TierHashes>,
    sightings: &Vec<Sighting>,
    generation: i64,
    tier: i32,
)
    ensures
        tier_views(final(lists)@) == tier_views(old(lists)@) + listed(
            crate::grouping::value_views(sightings@),
            generation,
            tier,
        ),
{
    let ghost before = lists@;
    let hashes = hashes_at(sightings, generation, tier);
    assert(crate::text::texts(hashes@).len() == hashes@.len());
    if hashes.len() > 0 {
        lists.push(TierHashes { tier, hashes });
    }
    assert(tier_views(lists@) =~= tier_views(before) + listed(
        crate::grouping::value_views(sightings@),
        generation,
        tier,
    ));
}

/// Reports the workers that are alive and hold some of the requested blocks in
/// their current generation. `views` are the registry entries of the groups.
pub fn match_workers(groups: &Vec<(String, Vec<Sighting>)>, views: &Vec<WorkerView>) -> (r:
    MatchExternalKvResponse)
    ensures
        r@ == nodes(
            crate::grouping::group_views(groups@),
            crate::redis_backend::replies::registry_views(views@),
            crate::redis_backend::scan::paired(groups@.len(), views@.len()) as int,
        ),
{
    let ghost gv = crate::grouping::group_views(groups@);
    let ghost rv = crate::redis_backend::replies::registry_views(views@);
    let ghost model = |m: ExternalKvNodeMatch| m@;
    let n: usize = if groups.len() <= views.len() {
        groups.len()
    } else {
        views.len()
    };
    let mut matches: Vec<ExternalKvNodeMatch> = Vec::new();
    let mut i: usize = 0;
    assert(matches@.map_values(model) =~= nodes(gv, rv, 0));
    while i < n
        invariant
            i <= n <= groups@.len(),
            n <= views@.len(),
            gv == crate::grouping::group_views(groups@),
            rv == crate::redis_backend::replies::registry_views(views@),
            model == (|m: ExternalKvNodeMatch| m@),
            matches@.map_values(model) == nodes(gv, rv, i as int),
        decreases n - i,
    {
        let ghost before = matches@;
        let view = &views[i];
        let sightings = &groups[i].1;
        assert(rv[i as int] == view@);
        assert(gv[i as int] == (
            groups@[i as int].0@,
            crate::grouping::value_views(sightings@),
        ));
        if view.alive {
            let mut hashes_by_tier: Vec<TierHashes> = Vec::new();
            assert(tier_views(hashes_by_tier@) =~= Seq::<TierHashesView>::empty());
            append_tier(&mut hashes_by_tier, sightings, view.generation, TIER_HBM);
            append_tier(&mut hashes_by_tier, sightings, view.generation, TIER_DRAM);
            append_tier(&mut hashes_by_tier, sightings, view.generation, TIER_SSD);
            assert(tier_views(hashes_by_tier@) =~= tier_lists(gv[i as int].1, view.generation));
            assert(tier_views(hashes_by_tier@).len() == hashes_by_tier@.len());
            if hashes_by_tier.len() > 0 {
                matches.push(
                    ExternalKvNodeMatch {
                        worker_id: groups[i].0.clone(),
                        address: view.address.clone(),
                        hashes_by_tier,
                        dp_rank: view.dp_rank,
                    },
                );
                assert(matches@.map_values(model) =~= before.map_values(model).push(
                    matches@.last()@,
                ));
            }
        }
        i = i + 1;
    }
    MatchExternalKvResponse { matches }
}

/// What a match credits to one worker: each block of its current generation.
pub open spec fn credits_of(worker: Seq<char>, s: Seq<SightingView>, generation: i64) -> Seq<
    (Seq<char>, (Seq<char>, i64)),
>
    decreases s.len(),
{
    if s.len() == 0 {
        Seq::empty()
    } else {
        let before = credits_of(worker, s.drop_last(), generation);
        if s.last().generation == generation {
            before.push((s.last().hash, (worker, generation)))
        } else {
            before
        }
    }
}

/// What a match credits to the first `n` workers, those that are alive.
pub open spec fn credits(
    groups: Seq<(Seq<char>, Seq<SightingView>)>,
    views: Seq<RegistryView>,
    n: int,
) -> Seq<(Seq<char>, (Seq<char>, i64))>
    decreases n,
{
    if n <= 0 {
        Seq::empty()
    } else {
        let before = credits(groups, views, n - 1);
        if views[n - 1].alive {
            before + credits_of(groups[n - 1].0, groups[n - 1].1, views[n - 1].generation)
        } else {
            before
        }
    }
}

/// The hits that a match records, block by block.
pub open spec fn match_bumps(credits: Seq<(Seq<char>, (Seq<char>, i64))>) -> Seq<HitBumpView> {
    crate::grouping::grouped(credits).map_values(
        |g: (Seq<char>, Seq<(Seq<char>, i64)>)| HitBumpView { hash: g.0, owners: g.1 },
    )
}

/// The hits to record for a match: every block that a live worker holds in its
/// current generation, with the workers that hold it.
pub fn match_hits(groups: &Vec<(String, Vec<Sighting>)>, views: &Vec<WorkerView>) -> (r: Vec<
    HitBump,
>)
    ensures
        crate::redis_backend::hits::bump_views(r@) == match_bumps(
            credits(
                crate::grouping::group_views(groups@),
                crate::redis_backend::replies::registry_views(views@),
                crate::redis_backend::scan::paired(groups@.len(), views@.len()) as int,
            ),
        ),
{
    let ghost gv = crate::grouping::group_views(groups@);
    let ghost rv = crate::redis_backend::replies::registry_views(views@);
    let n: usize = if groups.len() <= views.len() {
        groups.len()
    } else {
        views.len()
    };
    let mut credited: Vec<(String, (String, i64))> = Vec::new();
    let mut i: usize = 0;
    assert(crate::grouping::keyed_views(credited@) =~= credits(gv, rv, 0));
    while i < n
        invariant
            i <= n <= groups@.len(),
            n <= views@.len(),
            gv == crate::grouping::group_views(groups@),
            rv == crate::redis_backend::replies::registry_views(views@),
            crate::grouping::keyed_views(credited@) == credits(gv, rv, i as int),
        decreases n - i,
    {
        let view = &views[i];
        let worker = &groups[i].0;
        let sightings = &groups[i].1;
        let ghost all = crate::grouping::value_views(sightings@);
        assert(rv[i as int] == view@);
        assert(gv[i as int] == (worker@, all));
        if view.alive {
            let ghost before = credits(gv, rv, i as int);
            let mut j: usize = 0;
            assert(before + credits_of(worker@, all.take(0), view.generation) =~= before);
            while j < sightings.len()
                invariant
                    j <= sightings@.len(),
                    all == crate::grouping::value_views(sightings@),
                    crate::grouping::keyed_views(credited@) == before + credits_of(
                        worker@,
                        all.take(j as int),
                        view.generation,
                    ),
                decreases sightings@.len() - j,
            {
                let ghost earlier = credited@;
                assert(all.take(j + 1).drop_last() =~= all.take(j as int));
                assert(all.take(j + 1).last() == sightings@[j as int]@);
                if sightings[j].generation == view.generation {
                    credited.push((sightings[j].hash.clone(), (worker.clone(), view.generation)));
                    assert(crate::grouping::keyed_views(credited@) =~= crate::grouping::keyed_views(
                        earlier,
                    ).push((sightings@[j as int].hash@, (worker@, view.generation))));
                    assert(before + credits_of(worker@, all.take(j + 1), view.generation) =~= (
                    before + credits_of(worker@, all.take(j as int), view.generation)).push(
                        (sightings@[j as int].hash@, (worker@, view.generation)),
                    ));
                }
                j = j + 1;
            }
            assert(all.take(j as int) =~= all);
        }
        i = i + 1;
    }
    bumps_of(crate::grouping::group_by_text(credited))
}

/// The hits to record for a query, none unless it asks for it.
pub fn hits_to_record(
    request: &MatchExternalKvRequest,
    groups: &Vec<(String, Vec<Sighting>)>,
    views: &Vec<WorkerView>,
) -> (r: Vec<HitBump>)
    ensures
        crate::redis_backend::hits::bump_views(r@) == if request.count_as_hit {
            match_bumps(
                credits(
                    crate::grouping::group_views(groups@),
                    crate::redis_backend::replies::registry_views(views@),
                    crate::redis_backend::scan::paired(groups@.len(), views@.len()) as int,
                ),
            )
        } else {
            Seq::empty()
        },
{
    if request.count_as_hit {
        match_hits(groups, views)
    } else {
        let none: Vec<HitBump> = Vec::new();
        assert(crate::redis_backend::hits::bump_views(none@) =~= Seq::<HitBumpView>::empty());
        none
    }
}

/// Turns groups of credits into hits.
fn bumps_of(groups: Vec<(String, Vec<(String, i64)>)>) -> (r: Vec<HitBump>)
    ensures
        crate::redis_backend::hits::bump_views(r@) == crate::grouping::group_views(
            groups@,
        ).map_values(
            |g: (Seq<char>, Seq<(Seq<char>, i64)>)| HitBumpView { hash: g.0, owners: g.1 },
        ),
{
    let ghost input = groups@;
    let ghost model = |g: (Seq<char>, Seq<(Seq<char>, i64)>)|
        HitBumpView { hash: g.0, owners: g.1 };
    let mut bumps: Vec<HitBump> = Vec::new();
    for group in it: groups
        invariant
            it.seq() == input,
            model == (|g: (Seq<char>, Seq<(Seq<char>, i64)>)|
                HitBumpView { hash: g.0, owners: g.1 }),
            bumps@.len() == it.index(),
            forall|k: int|
                0 <= k < bumps@.len() ==> (#[trigger] bumps@[k])@ == model(
                    crate::grouping::group_views(input)[k],
                ),
    {
        let ghost k = it.index() as int;
        let (hash, owners) = group;
        assert(input[k] == (hash, owners));
        assert(crate::redis_backend::hits::credited(owners@) =~= crate::grouping::value_views(
            owners@,
        ));
        bumps.push(HitBump { hash, owners });
    }
    assert(crate::redis_backend::hits::bump_views(bumps@) =~= crate::grouping::group_views(
        input,
    ).map_values(model));
    bumps
}

} // verus!
