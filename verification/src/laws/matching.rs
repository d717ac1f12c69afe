//! Which live workers hold which blocks, by tier.

use vstd::prelude::*;

use crate::laws::order::{ascends, ascends_by_row};
use crate::pb::{MatchExternalKvRequest, MatchExternalKvResponse};
use crate::redis_backend::hits::HitBump;
use crate::redis_backend::matching::{
    group_by_worker, group_workers, hits_to_record, match_hits, match_workers, Sighting,
    SightingView,
};
use crate::redis_backend::replies::{OwnerView, PlacementOwner, RegistryView, WorkerView};

verus! {

/// The places of what the placements say.
proof fn lemma_places_of_sightings(
    hashes: Seq<Seq<char>>,
    rows: Seq<Seq<OwnerView>>,
    n: int,
) -> (at: Seq<(int, int)>)
    requires
        0 <= n <= hashes.len(),
        n <= rows.len(),
    ensures
        ({
            let seen = crate::redis_backend::matching::sightings(hashes, rows, n);
            &&& at.len() == seen.len()
            &&& forall|f: int|
                0 <= f < at.len() ==> 0 <= (#[trigger] at[f]).0 < n && 0 <= at[f].1
                    < rows[at[f].0].len() && seen[f].0 == rows[at[f].0][at[f].1].worker
                    && seen[f].1.hash == hashes[at[f].0] && seen[f].1.generation
                    == rows[at[f].0][at[f].1].generation && seen[f].1.mask
                    == rows[at[f].0][at[f].1].mask
            &&& ascends_by_row(at)
            &&& forall|i: int, j: int|
                0 <= i < n && 0 <= j < rows[i].len() ==> #[trigger] at.contains((i, j))
        }),
    decreases n,
{
    if n == 0 {
        Seq::empty()
    } else {
        let before = lemma_places_of_sightings(hashes, rows, n - 1);
        let row = rows[n - 1];
        let added = Seq::new(row.len(), |j: int| (n - 1, j));
        let at = before + added;
        assert forall|i: int, j: int|
            0 <= i < n && 0 <= j < rows[i].len() implies #[trigger] at.contains((i, j)) by {
            if i < n - 1 {
                assert(before.contains((i, j)));
                let k = choose|k: int| 0 <= k < before.len() && before[k] == (i, j);
                assert(at[k] == (i, j));
            } else {
                assert(at[before.len() + j] == (i, j));
            }
        }
        at
    }
}

/// What the placements of blocks say is collected by worker. Every entry of a
/// placement goes to its worker, as the block it is about with the generation
/// and the tiers that it records; nothing is lost, changed or added, and the
/// order of the blocks is kept. No worker is listed twice.
///
/// `at` tells from which block and which entry each part of the group `g` comes.
pub proof fn entries_are_collected_by_worker(
    hashes: Vec<String>,
    rows: Vec<Vec<PlacementOwner>>,
    r: Vec<(String, Vec<Sighting>)>,
    g: int,
) -> (at: Seq<(int, int)>)
    requires
        call_ensures(group_by_worker, (&hashes, &rows), r),
        0 <= g < r@.len(),
    ensures
        at.len() == r@[g].1@.len(),
        at.len() > 0,
        forall|k: int|
            0 <= k < at.len() ==> 0 <= (#[trigger] at[k]).0 < hashes@.len() && at[k].0 < rows@.len()
                && 0 <= at[k].1 < rows@[at[k].0]@.len() && rows@[at[k].0]@[at[k].1].worker@
                == r@[g].0@ && r@[g].1@[k].hash@ == hashes@[at[k].0]@ && r@[g].1@[k].generation
                == rows@[at[k].0]@[at[k].1].generation && r@[g].1@[k].mask
                == rows@[at[k].0]@[at[k].1].mask,
        ascends_by_row(at),
        forall|i: int, j: int|
            0 <= i < hashes@.len() && i < rows@.len() && 0 <= j < rows@[i]@.len()
                && rows@[i]@[j].worker@ == r@[g].0@ ==> #[trigger] at.contains((i, j)),
        forall|h: int| 0 <= h < r@.len() && h != g ==> (#[trigger] r@[h]).0@ != r@[g].0@,
{
    let names = crate::text::texts(hashes@);
    let table = crate::redis_backend::scan::row_views(rows@);
    let n = crate::redis_backend::scan::paired(hashes@.len(), rows@.len()) as int;
    let seen = crate::redis_backend::matching::sightings(names, table, n);
    let groups = crate::grouping::group_views(r@);
    let places = lemma_places_of_sightings(names, table, n);
    let order = crate::text::distinct(crate::grouping::keys(seen));
    crate::text::distinct_keeps_each_text_once(crate::grouping::keys(seen));
    assert(groups.len() == r@.len());
    assert(groups[g] == (r@[g].0@, crate::grouping::value_views(r@[g].1@)));
    assert(groups[g] == (order[g], crate::grouping::values_of(seen, order[g])));
    let worker = r@[g].0@;
    let within = crate::laws::order::lemma_places_of_values(seen, worker);
    let at = Seq::new(within.len(), |k: int| places[within[k]]);
    assert(order.contains(order[g]));
    let first = choose|i: int|
        0 <= i < crate::grouping::keys(seen).len() && crate::grouping::keys(seen)[i] == worker;
    assert(seen[first].0 == worker);
    assert(within.contains(first));
    assert forall|k: int| 0 <= k < at.len() implies 0 <= (#[trigger] at[k]).0 < hashes@.len()
        && at[k].0 < rows@.len() && 0 <= at[k].1 < rows@[at[k].0]@.len()
        && rows@[at[k].0]@[at[k].1].worker@ == worker && r@[g].1@[k].hash@ == hashes@[at[k].0]@
        && r@[g].1@[k].generation == rows@[at[k].0]@[at[k].1].generation && r@[g].1@[k].mask
        == rows@[at[k].0]@[at[k].1].mask by {
        let f = within[k];
        assert(at[k] == places[f]);
        let i = places[f].0;
        let j = places[f].1;
        assert(table[i] == crate::redis_backend::replies::owner_views(rows@[i]@));
        assert(table[i][j] == rows@[i]@[j]@);
        assert(crate::grouping::value_views(r@[g].1@)[k] == r@[g].1@[k]@);
    }
    assert forall|i: int, j: int|
        0 <= i < hashes@.len() && i < rows@.len() && 0 <= j < rows@[i]@.len()
            && rows@[i]@[j].worker@ == worker implies #[trigger] at.contains((i, j)) by {
        assert(table[i] == crate::redis_backend::replies::owner_views(rows@[i]@));
        assert(table[i][j] == rows@[i]@[j]@);
        assert(places.contains((i, j)));
        let f = choose|f: int| 0 <= f < places.len() && places[f] == (i, j);
        assert(seen[f].0 == worker);
        assert(within.contains(f));
        let k = choose|k: int| 0 <= k < within.len() && within[k] == f;
        assert(at[k] == (i, j));
    }
    assert forall|k: int, l: int| 0 <= k < l < at.len() implies (#[trigger] at[k]).0 < (
    #[trigger] at[l]).0 || (at[k].0 == at[l].0 && at[k].1 < at[l].1) by {
        assert(within[k] < within[l]);
        assert(at[k] == places[within[k]]);
        assert(at[l] == places[within[l]]);
    }
    assert forall|h: int| 0 <= h < r@.len() && h != g implies (#[trigger] r@[h]).0@ != worker by {
        assert(groups[h].0 == r@[h].0@);
        assert(groups[h].0 == order[h]);
        assert(order[h] != order[g]);
    }
    at
}

/// Every worker that a placement names has a group.
pub proof fn every_named_worker_has_a_group(
    hashes: Vec<String>,
    rows: Vec<Vec<PlacementOwner>>,
    r: Vec<(String, Vec<Sighting>)>,
    i: int,
    j: int,
) -> (g: int)
    requires
        call_ensures(group_by_worker, (&hashes, &rows), r),
        0 <= i < hashes@.len(),
        i < rows@.len(),
        0 <= j < rows@[i]@.len(),
    ensures
        0 <= g < r@.len(),
        r@[g].0@ == rows@[i]@[j].worker@,
{
    let names = crate::text::texts(hashes@);
    let table = crate::redis_backend::scan::row_views(rows@);
    let n = crate::redis_backend::scan::paired(hashes@.len(), rows@.len()) as int;
    let seen = crate::redis_backend::matching::sightings(names, table, n);
    let groups = crate::grouping::group_views(r@);
    let places = lemma_places_of_sightings(names, table, n);
    assert(table[i] == crate::redis_backend::replies::owner_views(rows@[i]@));
    assert(table[i][j] == rows@[i]@[j]@);
    assert(places.contains((i, j)));
    let f = choose|f: int| 0 <= f < places.len() && places[f] == (i, j);
    let worker = rows@[i]@[j].worker@;
    assert(crate::grouping::keys(seen)[f] == worker);
    crate::text::distinct_keeps_each_text_once(crate::grouping::keys(seen));
    let order = crate::text::distinct(crate::grouping::keys(seen));
    assert(order.contains(worker));
    let g = choose|g: int| 0 <= g < order.len() && order[g] == worker;
    assert(groups.len() == r@.len());
    assert(groups[g].0 == order[g]);
    assert(groups[g].0 == r@[g].0@);
    g
}

/// The workers of the groups are listed in order.
pub proof fn workers_of_groups_are_listed(
    groups: Vec<(String, Vec<Sighting>)>,
    r: Vec<String>,
    g: int,
)
    requires
        call_ensures(group_workers, (&groups,), r),
        0 <= g < groups@.len(),
    ensures
        r@.len() == groups@.len(),
        r@[g]@ == groups@[g].0@,
{
    assert(crate::text::texts(r@).len() == r@.len());
    assert(crate::grouping::group_views(groups@).len() == groups@.len());
    assert(crate::text::texts(r@)[g] == r@[g]@);
    assert(crate::grouping::group_views(groups@)[g].0 == groups@[g].0@);
}

/// The blocks that are held at a tier, by the bit of that tier.
proof fn lemma_held_at(s: Seq<Sighting>, generation: i64, tier: i32, bit: i64)
    requires
        (tier == 1 && bit == 2) || (tier == 2 && bit == 4) || (tier == 3 && bit == 8),
    ensures
        crate::redis_backend::matching::held_at(
            crate::grouping::value_views(s),
            generation,
            tier,
        ) == s.filter(
            |x: Sighting| x.generation == generation && x.mask & bit != 0,
        ).map_values(|x: Sighting| x.hash@),
    decreases s.len(),
{
    let holds = |x: Sighting| x.generation == generation && x.mask & bit != 0;
    let name = |x: Sighting| x.hash@;
    let views = crate::grouping::value_views(s);
    if s.len() == 0 {
        assert(s.filter(holds) =~= Seq::<Sighting>::empty()) by {
            reveal(Seq::filter);
        }
        assert(s.filter(holds).map_values(name) =~= Seq::<Seq<char>>::empty());
    } else {
        let head = s.drop_last();
        lemma_held_at(head, generation, tier, bit);
        assert(views.drop_last() =~= crate::grouping::value_views(head));
        assert(views.last() == s.last()@);
        assert(s =~= head.push(s.last()));
        head.lemma_filter_push(s.last(), holds);
        if holds(s.last()) {
            assert(s.filter(holds).map_values(name) =~= head.filter(holds).map_values(name).push(
                s.last().hash@,
            ));
        }
    }
}

/// The places of the workers that are reported.
proof fn lemma_places_of_nodes(
    groups: Seq<(Seq<char>, Seq<SightingView>)>,
    views: Seq<RegistryView>,
    n: int,
) -> (at: Seq<int>)
    requires
        0 <= n <= groups.len(),
        n <= views.len(),
    ensures
        ({
            let all = crate::redis_backend::matching::nodes(groups, views, n);
            &&& at.len() == all.len()
            &&& forall|k: int|
                0 <= k < at.len() ==> 0 <= #[trigger] at[k] < n
                    && crate::redis_backend::matching::node_of(
                    groups[at[k]].0,
                    groups[at[k]].1,
                    views[at[k]],
                ) == Some(all[k])
            &&& ascends(at)
            &&& forall|g: int|
                0 <= g < n && crate::redis_backend::matching::node_of(
                    groups[g].0,
                    groups[g].1,
                    views[g],
                ) is Some ==> #[trigger] at.contains(g)
        }),
    decreases n,
{
    if n == 0 {
        Seq::empty()
    } else {
        let before = lemma_places_of_nodes(groups, views, n - 1);
        if crate::redis_backend::matching::node_of(
            groups[n - 1].0,
            groups[n - 1].1,
            views[n - 1],
        ) is Some {
            let at = before.push(n - 1);
            assert forall|g: int|
                0 <= g < n && crate::redis_backend::matching::node_of(
                    groups[g].0,
                    groups[g].1,
                    views[g],
                ) is Some implies #[trigger] at.contains(g) by {
                if g < n - 1 {
                    assert(before.contains(g));
                    let k = choose|k: int| 0 <= k < before.len() && before[k] == g;
                    assert(at[k] == g);
                } else {
                    assert(at[before.len() as int] == g);
                }
            }
            at
        } else {
            before
        }
    }
}

/// The lists of a reported worker.
proof fn lemma_lists(s: Seq<Sighting>, generation: i64)
    ensures
        ({
            let lists = crate::redis_backend::matching::tier_lists(
                crate::grouping::value_views(s),
                generation,
            );
            &&& forall|a: int|
                0 <= a < lists.len() ==> 1 <= (#[trigger] lists[a]).tier <= 3
                    && lists[a].hashes.len() > 0 && lists[a].hashes == s.filter(
                    |x: Sighting|
                        x.generation == generation && x.mask & (if lists[a].tier == 1 {
                            2i64
                        } else if lists[a].tier == 2 {
                            4
                        } else {
                            8
                        }) != 0,
                ).map_values(|x: Sighting| x.hash@)
            &&& forall|a: int, b: int|
                0 <= a < b < lists.len() ==> (#[trigger] lists[a]).tier < (#[trigger] lists[b]).tier
            &&& forall|k: int|
                0 <= k < s.len() && (#[trigger] s[k]).generation == generation && s[k].mask & 2 != 0
                    ==> exists|a: int| 0 <= a < lists.len() && (#[trigger] lists[a]).tier == 1
            &&& forall|k: int|
                0 <= k < s.len() && (#[trigger] s[k]).generation == generation && s[k].mask & 4 != 0
                    ==> exists|a: int| 0 <= a < lists.len() && (#[trigger] lists[a]).tier == 2
            &&& forall|k: int|
                0 <= k < s.len() && (#[trigger] s[k]).generation == generation && s[k].mask & 8 != 0
                    ==> exists|a: int| 0 <= a < lists.len() && (#[trigger] lists[a]).tier == 3
        }),
{
    let views = crate::grouping::value_views(s);
    let lists = crate::redis_backend::matching::tier_lists(views, generation);
    lemma_held_at(s, generation, 1, 2);
    lemma_held_at(s, generation, 2, 4);
    lemma_held_at(s, generation, 3, 8);
    let hbm = crate::redis_backend::matching::listed(views, generation, 1);
    let dram = crate::redis_backend::matching::listed(views, generation, 2);
    let ssd = crate::redis_backend::matching::listed(views, generation, 3);
    assert(lists == hbm + dram + ssd);
    assert forall|a: int| 0 <= a < lists.len() implies 1 <= (#[trigger] lists[a]).tier <= 3
        && lists[a].hashes.len() > 0 && lists[a].hashes == s.filter(
        |x: Sighting|
            x.generation == generation && x.mask & (if lists[a].tier == 1 {
                2i64
            } else if lists[a].tier == 2 {
                4
            } else {
                8
            }) != 0,
    ).map_values(|x: Sighting| x.hash@) by {
        let bit = if lists[a].tier == 1 {
            2i64
        } else if lists[a].tier == 2 {
            4
        } else {
            8
        };
        assert((|x: Sighting| x.generation == generation && x.mask & bit != 0) =~= (|x: Sighting|
            x.generation == generation && x.mask & (if lists[a].tier == 1 {
                2i64
            } else if lists[a].tier == 2 {
                4
            } else {
                8
            }) != 0));
        if a < hbm.len() {
            assert(lists[a] == hbm[a]);
        } else if a < hbm.len() + dram.len() {
            assert(lists[a] == dram[a - hbm.len()]);
        } else {
            assert(lists[a] == ssd[a - hbm.len() - dram.len()]);
        }
    }
    assert forall|k: int|
        0 <= k < s.len() && (#[trigger] s[k]).generation == generation && s[k].mask & 2 != 0 implies
        exists|a: int| 0 <= a < lists.len() && (#[trigger] lists[a]).tier == 1 by {
        let holds = |x: Sighting| x.generation == generation && x.mask & 2i64 != 0;
        s.lemma_filter_contains(holds, k);
        assert(s.filter(holds).len() > 0);
        assert(lists[0].tier == 1);
    }
    assert forall|k: int|
        0 <= k < s.len() && (#[trigger] s[k]).generation == generation && s[k].mask & 4 != 0 implies
        exists|a: int| 0 <= a < lists.len() && (#[trigger] lists[a]).tier == 2 by {
        let holds = |x: Sighting| x.generation == generation && x.mask & 4i64 != 0;
        s.lemma_filter_contains(holds, k);
        assert(s.filter(holds).len() > 0);
        assert(lists[hbm.len() as int].tier == 2);
    }
    assert forall|k: int|
        0 <= k < s.len() && (#[trigger] s[k]).generation == generation && s[k].mask & 8 != 0 implies
        exists|a: int| 0 <= a < lists.len() && (#[trigger] lists[a]).tier == 3 by {
        let holds = |x: Sighting| x.generation == generation && x.mask & 8i64 != 0;
        s.lemma_filter_contains(holds, k);
        assert(s.filter(holds).len() > 0);
        assert(lists[hbm.len() + dram.len() as int].tier == 3);
    }
}

/// A match reports live workers, each with the address and the data-parallel
/// rank that the registry records for it. Its lists ascend by tier, no two are of
/// one tier and none is empty. The list of a tier names exactly the blocks whose
/// placement in the worker's current generation holds that tier, in order: HBM
/// by bit 2, DRAM by bit 4, SSD by bit 8. A live worker that holds a block at any
/// of them in its current generation is reported.
///
/// `at` tells which group each reported worker comes from.
pub proof fn a_match_reports_live_holders_by_tier(
    groups: Vec<(String, Vec<Sighting>)>,
    views: Vec<WorkerView>,
    r: MatchExternalKvResponse,
) -> (at: Seq<int>)
    requires
        call_ensures(match_workers, (&groups, &views), r),
    ensures
        at.len() == r.matches@.len(),
        forall|m: int|
            0 <= m < at.len() ==> 0 <= #[trigger] at[m] < groups@.len() && at[m] < views@.len()
                && views@[at[m]].alive && r.matches@[m].worker_id@ == groups@[at[m]].0@
                && r.matches@[m].address@ == views@[at[m]].address@ && r.matches@[m].dp_rank
                == views@[at[m]].dp_rank && r.matches@[m].hashes_by_tier@.len() > 0,
        ascends(at),
        forall|m: int, a: int|
            #![trigger r.matches@[m].hashes_by_tier@[a]]
            0 <= m < at.len() && 0 <= a < r.matches@[m].hashes_by_tier@.len() ==> 1
                <= r.matches@[m].hashes_by_tier@[a].tier <= 3
                && r.matches@[m].hashes_by_tier@[a].hashes@.len() > 0
                && r.matches@[m].hashes_by_tier@[a].hashes@.map_values(|t: String| t@)
                == groups@[at[m]].1@.filter(
                |x: Sighting|
                    x.generation == views@[at[m]].generation && x.mask & (
                    if r.matches@[m].hashes_by_tier@[a].tier == 1 {
                        2i64
                    } else if r.matches@[m].hashes_by_tier@[a].tier == 2 {
                        4
                    } else {
                        8
                    }) != 0,
            ).map_values(|x: Sighting| x.hash@),
        forall|m: int, a: int, b: int|
            #![trigger r.matches@[m].hashes_by_tier@[a], r.matches@[m].hashes_by_tier@[b]]
            0 <= m < at.len() && 0 <= a < b < r.matches@[m].hashes_by_tier@.len()
                ==> r.matches@[m].hashes_by_tier@[a].tier < r.matches@[m].hashes_by_tier@[b].tier,
        forall|g: int, k: int|
            #![trigger groups@[g].1@[k]]
            0 <= g < groups@.len() && g < views@.len() && 0 <= k < groups@[g].1@.len()
                && views@[g].alive && groups@[g].1@[k].generation == views@[g].generation && (
            groups@[g].1@[k].mask & 2 != 0 || groups@[g].1@[k].mask & 4 != 0
                || groups@[g].1@[k].mask & 8 != 0) ==> at.contains(g),
        forall|m: int, k: int|
            #![trigger groups@[at[m]].1@[k]]
            0 <= m < at.len() && 0 <= k < groups@[at[m]].1@.len()
                && groups@[at[m]].1@[k].generation == views@[at[m]].generation ==> (
            groups@[at[m]].1@[k].mask & 2 != 0 ==> exists|a: int|
                #![trigger r.matches@[m].hashes_by_tier@[a]]
                0 <= a < r.matches@[m].hashes_by_tier@.len()
                    && r.matches@[m].hashes_by_tier@[a].tier == 1) && (
            groups@[at[m]].1@[k].mask & 4 != 0 ==> exists|a: int|
                #![trigger r.matches@[m].hashes_by_tier@[a]]
                0 <= a < r.matches@[m].hashes_by_tier@.len()
                    && r.matches@[m].hashes_by_tier@[a].tier == 2) && (
            groups@[at[m]].1@[k].mask & 8 != 0 ==> exists|a: int|
                #![trigger r.matches@[m].hashes_by_tier@[a]]
                0 <= a < r.matches@[m].hashes_by_tier@.len()
                    && r.matches@[m].hashes_by_tier@[a].tier == 3),
{
    let gv = crate::grouping::group_views(groups@);
    let rv = crate::redis_backend::replies::registry_views(views@);
    let n = crate::redis_backend::scan::paired(groups@.len(), views@.len()) as int;
    let at = lemma_places_of_nodes(gv, rv, n);
    assert(r@.len() == r.matches@.len());
    assert forall|m: int| 0 <= m < at.len() implies r.matches@[m]@ == r@[m]
        && #[trigger] gv[at[m]] == (
        groups@[at[m]].0@,
        crate::grouping::value_views(groups@[at[m]].1@),
    ) && rv[at[m]] == views@[at[m]]@ by {}
    assert forall|m: int| 0 <= m < at.len() implies 0 <= #[trigger] at[m] < groups@.len() && at[m]
        < views@.len() && views@[at[m]].alive && r.matches@[m].worker_id@ == groups@[at[m]].0@
        && r.matches@[m].address@ == views@[at[m]].address@ && r.matches@[m].dp_rank
        == views@[at[m]].dp_rank && r.matches@[m].hashes_by_tier@.len() > 0 by {
        assert(gv[at[m]].0 == groups@[at[m]].0@);
        assert(r.matches@[m]@.hashes_by_tier.len() == r.matches@[m].hashes_by_tier@.len());
    }
    assert forall|m: int, a: int|
        #![trigger r.matches@[m].hashes_by_tier@[a]]
        0 <= m < at.len() && 0 <= a < r.matches@[m].hashes_by_tier@.len() implies 1
        <= r.matches@[m].hashes_by_tier@[a].tier <= 3
        && r.matches@[m].hashes_by_tier@[a].hashes@.len() > 0
        && r.matches@[m].hashes_by_tier@[a].hashes@.map_values(|t: String| t@)
        == groups@[at[m]].1@.filter(
        |x: Sighting|
            x.generation == views@[at[m]].generation && x.mask & (
            if r.matches@[m].hashes_by_tier@[a].tier == 1 {
                2i64
            } else if r.matches@[m].hashes_by_tier@[a].tier == 2 {
                4
            } else {
                8
            }) != 0,
    ).map_values(|x: Sighting| x.hash@) by {
        let g = at[m];
        lemma_lists(groups@[g].1@, views@[g].generation);
        assert(gv[g] == (groups@[g].0@, crate::grouping::value_views(groups@[g].1@)));
        let lists = r.matches@[m]@.hashes_by_tier;
        assert(lists[a] == r.matches@[m].hashes_by_tier@[a]@);
        assert(lists[a].hashes =~= r.matches@[m].hashes_by_tier@[a].hashes@.map_values(
            |t: String| t@,
        ));
        assert(lists[a].hashes.len() == r.matches@[m].hashes_by_tier@[a].hashes@.len());
        assert((|x: Sighting|
            x.generation == views@[g].generation && x.mask & (if lists[a].tier == 1 {
                2i64
            } else if lists[a].tier == 2 {
                4
            } else {
                8
            }) != 0) =~= (|x: Sighting|
            x.generation == views@[at[m]].generation && x.mask & (
            if r.matches@[m].hashes_by_tier@[a].tier == 1 {
                2i64
            } else if r.matches@[m].hashes_by_tier@[a].tier == 2 {
                4
            } else {
                8
            }) != 0));
    }
    assert forall|m: int, a: int, b: int|
        #![trigger r.matches@[m].hashes_by_tier@[a], r.matches@[m].hashes_by_tier@[b]]
        0 <= m < at.len() && 0 <= a < b < r.matches@[m].hashes_by_tier@.len() implies
        r.matches@[m].hashes_by_tier@[a].tier < r.matches@[m].hashes_by_tier@[b].tier by {
        let g = at[m];
        lemma_lists(groups@[g].1@, views@[g].generation);
        assert(gv[g] == (groups@[g].0@, crate::grouping::value_views(groups@[g].1@)));
        let lists = r.matches@[m]@.hashes_by_tier;
        assert(lists[a] == r.matches@[m].hashes_by_tier@[a]@);
        assert(lists[b] == r.matches@[m].hashes_by_tier@[b]@);
    }
    assert forall|g: int, k: int|
        #![trigger groups@[g].1@[k]]
        0 <= g < groups@.len() && g < views@.len() && 0 <= k < groups@[g].1@.len()
            && views@[g].alive && groups@[g].1@[k].generation == views@[g].generation && (
        groups@[g].1@[k].mask & 2 != 0 || groups@[g].1@[k].mask & 4 != 0 || groups@[g].1@[k].mask
            & 8 != 0) implies at.contains(g) by {
        lemma_lists(groups@[g].1@, views@[g].generation);
        assert(gv[g] == (groups@[g].0@, crate::grouping::value_views(groups@[g].1@)));
        assert(rv[g] == views@[g]@);
        let lists = crate::redis_backend::matching::tier_lists(gv[g].1, rv[g].generation);
        assert(lists.len() > 0);
        assert(crate::redis_backend::matching::node_of(gv[g].0, gv[g].1, rv[g]) is Some);
    }
    assert forall|m: int, k: int|
        #![trigger groups@[at[m]].1@[k]]
        0 <= m < at.len() && 0 <= k < groups@[at[m]].1@.len() && groups@[at[m]].1@[k].generation
            == views@[at[m]].generation implies (groups@[at[m]].1@[k].mask & 2 != 0 ==> exists|
        a: int,
    |
        #![trigger r.matches@[m].hashes_by_tier@[a]]
        0 <= a < r.matches@[m].hashes_by_tier@.len() && r.matches@[m].hashes_by_tier@[a].tier == 1)
        && (groups@[at[m]].1@[k].mask & 4 != 0 ==> exists|a: int|
        #![trigger r.matches@[m].hashes_by_tier@[a]]
        0 <= a < r.matches@[m].hashes_by_tier@.len() && r.matches@[m].hashes_by_tier@[a].tier == 2)
        && (groups@[at[m]].1@[k].mask & 8 != 0 ==> exists|a: int|
        #![trigger r.matches@[m].hashes_by_tier@[a]]
        0 <= a < r.matches@[m].hashes_by_tier@.len() && r.matches@[m].hashes_by_tier@[a].tier
            == 3) by {
        let g = at[m];
        lemma_lists(groups@[g].1@, views@[g].generation);
        assert(gv[g] == (groups@[g].0@, crate::grouping::value_views(groups@[g].1@)));
        let lists = r.matches@[m]@.hashes_by_tier;
        assert(lists.len() == r.matches@[m].hashes_by_tier@.len());
        if groups@[g].1@[k].mask & 2 != 0 {
            let a = choose|a: int| 0 <= a < lists.len() && (#[trigger] lists[a]).tier == 1;
            assert(r.matches@[m].hashes_by_tier@[a].tier == 1);
        }
        if groups@[g].1@[k].mask & 4 != 0 {
            let a = choose|a: int| 0 <= a < lists.len() && (#[trigger] lists[a]).tier == 2;
            assert(r.matches@[m].hashes_by_tier@[a].tier == 2);
        }
        if groups@[g].1@[k].mask & 8 != 0 {
            let a = choose|a: int| 0 <= a < lists.len() && (#[trigger] lists[a]).tier == 3;
            assert(r.matches@[m].hashes_by_tier@[a].tier == 3);
        }
    }
    at
}

/// The places of what is credited to one worker.
proof fn lemma_places_of_one(worker: Seq<char>, s: Seq<SightingView>, generation: i64) -> (at: Seq<
    int,
>)
    ensures
        ({
            let all = crate::redis_backend::matching::credits_of(worker, s, generation);
            &&& at.len() == all.len()
            &&& forall|k: int|
                0 <= k < at.len() ==> 0 <= #[trigger] at[k] < s.len() && s[at[k]].generation
                    == generation && all[k] == (s[at[k]].hash, (worker, generation))
            &&& ascends(at)
            &&& forall|i: int|
                0 <= i < s.len() && s[i].generation == generation ==> #[trigger] at.contains(i)
        }),
    decreases s.len(),
{
    if s.len() == 0 {
        Seq::empty()
    } else {
        let head = s.drop_last();
        let before = lemma_places_of_one(worker, head, generation);
        let at = if s.last().generation == generation {
            before.push(s.len() - 1)
        } else {
            before
        };
        assert forall|i: int|
            0 <= i < s.len() && s[i].generation == generation implies #[trigger] at.contains(i) by {
            if i < s.len() - 1 {
                assert(head[i].generation == generation);
                assert(before.contains(i));
                let k = choose|k: int| 0 <= k < before.len() && before[k] == i;
                assert(at[k] == i);
            } else {
                assert(at[before.len() as int] == i);
            }
        }
        at
    }
}

/// The places of what is credited.
proof fn lemma_places_of_credits(
    groups: Seq<(Seq<char>, Seq<SightingView>)>,
    views: Seq<RegistryView>,
    n: int,
) -> (at: Seq<(int, int)>)
    requires
        0 <= n <= groups.len(),
        n <= views.len(),
    ensures
        ({
            let all = crate::redis_backend::matching::credits(groups, views, n);
            &&& at.len() == all.len()
            &&& forall|f: int|
                0 <= f < at.len() ==> 0 <= (#[trigger] at[f]).0 < n && 0 <= at[f].1
                    < groups[at[f].0].1.len() && views[at[f].0].alive
                    && groups[at[f].0].1[at[f].1].generation == views[at[f].0].generation && all[f]
                    == (
                    groups[at[f].0].1[at[f].1].hash,
                    (groups[at[f].0].0, views[at[f].0].generation),
                )
            &&& ascends_by_row(at)
            &&& forall|g: int, k: int|
                0 <= g < n && 0 <= k < groups[g].1.len() && views[g].alive
                    && groups[g].1[k].generation == views[g].generation ==> #[trigger] at.contains(
                    (g, k),
                )
        }),
    decreases n,
{
    if n == 0 {
        Seq::empty()
    } else {
        let before = lemma_places_of_credits(groups, views, n - 1);
        let last = n - 1;
        if views[last].alive {
            let within = lemma_places_of_one(groups[last].0, groups[last].1, views[last].generation);
            let added = Seq::new(within.len(), |k: int| (last, within[k]));
            let at = before + added;
            assert forall|g: int, k: int|
                0 <= g < n && 0 <= k < groups[g].1.len() && views[g].alive
                    && groups[g].1[k].generation
                    == views[g].generation implies #[trigger] at.contains((g, k)) by {
                if g < last {
                    assert(before.contains((g, k)));
                    let f = choose|f: int| 0 <= f < before.len() && before[f] == (g, k);
                    assert(at[f] == (g, k));
                } else {
                    assert(within.contains(k));
                    let f = choose|f: int| 0 <= f < within.len() && within[f] == k;
                    assert(added[f] == (g, k));
                    assert(at[before.len() + f] == (g, k));
                }
            }
            assert forall|f: int| 0 <= f < at.len() implies 0 <= (#[trigger] at[f]).0 < n && 0
                <= at[f].1 < groups[at[f].0].1.len() && views[at[f].0].alive
                && groups[at[f].0].1[at[f].1].generation == views[at[f].0].generation
                && crate::redis_backend::matching::credits(groups, views, n)[f] == (
                groups[at[f].0].1[at[f].1].hash,
                (groups[at[f].0].0, views[at[f].0].generation),
            ) by {
                if f >= before.len() {
                    assert(at[f] == added[f - before.len()]);
                    assert(within[f - before.len()] == at[f].1);
                }
            }
            assert forall|k: int, l: int| 0 <= k < l < at.len() implies (#[trigger] at[k]).0 < (
            #[trigger] at[l]).0 || (at[k].0 == at[l].0 && at[k].1 < at[l].1) by {
                if k >= before.len() {
                    assert(within[k - before.len()] < within[l - before.len()]);
                }
            }
            at
        } else {
            before
        }
    }
}

/// A counted match credits each block once, and to exactly the live workers that
/// hold it in their current generation, each with that generation.
///
/// `at` tells from which group and which part of it each credited worker comes.
pub proof fn a_match_credits_live_holders(
    groups: Vec<(String, Vec<Sighting>)>,
    views: Vec<WorkerView>,
    r: Vec<HitBump>,
    b: int,
) -> (at: Seq<(int, int)>)
    requires
        call_ensures(match_hits, (&groups, &views), r),
        0 <= b < r@.len(),
    ensures
        at.len() == r@[b].owners@.len(),
        at.len() > 0,
        forall|f: int|
            0 <= f < at.len() ==> 0 <= (#[trigger] at[f]).0 < groups@.len() && at[f].0
                < views@.len() && 0 <= at[f].1 < groups@[at[f].0].1@.len() && views@[at[f].0].alive
                && groups@[at[f].0].1@[at[f].1].generation == views@[at[f].0].generation
                && groups@[at[f].0].1@[at[f].1].hash@ == r@[b].hash@ && r@[b].owners@[f].0@
                == groups@[at[f].0].0@ && r@[b].owners@[f].1 == views@[at[f].0].generation,
        ascends_by_row(at),
        forall|g: int, k: int|
            0 <= g < groups@.len() && g < views@.len() && 0 <= k < groups@[g].1@.len()
                && views@[g].alive && groups@[g].1@[k].generation == views@[g].generation
                && groups@[g].1@[k].hash@ == r@[b].hash@ ==> #[trigger] at.contains((g, k)),
        forall|c: int| 0 <= c < r@.len() && c != b ==> (#[trigger] r@[c]).hash@ != r@[b].hash@,
{
    let gv = crate::grouping::group_views(groups@);
    let rv = crate::redis_backend::replies::registry_views(views@);
    let n = crate::redis_backend::scan::paired(groups@.len(), views@.len()) as int;
    let all = crate::redis_backend::matching::credits(gv, rv, n);
    let bumps = crate::redis_backend::hits::bump_views(r@);
    let places = lemma_places_of_credits(gv, rv, n);
    let order = crate::text::distinct(crate::grouping::keys(all));
    crate::text::distinct_keeps_each_text_once(crate::grouping::keys(all));
    assert(bumps.len() == r@.len());
    assert(bumps[b] == r@[b]@);
    let hash = r@[b].hash@;
    assert(crate::grouping::grouped(all)[b] == (
        order[b],
        crate::grouping::values_of(all, order[b]),
    ));
    assert(hash == order[b]);
    let within = crate::laws::order::lemma_places_of_values(all, hash);
    let at = Seq::new(within.len(), |f: int| places[within[f]]);
    assert(order.contains(order[b]));
    let first = choose|i: int|
        0 <= i < crate::grouping::keys(all).len() && crate::grouping::keys(all)[i] == hash;
    assert(all[first].0 == hash);
    assert(within.contains(first));
    assert(crate::redis_backend::hits::credited(r@[b].owners@).len() == r@[b].owners@.len());
    assert forall|f: int| 0 <= f < at.len() implies 0 <= (#[trigger] at[f]).0 < groups@.len()
        && at[f].0 < views@.len() && 0 <= at[f].1 < groups@[at[f].0].1@.len()
        && views@[at[f].0].alive && groups@[at[f].0].1@[at[f].1].generation
        == views@[at[f].0].generation && groups@[at[f].0].1@[at[f].1].hash@ == hash
        && r@[b].owners@[f].0@ == groups@[at[f].0].0@ && r@[b].owners@[f].1
        == views@[at[f].0].generation by {
        let p = within[f];
        let g = places[p].0;
        let k = places[p].1;
        assert(at[f] == places[p]);
        assert(gv[g] == (groups@[g].0@, crate::grouping::value_views(groups@[g].1@)));
        assert(rv[g] == views@[g]@);
        assert(gv[g].1[k] == groups@[g].1@[k]@);
        assert(crate::redis_backend::hits::credited(r@[b].owners@)[f] == (
            r@[b].owners@[f].0@,
            r@[b].owners@[f].1,
        ));
    }
    assert forall|g: int, k: int|
        0 <= g < groups@.len() && g < views@.len() && 0 <= k < groups@[g].1@.len()
            && views@[g].alive && groups@[g].1@[k].generation == views@[g].generation
            && groups@[g].1@[k].hash@ == hash implies #[trigger] at.contains((g, k)) by {
        assert(gv[g] == (groups@[g].0@, crate::grouping::value_views(groups@[g].1@)));
        assert(rv[g] == views@[g]@);
        assert(gv[g].1[k] == groups@[g].1@[k]@);
        assert(places.contains((g, k)));
        let p = choose|p: int| 0 <= p < places.len() && places[p] == (g, k);
        assert(all[p].0 == hash);
        assert(within.contains(p));
        let f = choose|f: int| 0 <= f < within.len() && within[f] == p;
        assert(at[f] == (g, k));
    }
    assert forall|k: int, l: int| 0 <= k < l < at.len() implies (#[trigger] at[k]).0 < (
    #[trigger] at[l]).0 || (at[k].0 == at[l].0 && at[k].1 < at[l].1) by {
        assert(within[k] < within[l]);
        assert(at[k] == places[within[k]]);
        assert(at[l] == places[within[l]]);
    }
    assert forall|c: int| 0 <= c < r@.len() && c != b implies (#[trigger] r@[c]).hash@ != hash by {
        assert(bumps[c] == r@[c]@);
        assert(crate::grouping::grouped(all)[c].0 == order[c]);
        assert(order[c] != order[b]);
    }
    at
}

/// Every block that a live worker holds in its current generation is credited.
pub proof fn every_held_block_is_credited(
    groups: Vec<(String, Vec<Sighting>)>,
    views: Vec<WorkerView>,
    r: Vec<HitBump>,
    g: int,
    k: int,
) -> (b: int)
    requires
        call_ensures(match_hits, (&groups, &views), r),
        0 <= g < groups@.len(),
        g < views@.len(),
        0 <= k < groups@[g].1@.len(),
        views@[g].alive,
        groups@[g].1@[k].generation == views@[g].generation,
    ensures
        0 <= b < r@.len(),
        r@[b].hash@ == groups@[g].1@[k].hash@,
{
    let gv = crate::grouping::group_views(groups@);
    let rv = crate::redis_backend::replies::registry_views(views@);
    let n = crate::redis_backend::scan::paired(groups@.len(), views@.len()) as int;
    let all = crate::redis_backend::matching::credits(gv, rv, n);
    let bumps = crate::redis_backend::hits::bump_views(r@);
    let places = lemma_places_of_credits(gv, rv, n);
    assert(gv[g] == (groups@[g].0@, crate::grouping::value_views(groups@[g].1@)));
    assert(rv[g] == views@[g]@);
    assert(gv[g].1[k] == groups@[g].1@[k]@);
    assert(places.contains((g, k)));
    let p = choose|p: int| 0 <= p < places.len() && places[p] == (g, k);
    let hash = groups@[g].1@[k].hash@;
    assert(crate::grouping::keys(all)[p] == hash);
    let order = crate::text::distinct(crate::grouping::keys(all));
    crate::text::distinct_keeps_each_text_once(crate::grouping::keys(all));
    assert(order.contains(hash));
    let b = choose|b: int| 0 <= b < order.len() && order[b] == hash;
    assert(bumps.len() == r@.len());
    assert(crate::grouping::grouped(all)[b].0 == order[b]);
    assert(bumps[b] == r@[b]@);
    b
}

/// Hits are recorded only for a query that asks for it.
pub proof fn hits_are_recorded_only_where_asked(
    request: MatchExternalKvRequest,
    groups: Vec<(String, Vec<Sighting>)>,
    views: Vec<WorkerView>,
    r: Vec<HitBump>,
    all: Vec<HitBump>,
)
    requires
        call_ensures(hits_to_record, (&request, &groups, &views), r),
        call_ensures(match_hits, (&groups, &views), all),
    ensures
        !request.count_as_hit ==> r@.len() == 0,
        request.count_as_hit ==> r@.len() == all@.len() && forall|b: int|
            0 <= b < r@.len() ==> (#[trigger] r@[b])@ == all@[b]@,
{
    assert(crate::redis_backend::hits::bump_views(r@).len() == r@.len());
    assert(crate::redis_backend::hits::bump_views(all@).len() == all@.len());
    if request.count_as_hit {
        assert forall|b: int| 0 <= b < r@.len() implies (#[trigger] r@[b])@ == all@[b]@ by {
            assert(crate::redis_backend::hits::bump_views(r@)[b] == r@[b]@);
            assert(crate::redis_backend::hits::bump_views(all@)[b] == all@[b]@);
        }
    }
}

} // verus!
