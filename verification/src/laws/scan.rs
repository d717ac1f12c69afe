//! What a prefix scan answers.

use vstd::prelude::*;

use crate::laws::order::ascends;
use crate::laws::ranking::comes_before;
use crate::pb::{MatchExternalKvPrefixRequest, MatchExternalKvPrefixResponse, PrefixMatchView};
use crate::ranking::TieBreak;
use crate::redis_backend::agreement::{scanned_answer, Registry, Store};
use crate::redis_backend::hits::HitBump;
use crate::redis_backend::replies::{OwnerView, PlacementOwner, RegistryView, WorkerView};
use crate::redis_backend::scan::{
    begin_scan, owner_workers, CandidateView, Concluded, PrefixScan, ScanStart, ScanView,
};
use crate::status::RpcStatus;

verus! {

/// A tier of a mask, by its bit.
proof fn lemma_tiers(mask: i64, tier: i32)
    ensures
        crate::redis_backend::codec::tiers_of(mask).contains(tier) <==> ((tier == 1 && mask & 2
            != 0) || (tier == 2 && mask & 4 != 0) || (tier == 3 && mask & 8 != 0)),
        forall|a: int, b: int|
            0 <= a < b < crate::redis_backend::codec::tiers_of(mask).len()
                ==> #[trigger] crate::redis_backend::codec::tiers_of(mask)[a]
                < #[trigger] crate::redis_backend::codec::tiers_of(mask)[b],
{
    crate::redis_backend::codec::tiers_of_lists_each_tier_once(mask);
}

/// The entry of a worker in a placement.
proof fn lemma_holds(row: Seq<OwnerView>, worker: Seq<char>, generation: i64)
    requires
        crate::redis_backend::agreement::names_workers_once(row),
    ensures
        crate::redis_backend::scan::holds(row, worker, generation) <==> exists|e: int|
            0 <= e < row.len() && (#[trigger] row[e]).worker == worker && row[e].generation
                == generation,
        forall|e: int|
            0 <= e < row.len() && (#[trigger] row[e]).worker == worker
                ==> crate::redis_backend::scan::owner_entry(row, worker) == Some(row[e]),
{
    assert forall|e: int| 0 <= e < row.len() && (#[trigger] row[e]).worker == worker implies
        crate::redis_backend::scan::owner_entry(row, worker) == Some(row[e]) by {
        crate::redis_backend::agreement::lemma_entry_of_worker(row, e);
    }
    if crate::redis_backend::scan::holds(row, worker, generation) {
        let e = crate::redis_backend::agreement::lemma_entry_is_listed(row, worker);
        assert(row[e].worker == worker && row[e].generation == generation);
    }
}

/// The matches of a scan before they are ranked, one for each candidate.
spec fn found(asked: Seq<Seq<char>>, store: Store, known: Registry) -> Seq<PrefixMatchView> {
    let owners = store(asked[0]);
    crate::redis_backend::scan_laws::all_ran(
        crate::redis_backend::agreement::first_candidates(owners, known, owners.len() as int),
        crate::redis_backend::agreement::rows_for(asked.drop_first(), store),
    ).map_values(|c: CandidateView| crate::redis_backend::scan::match_of(c))
}

/// A scan answers with the matches that it found.
proof fn lemma_answer(
    hashes: Seq<Seq<char>>,
    required: Option<Seq<char>>,
    max_blocks: u32,
    top_k: u32,
    store: Store,
    registry: Registry,
)
    requires
        hashes.len() > 0,
        crate::redis_backend::agreement::store_names_workers_once(store),
    ensures
        ({
            let asked = crate::redis_backend::agreement::readable(hashes, max_blocks);
            let known = crate::redis_backend::agreement::comparable(registry, required);
            let all = found(asked, store, known);
            let answer = scanned_answer(hashes, required, max_blocks, top_k, store, registry);
            &&& 0 < asked.len() <= 2048
            &&& asked[0] == hashes[0]
            &&& answer.matches == crate::ranking::top(
                crate::ranking::ranked(TieBreak::WorkerId, all),
                top_k,
            )
            &&& answer.best_prefix_blocks == crate::ranking::longest(
                crate::ranking::ranked(TieBreak::WorkerId, all),
            )
            &&& crate::ranking::workers_differ(all)
        }),
{
    let asked = crate::redis_backend::agreement::readable(hashes, max_blocks);
    let known = crate::redis_backend::agreement::comparable(registry, required);
    crate::redis_backend::agreement::lemma_limits_narrow_the_request(
        hashes,
        required,
        max_blocks,
        store,
        registry,
    );
    crate::redis_backend::agreement::lemma_start_is_valid(asked, store, known);
    assert(crate::redis_backend::agreement::readable(asked, 0) =~= asked);
    let owners = store(asked[0]);
    let start = crate::redis_backend::scan::started(
        owners,
        owners.map_values(|o: OwnerView| known(o.worker)),
        None,
        asked.len(),
        0,
    );
    let rows = crate::redis_backend::agreement::rows_for(asked.drop_first(), store);
    crate::redis_backend::scan_laws::scan_answers_with_every_run(start, rows, top_k);
    let all = found(asked, store, known);
    assert forall|i: int, j: int| 0 <= i < j < all.len() implies (#[trigger] all[i]).worker_id != (
    #[trigger] all[j]).worker_id by {
        crate::redis_backend::scan_laws::candidate_gains_its_leading_run(start.extending[i], rows);
        crate::redis_backend::scan_laws::candidate_gains_its_leading_run(start.extending[j], rows);
        assert(start.extending[i].worker != start.extending[j].worker);
    }
}

/// What is found of a candidate.
proof fn lemma_found(asked: Seq<Seq<char>>, store: Store, known: Registry, i: int, tier: i32)
    requires
        0 < asked.len() <= 2048,
        crate::redis_backend::agreement::store_names_workers_once(store),
        0 <= i < found(asked, store, known).len(),
    ensures
        ({
            let m = found(asked, store, known)[i];
            let entry = known(m.worker_id);
            &&& entry.alive
            &&& entry.address.len() > 0
            &&& m.address == entry.address
            &&& m.dp_rank == entry.dp_rank
            &&& 1 <= m.matched_prefix_blocks <= asked.len()
            &&& forall|j: int|
                0 <= j < m.matched_prefix_blocks ==> crate::redis_backend::scan::holds(
                    store(#[trigger] asked[j]),
                    m.worker_id,
                    entry.generation,
                )
            &&& m.matched_prefix_blocks < asked.len() ==> !crate::redis_backend::scan::holds(
                store(asked[m.matched_prefix_blocks as int]),
                m.worker_id,
                entry.generation,
            )
            &&& m.tiers.contains(tier) <==> exists|j: int|
                0 <= j < m.matched_prefix_blocks && crate::redis_backend::codec::placed_at(
                    crate::redis_backend::scan::owner_entry(
                        store(#[trigger] asked[j]),
                        m.worker_id,
                    )->0.mask,
                    tier,
                )
            &&& forall|a: int, b: int|
                0 <= a < b < m.tiers.len() ==> #[trigger] m.tiers[a] < #[trigger] m.tiers[b]
        }),
{
    let owners = store(asked[0]);
    let first = crate::redis_backend::agreement::first_candidates(
        owners,
        known,
        owners.len() as int,
    );
    let rest = asked.drop_first();
    let rows = crate::redis_backend::agreement::rows_for(rest, store);
    let c = first[i];
    let m = found(asked, store, known)[i];
    let end = crate::redis_backend::scan_laws::ran(c, rows);
    let o = crate::redis_backend::agreement::lemma_candidate_origin(
        owners,
        known,
        owners.len() as int,
        i,
    );
    assert(m == crate::redis_backend::scan::match_of(end));
    crate::redis_backend::scan_laws::candidate_gains_its_leading_run(c, rows);
    crate::redis_backend::scan_laws::run_stops_at_the_first_gap(rows, c.worker, c.generation);
    crate::redis_backend::scan_laws::reported_tiers_are_those_of_the_prefix(c, rows, tier);
    lemma_tiers(end.mask, tier);
    assert(crate::redis_backend::agreement::names_workers_once(owners));
    lemma_holds(owners, c.worker, c.generation);
    assert(owners[o].worker == c.worker);
    assert(crate::redis_backend::scan::owner_entry(owners, c.worker) == Some(owners[o]));
    let n = crate::redis_backend::scan_laws::run_length(rows, c.worker, c.generation) as int;
    assert forall|j: int| 0 <= j < m.matched_prefix_blocks implies crate::redis_backend::scan::holds(
        store(#[trigger] asked[j]),
        m.worker_id,
        c.generation,
    ) by {
        if j > 0 {
            assert(rows[j - 1] == store(rest[j - 1]));
            assert(rest[j - 1] == asked[j]);
        }
    }
    if m.matched_prefix_blocks < asked.len() {
        assert(rows[n] == store(rest[n]));
        assert(rest[n] == asked[n + 1]);
    }
    if exists|j: int|
        0 <= j < m.matched_prefix_blocks && crate::redis_backend::codec::placed_at(
            crate::redis_backend::scan::owner_entry(
                store(#[trigger] asked[j]),
                m.worker_id,
            )->0.mask,
            tier,
        ) {
        let j = choose|j: int|
            0 <= j < m.matched_prefix_blocks && crate::redis_backend::codec::placed_at(
                crate::redis_backend::scan::owner_entry(
                    store(#[trigger] asked[j]),
                    m.worker_id,
                )->0.mask,
                tier,
            );
        if j > 0 {
            assert(rows[j - 1] == store(rest[j - 1]));
            assert(rest[j - 1] == asked[j]);
        }
    }
    if m.tiers.contains(tier) {
        if crate::redis_backend::codec::placed_at(c.mask, tier) {
            assert(crate::redis_backend::scan::owner_entry(
                store(asked[0]),
                m.worker_id,
            )->0.mask == c.mask);
        } else {
            let k = choose|k: int|
                0 <= k < n && crate::redis_backend::codec::placed_at(
                    crate::redis_backend::scan::owner_entry(#[trigger] rows[k], c.worker)->0.mask,
                    tier,
                );
            assert(rows[k] == store(rest[k]));
            assert(rest[k] == asked[k + 1]);
        }
    }
}

/// Every match that a scan answers with is true of the registry and of the
/// placements. Its worker is alive, can be routed to, recorded no other hash
/// space than the one asked for, and is listed with the address and the
/// data-parallel rank that the registry records for it. Its prefix covers blocks
/// that are placed on it in its current generation and ends where the first one
/// is not, or where the query or the scan ends. Its tiers are those at which a
/// block of the prefix is placed, in ascending order: HBM by bit 2, DRAM by bit
/// 4, SSD by bit 8.
pub proof fn a_match_says_what_is_recorded(
    hashes: Seq<Seq<char>>,
    required: Option<Seq<char>>,
    max_blocks: u32,
    top_k: u32,
    store: Store,
    registry: Registry,
    i: int,
)
    requires
        hashes.len() > 0,
        forall|h: Seq<char>, a: int, b: int|
            #![trigger store(h)[a], store(h)[b]]
            0 <= a < b < store(h).len() ==> store(h)[a].worker != store(h)[b].worker,
        0 <= i < scanned_answer(
            hashes,
            required,
            max_blocks,
            top_k,
            store,
            registry,
        ).matches.len(),
    ensures
        ({
            let m = scanned_answer(
                hashes,
                required,
                max_blocks,
                top_k,
                store,
                registry,
            ).matches[i];
            let entry = registry(m.worker_id);
            &&& entry.alive
            &&& entry.address.len() > 0
            &&& m.address == entry.address
            &&& m.dp_rank == entry.dp_rank
            &&& (required is Some && entry.spec.len() > 0) ==> entry.spec == required->0
            &&& 1 <= m.matched_prefix_blocks <= hashes.len()
            &&& m.matched_prefix_blocks <= 2048
            &&& max_blocks > 0 ==> m.matched_prefix_blocks <= max_blocks
            &&& forall|j: int|
                #![trigger hashes[j]]
                0 <= j < m.matched_prefix_blocks ==> store(hashes[j]).len() > 0 && exists|e: int|
                    #![trigger store(hashes[j])[e]]
                    0 <= e < store(hashes[j]).len() && store(hashes[j])[e].worker
                        == m.worker_id && store(hashes[j])[e].generation == entry.generation
            &&& forall|e: int|
                #![trigger store(hashes[m.matched_prefix_blocks as int])[e]]
                m.matched_prefix_blocks < hashes.len() && m.matched_prefix_blocks < 2048 && (
                max_blocks == 0 || m.matched_prefix_blocks < max_blocks) && 0 <= e < store(
                    hashes[m.matched_prefix_blocks as int],
                ).len() && store(hashes[m.matched_prefix_blocks as int])[e].worker == m.worker_id
                    ==> store(hashes[m.matched_prefix_blocks as int])[e].generation
                    != entry.generation
            &&& forall|t: i32| #[trigger]
                m.tiers.contains(t) <==> exists|j: int, e: int|
                    #![trigger store(hashes[j])[e]]
                    0 <= j < m.matched_prefix_blocks && 0 <= e < store(hashes[j]).len() && store(
                        hashes[j],
                    )[e].worker == m.worker_id && ((t == 1 && store(hashes[j])[e].mask & 2 != 0)
                        || (t == 2 && store(hashes[j])[e].mask & 4 != 0) || (t == 3 && store(
                        hashes[j],
                    )[e].mask & 8 != 0))
            &&& forall|a: int, b: int|
                0 <= a < b < m.tiers.len() ==> #[trigger] m.tiers[a] < #[trigger] m.tiers[b]
        }),
{
    assert forall|h: Seq<char>|
        crate::redis_backend::agreement::names_workers_once(#[trigger] store(h)) by {}
    let asked = crate::redis_backend::agreement::readable(hashes, max_blocks);
    let known = crate::redis_backend::agreement::comparable(registry, required);
    let all = found(asked, store, known);
    let answer = scanned_answer(hashes, required, max_blocks, top_k, store, registry);
    let m = answer.matches[i];
    lemma_answer(hashes, required, max_blocks, top_k, store, registry);
    let ranked = crate::ranking::ranked(TieBreak::WorkerId, all);
    crate::ranking::ranking_orders_and_keeps_every_match(TieBreak::WorkerId, all);
    let x = lemma_ranked_is_found(all, i);
    assert(m == ranked[i]);
    assert(all[x] == m);
    lemma_found(asked, store, known, x, 1);
    let entry = known(m.worker_id);
    assert(!crate::redis_backend::agreement::differs_in_space(registry(m.worker_id), required));
    assert(entry == registry(m.worker_id));
    let n = m.matched_prefix_blocks as int;
    assert forall|j: int|
        #![trigger hashes[j]]
        0 <= j < n implies store(hashes[j]).len() > 0 && exists|e: int|
        #![trigger store(hashes[j])[e]]
        0 <= e < store(hashes[j]).len() && store(hashes[j])[e].worker == m.worker_id
            && store(hashes[j])[e].generation == entry.generation by {
        assert(asked[j] == hashes[j]);
        assert(crate::redis_backend::agreement::names_workers_once(store(hashes[j])));
        lemma_holds(store(hashes[j]), m.worker_id, entry.generation);
        let e = choose|e: int|
            0 <= e < store(hashes[j]).len() && (#[trigger] store(hashes[j])[e]).worker
                == m.worker_id && store(hashes[j])[e].generation == entry.generation;
        assert(store(hashes[j])[e].worker == m.worker_id);
    }
    assert forall|e: int|
        #![trigger store(hashes[n])[e]]
        n < hashes.len() && n < 2048 && (max_blocks == 0 || n < max_blocks) && 0 <= e < store(
            hashes[n],
        ).len() && store(hashes[n])[e].worker == m.worker_id implies store(hashes[n])[e].generation
        != entry.generation by {
        assert(n < asked.len());
        assert(asked[n] == hashes[n]);
        assert(crate::redis_backend::agreement::names_workers_once(store(hashes[n])));
        lemma_holds(store(hashes[n]), m.worker_id, entry.generation);
    }
    assert forall|t: i32| #[trigger] m.tiers.contains(t) <==> exists|j: int, e: int|
        #![trigger store(hashes[j])[e]]
        0 <= j < n && 0 <= e < store(hashes[j]).len() && store(hashes[j])[e].worker == m.worker_id
            && ((t == 1 && store(hashes[j])[e].mask & 2 != 0) || (t == 2 && store(
            hashes[j],
        )[e].mask & 4 != 0) || (t == 3 && store(hashes[j])[e].mask & 8 != 0)) by {
        lemma_found(asked, store, known, x, t);
        if m.tiers.contains(t) {
            let j = choose|j: int|
                0 <= j < n && crate::redis_backend::codec::placed_at(
                    crate::redis_backend::scan::owner_entry(
                        store(#[trigger] asked[j]),
                        m.worker_id,
                    )->0.mask,
                    t,
                );
            assert(asked[j] == hashes[j]);
            assert(crate::redis_backend::agreement::names_workers_once(store(hashes[j])));
            lemma_holds(store(hashes[j]), m.worker_id, entry.generation);
            let e = choose|e: int|
                0 <= e < store(hashes[j]).len() && (#[trigger] store(hashes[j])[e]).worker
                    == m.worker_id && store(hashes[j])[e].generation == entry.generation;
            assert(store(hashes[j])[e].worker == m.worker_id);
        }
        if exists|j: int, e: int|
            #![trigger store(hashes[j])[e]]
            0 <= j < n && 0 <= e < store(hashes[j]).len() && store(hashes[j])[e].worker
                == m.worker_id && ((t == 1 && store(hashes[j])[e].mask & 2 != 0) || (t == 2
                && store(hashes[j])[e].mask & 4 != 0) || (t == 3 && store(hashes[j])[e].mask & 8
                != 0)) {
            let (j, e) = choose|j: int, e: int|
                #![trigger store(hashes[j])[e]]
                0 <= j < n && 0 <= e < store(hashes[j]).len() && store(hashes[j])[e].worker
                    == m.worker_id && ((t == 1 && store(hashes[j])[e].mask & 2 != 0) || (t == 2
                    && store(hashes[j])[e].mask & 4 != 0) || (t == 3 && store(hashes[j])[e].mask & 8
                    != 0));
            assert(asked[j] == hashes[j]);
            assert(crate::redis_backend::agreement::names_workers_once(store(hashes[j])));
            lemma_holds(store(hashes[j]), m.worker_id, entry.generation);
            assert(crate::redis_backend::scan::owner_entry(
                store(asked[j]),
                m.worker_id,
            )->0.mask == store(hashes[j])[e].mask);
        }
    }
}

/// Where a ranked match was found.
proof fn lemma_ranked_is_found(all: Seq<PrefixMatchView>, i: int) -> (x: int)
    requires
        0 <= i < crate::ranking::ranked(TieBreak::WorkerId, all).len(),
    ensures
        0 <= x < all.len(),
        all[x] == crate::ranking::ranked(TieBreak::WorkerId, all)[i],
{
    broadcast use vstd::seq_lib::group_to_multiset_ensures;

    let ranked = crate::ranking::ranked(TieBreak::WorkerId, all);
    crate::ranking::ranking_orders_and_keeps_every_match(TieBreak::WorkerId, all);
    assert(ranked.contains(ranked[i]));
    assert(all.to_multiset().count(ranked[i]) > 0);
    assert(all.contains(ranked[i]));
    choose|x: int| 0 <= x < all.len() && all[x] == ranked[i]
}

/// Every worker that holds the first block in its current generation, is alive,
/// can be routed to and recorded no other hash space than the one asked for is
/// listed by a query without `top_k`.
pub proof fn every_holder_of_the_first_block_is_listed(
    hashes: Seq<Seq<char>>,
    required: Option<Seq<char>>,
    max_blocks: u32,
    store: Store,
    registry: Registry,
    e: int,
) -> (i: int)
    requires
        hashes.len() > 0,
        forall|h: Seq<char>, a: int, b: int|
            #![trigger store(h)[a], store(h)[b]]
            0 <= a < b < store(h).len() ==> store(h)[a].worker != store(h)[b].worker,
        0 <= e < store(hashes[0]).len(),
        store(hashes[0])[e].generation == registry(store(hashes[0])[e].worker).generation,
        registry(store(hashes[0])[e].worker).alive,
        registry(store(hashes[0])[e].worker).address.len() > 0,
        required is None || registry(store(hashes[0])[e].worker).spec.len() == 0 || registry(
            store(hashes[0])[e].worker,
        ).spec == required->0,
    ensures
        0 <= i < scanned_answer(hashes, required, max_blocks, 0, store, registry).matches.len(),
        scanned_answer(hashes, required, max_blocks, 0, store, registry).matches[i].worker_id
            == store(hashes[0])[e].worker,
{
    assert forall|h: Seq<char>|
        crate::redis_backend::agreement::names_workers_once(#[trigger] store(h)) by {}
    let asked = crate::redis_backend::agreement::readable(hashes, max_blocks);
    let known = crate::redis_backend::agreement::comparable(registry, required);
    let w = store(hashes[0])[e].worker;
    lemma_answer(hashes, required, max_blocks, 0, store, registry);
    crate::redis_backend::agreement::scan_lists_what_is_due(
        hashes,
        required,
        max_blocks,
        store,
        registry,
    );
    assert(crate::redis_backend::agreement::names_workers_once(store(hashes[0])));
    assert(known(w) == registry(w));
    lemma_holds(store(hashes[0]), w, registry(w).generation);
    let rows = crate::redis_backend::agreement::rows_for(asked, store);
    assert(rows[0] == store(hashes[0]));
    assert(crate::redis_backend::scan_laws::run_length(rows, w, known(w).generation) > 0);
    assert(crate::redis_backend::agreement::is_due(asked, store, known, w));
    let matches = scanned_answer(hashes, required, max_blocks, 0, store, registry).matches;
    choose|i: int| 0 <= i < matches.len() && (#[trigger] matches[i]).worker_id == w
}

/// A scan lists the longest prefix first and equally long ones by worker id, no
/// worker twice. With `top_k` it lists the first so many of what it lists
/// without, and the best prefix is the longest of all in either case.
pub proof fn a_scan_lists_the_longest_first(
    hashes: Seq<Seq<char>>,
    required: Option<Seq<char>>,
    max_blocks: u32,
    top_k: u32,
    store: Store,
    registry: Registry,
)
    requires
        hashes.len() > 0,
        forall|h: Seq<char>, a: int, b: int|
            #![trigger store(h)[a], store(h)[b]]
            0 <= a < b < store(h).len() ==> store(h)[a].worker != store(h)[b].worker,
    ensures
        ({
            let all = scanned_answer(hashes, required, max_blocks, 0, store, registry);
            let cut = scanned_answer(hashes, required, max_blocks, top_k, store, registry);
            &&& forall|i: int, j: int|
                0 <= i < j < all.matches.len() ==> (
                #[trigger] all.matches[i]).matched_prefix_blocks > (
                #[trigger] all.matches[j]).matched_prefix_blocks || (
                all.matches[i].matched_prefix_blocks == all.matches[j].matched_prefix_blocks
                    && comes_before(all.matches[i].worker_id, all.matches[j].worker_id))
            &&& forall|i: int, j: int|
                0 <= i < j < all.matches.len() ==> (#[trigger] all.matches[i]).worker_id != (
                #[trigger] all.matches[j]).worker_id
            &&& (top_k == 0 || top_k >= all.matches.len()) ==> cut.matches == all.matches
            &&& 0 < top_k < all.matches.len() ==> cut.matches == all.matches.take(top_k as int)
            &&& all.matches.len() > 0 ==> cut.best_prefix_blocks
                == all.matches[0].matched_prefix_blocks
            &&& all.matches.len() == 0 ==> cut.best_prefix_blocks == 0
            &&& cut.queried_blocks == all.queried_blocks
            &&& cut.spec_mismatched_workers == all.spec_mismatched_workers
        }),
{
    assert forall|h: Seq<char>|
        crate::redis_backend::agreement::names_workers_once(#[trigger] store(h)) by {}
    let asked = crate::redis_backend::agreement::readable(hashes, max_blocks);
    let known = crate::redis_backend::agreement::comparable(registry, required);
    let whole = found(asked, store, known);
    lemma_answer(hashes, required, max_blocks, 0, store, registry);
    lemma_answer(hashes, required, max_blocks, top_k, store, registry);
    crate::ranking::ranking_orders_and_keeps_every_match(TieBreak::WorkerId, whole);
    let all = scanned_answer(hashes, required, max_blocks, 0, store, registry);
    crate::redis_backend::agreement::scan_lists_what_is_due(
        hashes,
        required,
        max_blocks,
        store,
        registry,
    );
    assert forall|i: int, j: int| 0 <= i < j < all.matches.len() implies (
    #[trigger] all.matches[i]).matched_prefix_blocks > (
    #[trigger] all.matches[j]).matched_prefix_blocks || (all.matches[i].matched_prefix_blocks
        == all.matches[j].matched_prefix_blocks && comes_before(
        all.matches[i].worker_id,
        all.matches[j].worker_id,
    )) by {
        assert(crate::ranking::may_precede(TieBreak::WorkerId, all.matches[i], all.matches[j]));
        if all.matches[i].matched_prefix_blocks == all.matches[j].matched_prefix_blocks {
            crate::laws::ranking::lemma_text_order(
                all.matches[i].worker_id,
                all.matches[j].worker_id,
            );
        }
    }
}

/// A scan reads no block twice, none beyond its limits, and about twice what the
/// longest prefix warrants at most.
pub proof fn a_scan_reads_what_the_prefix_warrants(
    hashes: Seq<Seq<char>>,
    required: Option<Seq<char>>,
    max_blocks: u32,
    top_k: u32,
    store: Store,
    registry: Registry,
)
    requires
        hashes.len() > 0,
        forall|h: Seq<char>, a: int, b: int|
            #![trigger store(h)[a], store(h)[b]]
            0 <= a < b < store(h).len() ==> store(h)[a].worker != store(h)[b].worker,
    ensures
        ({
            let answer = scanned_answer(hashes, required, max_blocks, top_k, store, registry);
            &&& 1 <= answer.queried_blocks <= hashes.len()
            &&& answer.queried_blocks <= 2048
            &&& max_blocks > 0 ==> answer.queried_blocks <= max_blocks
            &&& answer.best_prefix_blocks <= answer.queried_blocks
            &&& answer.queried_blocks <= 2 * answer.best_prefix_blocks + 31
        }),
{
    assert forall|h: Seq<char>|
        crate::redis_backend::agreement::names_workers_once(#[trigger] store(h)) by {}
    let asked = crate::redis_backend::agreement::readable(hashes, max_blocks);
    let known = crate::redis_backend::agreement::comparable(registry, required);
    let owners = store(asked[0]);
    let end = crate::redis_backend::agreement::finished_scan(
        hashes,
        required,
        max_blocks,
        store,
        registry,
    );
    crate::redis_backend::agreement::lemma_limits_narrow_the_request(
        hashes,
        required,
        max_blocks,
        store,
        registry,
    );
    crate::redis_backend::agreement::lemma_start_is_valid(asked, store, known);
    assert(crate::redis_backend::agreement::readable(asked, 0) =~= asked);
    let start = crate::redis_backend::scan::started(
        owners,
        owners.map_values(|o: OwnerView| known(o.worker)),
        None,
        asked.len(),
        0,
    );
    let rows = crate::redis_backend::agreement::rows_for(asked.drop_first(), store);
    crate::redis_backend::scan_laws::scan_reads_no_more_than_the_prefix_warrants(start, rows);
    crate::redis_backend::scan_laws::scan_is_one_walk(start, rows);
    let settled = crate::redis_backend::scan::settled(end);
    let matches = settled.map_values(|c: CandidateView| crate::redis_backend::scan::match_of(c));
    let ranked = crate::ranking::ranked(TieBreak::WorkerId, matches);
    crate::ranking::ranking_orders_and_keeps_every_match(TieBreak::WorkerId, matches);
    let longest = crate::redis_backend::scan::longest_match(settled);
    assert forall|i: int| 0 <= i < settled.len() implies (#[trigger] settled[i]).matched
        <= end.queried by {
        if i < end.stalled.len() {
            assert(settled[i] == end.stalled[i]);
        } else {
            assert(settled[i] == end.extending[i - end.stalled.len()]);
        }
    }
    if settled.len() > 0 {
        let c = lemma_longest_is_matched(settled);
        assert(matches[c].matched_prefix_blocks == longest);
        crate::ranking::best_prefix_is_the_longest(
            TieBreak::WorkerId,
            matches,
            top_k,
            end.queried as u32,
            end.mismatched,
            c,
        );
        let x = lemma_ranked_is_found(matches, 0);
        assert(settled[x].matched <= end.queried);
    } else {
        assert(ranked.len() == 0);
    }
}

/// Some candidate has the longest prefix.
proof fn lemma_longest_is_matched(s: Seq<CandidateView>) -> (i: int)
    requires
        s.len() > 0,
    ensures
        0 <= i < s.len(),
        s[i].matched == crate::redis_backend::scan::longest_match(s),
    decreases s.len(),
{
    let head = s.drop_last();
    if head.len() == 0 {
        assert(crate::redis_backend::scan::longest_match(head) == 0);
        0
    } else {
        let i = lemma_longest_is_matched(head);
        if s.last().matched > crate::redis_backend::scan::longest_match(head) {
            s.len() - 1
        } else {
            i
        }
    }
}

/// A scan counts the workers that it dropped because they recorded another hash
/// space than the one asked for: those that hold the first block in their current
/// generation, are alive and could be routed to.
pub proof fn a_scan_counts_workers_of_another_space(
    hashes: Seq<Seq<char>>,
    required: Option<Seq<char>>,
    max_blocks: u32,
    top_k: u32,
    store: Store,
    registry: Registry,
)
    requires
        hashes.len() > 0,
        forall|h: Seq<char>, a: int, b: int|
            #![trigger store(h)[a], store(h)[b]]
            0 <= a < b < store(h).len() ==> store(h)[a].worker != store(h)[b].worker,
        store(hashes[0]).len() <= u32::MAX,
    ensures
        scanned_answer(
            hashes,
            required,
            max_blocks,
            top_k,
            store,
            registry,
        ).spec_mismatched_workers == store(hashes[0]).filter(
            |o: OwnerView|
                registry(o.worker).alive && registry(o.worker).address.len() > 0 && o.generation
                    == registry(o.worker).generation && required is Some && registry(
                    o.worker,
                ).spec.len() > 0 && registry(o.worker).spec != required->0,
        ).len(),
{
    assert forall|h: Seq<char>|
        crate::redis_backend::agreement::names_workers_once(#[trigger] store(h)) by {}
    let owners = store(hashes[0]);
    let views = owners.map_values(|o: OwnerView| registry(o.worker));
    let asked = crate::redis_backend::agreement::readable(hashes, max_blocks);
    let known = crate::redis_backend::agreement::comparable(registry, required);
    let start = crate::redis_backend::scan::started(
        owners,
        views,
        required,
        hashes.len(),
        max_blocks,
    );
    let rows = crate::redis_backend::agreement::rows_for(asked.drop_first(), store);
    lemma_mismatches(owners, registry, required, owners.len() as int);
    assert(owners.take(owners.len() as int) =~= owners);
    crate::redis_backend::agreement::lemma_limits_narrow_the_request(
        hashes,
        required,
        max_blocks,
        store,
        registry,
    );
    crate::redis_backend::agreement::lemma_start_is_valid(asked, store, known);
    crate::redis_backend::agreement::lemma_admits_what_is_comparable(
        owners,
        registry,
        required,
        owners.len() as int,
    );
    assert(crate::redis_backend::scan::scan_is_valid(start));
    crate::redis_backend::scan_laws::scan_is_one_walk(start, rows);
}

/// How many workers are of another hash space.
proof fn lemma_mismatches(
    owners: Seq<OwnerView>,
    registry: Registry,
    required: Option<Seq<char>>,
    n: int,
)
    requires
        0 <= n <= owners.len(),
    ensures
        crate::redis_backend::scan::mismatches(
            owners,
            owners.map_values(|o: OwnerView| registry(o.worker)),
            required,
            n,
        ) == owners.take(n).filter(
            |o: OwnerView|
                registry(o.worker).alive && registry(o.worker).address.len() > 0 && o.generation
                    == registry(o.worker).generation && required is Some && registry(
                    o.worker,
                ).spec.len() > 0 && registry(o.worker).spec != required->0,
        ).len(),
        crate::redis_backend::scan::mismatches(
            owners,
            owners.map_values(|o: OwnerView| registry(o.worker)),
            required,
            n,
        ) <= n,
    decreases n,
{
    let other = |o: OwnerView|
        registry(o.worker).alive && registry(o.worker).address.len() > 0 && o.generation
            == registry(o.worker).generation && required is Some && registry(o.worker).spec.len()
            > 0 && registry(o.worker).spec != required->0;
    if n == 0 {
        assert(owners.take(0) =~= Seq::<OwnerView>::empty());
        assert(owners.take(0).filter(other).len() == 0) by {
            reveal(Seq::filter);
        }
    } else {
        lemma_mismatches(owners, registry, required, n - 1);
        assert(owners.take(n) =~= owners.take(n - 1).push(owners[n - 1]));
        owners.take(n - 1).lemma_filter_push(owners[n - 1], other);
    }
}

/// A query without blocks is answered with nothing, and any other one asks for
/// its first block.
pub proof fn a_scan_begins_with_the_first_block(
    request: MatchExternalKvPrefixRequest,
    r: ScanStart,
)
    requires
        call_ensures(begin_scan, (&request,), r),
    ensures
        request.hashes@.len() > 0 ==> r is ReadFirst && r->ReadFirst_0@ == request.hashes@[0]@,
        request.hashes@.len() == 0 ==> r is Answer && r->Answer_0.matches@.len() == 0
            && r->Answer_0.best_prefix_blocks == 0 && r->Answer_0.queried_blocks == 0
            && r->Answer_0.spec_mismatched_workers == 0,
{
    if request.hashes@.len() == 0 {
        assert(r->Answer_0@.matches.len() == r->Answer_0.matches@.len());
    }
}

/// The workers of a placement are listed in order.
pub proof fn workers_of_a_placement_are_listed(
    owners: Vec<PlacementOwner>,
    r: Vec<String>,
    e: int,
)
    requires
        call_ensures(owner_workers, (&owners,), r),
        0 <= e < owners@.len(),
    ensures
        r@.len() == owners@.len(),
        r@[e]@ == owners@[e].worker@,
{
    let views = crate::redis_backend::replies::owner_views(owners@);
    assert(crate::text::texts(r@).len() == r@.len());
    assert(crate::text::texts(r@)[e] == r@[e]@);
    assert(views[e] == owners@[e]@);
}

/// A query ends in the answer of its scan, and a failure to record hits is handed
/// on to be logged, not answered.
pub proof fn a_query_ends_in_its_answer(
    scan: PrefixScan,
    top_k: u32,
    recorded: Result<(), RpcStatus>,
    r: Concluded,
    plain: MatchExternalKvPrefixResponse,
)
    requires
        crate::redis_backend::scan::scan_is_valid(scan@),
        call_ensures(PrefixScan::conclude, (scan, top_k, recorded), r),
        call_ensures(PrefixScan::into_response, (scan, top_k), plain),
    ensures
        r.outcome is Ok,
        r.outcome->Ok_0@ == plain@,
        recorded is Ok ==> r.unrecorded is None,
        recorded is Err ==> r.unrecorded == Some(recorded->Err_0),
{
}

/// What a scan answers is what it holds: each candidate with its worker, address,
/// data-parallel rank, prefix and tiers, and the numbers of what it read and
/// dropped.
pub proof fn an_answer_is_what_the_scan_holds(
    scan: PrefixScan,
    r: MatchExternalKvPrefixResponse,
    i: int,
) -> (c: int)
    requires
        crate::redis_backend::scan::scan_is_valid(scan@),
        call_ensures(PrefixScan::into_response, (scan, 0), r),
        0 <= i < r.matches@.len(),
    ensures
        0 <= c < (scan@.stalled + scan@.extending).len(),
        r.matches@.len() == (scan@.stalled + scan@.extending).len(),
        r.matches@[i].worker_id@ == (scan@.stalled + scan@.extending)[c].worker,
        r.matches@[i].address@ == (scan@.stalled + scan@.extending)[c].address,
        r.matches@[i].dp_rank == (scan@.stalled + scan@.extending)[c].dp_rank,
        r.matches@[i].matched_prefix_blocks == (scan@.stalled + scan@.extending)[c].matched,
        forall|t: i32| #[trigger]
            r.matches@[i].tiers@.contains(t) <==> ((t == 1 && (scan@.stalled
                + scan@.extending)[c].mask & 2 != 0) || (t == 2 && (scan@.stalled
                + scan@.extending)[c].mask & 4 != 0) || (t == 3 && (scan@.stalled
                + scan@.extending)[c].mask & 8 != 0)),
        r.queried_blocks == scan@.queried,
        r.spec_mismatched_workers == scan@.mismatched,
{
    let settled = scan@.stalled + scan@.extending;
    let matches = settled.map_values(|c: CandidateView| crate::redis_backend::scan::match_of(c));
    crate::ranking::ranking_orders_and_keeps_every_match(TieBreak::WorkerId, matches);
    assert(r@.matches.len() == r.matches@.len());
    assert(r@.matches[i] == r.matches@[i]@);
    let c = lemma_ranked_is_found(matches, i);
    assert(matches[c] == crate::redis_backend::scan::match_of(settled[c]));
    if c < scan@.stalled.len() {
        assert(settled[c] == scan@.stalled[c]);
    } else {
        assert(settled[c] == scan@.extending[c - scan@.stalled.len()]);
    }
    assert forall|t: i32| #[trigger] r.matches@[i].tiers@.contains(t) <==> ((t == 1
        && settled[c].mask & 2 != 0) || (t == 2 && settled[c].mask & 4 != 0) || (t == 3
        && settled[c].mask & 8 != 0)) by {
        lemma_tiers(settled[c].mask, t);
    }
    c
}

/// The candidates that can reuse a block.
proof fn lemma_reusing(s: Seq<CandidateView>, index: nat)
    ensures
        crate::redis_backend::scan::reusing(s, index) == s.filter(
            |c: CandidateView| c.matched > index,
        ).map_values(|c: CandidateView| (c.worker, c.generation)),
    decreases s.len(),
{
    let reuses = |c: CandidateView| c.matched > index;
    let named = |c: CandidateView| (c.worker, c.generation);
    if s.len() == 0 {
        assert(s.filter(reuses) =~= Seq::<CandidateView>::empty()) by {
            reveal(Seq::filter);
        }
        assert(s.filter(reuses).map_values(named) =~= Seq::<(Seq<char>, i64)>::empty());
    } else {
        let head = s.drop_last();
        lemma_reusing(head, index);
        assert(s =~= head.push(s.last()));
        head.lemma_filter_push(s.last(), reuses);
        if reuses(s.last()) {
            assert(s.filter(reuses).map_values(named) =~= head.filter(reuses).map_values(
                named,
            ).push(named(s.last())));
        }
    }
}

proof fn lemma_longest_covers(s: Seq<CandidateView>, index: nat)
    ensures
        index < crate::redis_backend::scan::longest_match(s) <==> exists|c: int|
            0 <= c < s.len() && (#[trigger] s[c]).matched > index,
    decreases s.len(),
{
    if s.len() > 0 {
        let head = s.drop_last();
        lemma_longest_covers(head, index);
        if exists|c: int| 0 <= c < head.len() && (#[trigger] head[c]).matched > index {
            let c = choose|c: int| 0 <= c < head.len() && (#[trigger] head[c]).matched > index;
            assert(s[c].matched > index);
        }
        if s.last().matched > index {
            assert(s[s.len() - 1].matched > index);
        }
        if exists|c: int| 0 <= c < s.len() && (#[trigger] s[c]).matched > index {
            let c = choose|c: int| 0 <= c < s.len() && (#[trigger] s[c]).matched > index;
            if c < head.len() {
                assert(head[c].matched > index);
            }
        }
    }
}

/// A counted query records a hit for each of the first 256 blocks that some
/// candidate can reuse, and credits it to exactly the candidates whose prefix
/// covers that block, each with its generation. Any other query records none.
pub proof fn a_counted_query_credits_what_can_be_reused(
    scan: PrefixScan,
    request: MatchExternalKvPrefixRequest,
    r: Vec<HitBump>,
    i: int,
)
    requires
        crate::redis_backend::scan::scan_is_valid(scan@),
        scan@.limit <= request.hashes@.len(),
        call_ensures(PrefixScan::hits_to_record, (&scan, &request), r),
        0 <= i,
    ensures
        !request.count_as_hit ==> r@.len() == 0,
        request.count_as_hit ==> (i < r@.len() <==> i < 256 && exists|c: int|
            0 <= c < (scan@.stalled + scan@.extending).len() && (#[trigger] (scan@.stalled
                + scan@.extending)[c]).matched > i),
        i < r@.len() ==> r@[i].hash@ == request.hashes@[i]@ && r@[i].owners@.map_values(
            |o: (String, i64)| (o.0@, o.1),
        ) == (scan@.stalled + scan@.extending).filter(
            |c: CandidateView| c.matched > i,
        ).map_values(|c: CandidateView| (c.worker, c.generation)),
{
    let settled = scan@.stalled + scan@.extending;
    let bumps = crate::redis_backend::hits::bump_views(r@);
    assert(bumps.len() == r@.len());
    lemma_longest_covers(settled, i as nat);
    if i < r@.len() {
        assert(bumps[i] == r@[i]@);
        lemma_reusing(settled, i as nat);
        assert((|c: CandidateView| c.matched > i as nat) =~= (|c: CandidateView| c.matched > i));
        assert(crate::redis_backend::hits::credited(r@[i].owners@) =~= r@[i].owners@.map_values(
            |o: (String, i64)| (o.0@, o.1),
        ));
    }
}

/// The places of the workers that are admitted.
proof fn lemma_places_of_admitted(
    owners: Seq<OwnerView>,
    views: Seq<RegistryView>,
    required: Option<Seq<char>>,
    n: int,
) -> (at: Seq<int>)
    requires
        0 <= n <= owners.len(),
        n <= views.len(),
    ensures
        ({
            let all = crate::redis_backend::scan::admitted(owners, views, required, n);
            &&& at.len() == all.len()
            &&& forall|k: int|
                0 <= k < at.len() ==> 0 <= #[trigger] at[k] < n
                    && crate::redis_backend::scan::verdict(
                    owners[at[k]],
                    views[at[k]],
                    required,
                ) is Admitted && all[k] == crate::redis_backend::scan::first_candidate(
                    owners[at[k]],
                    views[at[k]],
                )
            &&& ascends(at)
            &&& forall|e: int|
                0 <= e < n && crate::redis_backend::scan::verdict(
                    owners[e],
                    views[e],
                    required,
                ) is Admitted ==> #[trigger] at.contains(e)
        }),
    decreases n,
{
    if n == 0 {
        Seq::empty()
    } else {
        let before = lemma_places_of_admitted(owners, views, required, n - 1);
        let admits = crate::redis_backend::scan::verdict(
            owners[n - 1],
            views[n - 1],
            required,
        ) is Admitted;
        let at = if admits {
            before.push(n - 1)
        } else {
            before
        };
        assert forall|e: int|
            0 <= e < n && crate::redis_backend::scan::verdict(
                owners[e],
                views[e],
                required,
            ) is Admitted implies #[trigger] at.contains(e) by {
            if e < n - 1 {
                assert(before.contains(e));
                let k = choose|k: int| 0 <= k < before.len() && before[k] == e;
                assert(at[k] == e);
            } else {
                assert(at[before.len() as int] == e);
            }
        }
        at
    }
}

/// A scan starts with the workers that hold the first block in their current
/// generation, are alive, can be routed to and recorded no other hash space than
/// the one asked for. Each is followed with the address and the data-parallel rank
/// of its registry entry and with the tiers of its placement, in order. One block
/// has been read then; at most 2048 are, and no more than the query asks for.
///
/// `at` tells which entry of the placement each of them comes from.
pub proof fn a_scan_starts_with_live_holders(
    request: MatchExternalKvPrefixRequest,
    owners: Vec<PlacementOwner>,
    views: Vec<WorkerView>,
    r: PrefixScan,
    required: Option<String>,
) -> (at: Seq<int>)
    requires
        request.hashes@.len() > 0,
        owners@.len() == views@.len(),
        call_ensures(PrefixScan::start, (&request, owners, views), r),
        call_ensures(
            crate::redis_backend::codec::encode_checked_spec,
            (&request.hash_spec,),
            required,
        ),
    ensures
        at.len() == r@.extending.len(),
        ascends(at),
        forall|k: int|
            0 <= k < at.len() ==> 0 <= #[trigger] at[k] < owners@.len()
                && r@.extending[k].worker == owners@[at[k]].worker@ && r@.extending[k].address
                == views@[at[k]].address@ && r@.extending[k].dp_rank == views@[at[k]].dp_rank
                && r@.extending[k].generation == views@[at[k]].generation && r@.extending[k].mask
                == owners@[at[k]].mask && r@.extending[k].matched == 1 && views@[at[k]].alive
                && views@[at[k]].address@.len() > 0 && owners@[at[k]].generation
                == views@[at[k]].generation && (required is None || views@[at[k]].spec@.len() == 0
                || views@[at[k]].spec@ == required->0@),
        forall|e: int|
            0 <= e < owners@.len() && views@[e].alive && views@[e].address@.len() > 0
                && owners@[e].generation == views@[e].generation && (required is None
                || views@[e].spec@.len() == 0 || views@[e].spec@ == required->0@)
                ==> #[trigger] at.contains(e),
        r@.stalled.len() == 0,
        r@.queried == 1,
        r@.limit <= request.hashes@.len(),
        r@.limit <= 2048,
        request.max_blocks > 0 ==> r@.limit <= request.max_blocks,
        r@.limit == request.hashes@.len() || r@.limit == 2048 || (request.max_blocks > 0 && r@.limit
            == request.max_blocks),
{
    let ov = crate::redis_backend::replies::owner_views(owners@);
    let rv = crate::redis_backend::replies::registry_views(views@);
    let needed = crate::redis_backend::codec::checked_spec(
        crate::redis_backend::codec::optional_spec(request.hash_spec),
    );
    let at = lemma_places_of_admitted(ov, rv, needed, ov.len() as int);
    assert forall|k: int| 0 <= k < at.len() implies ov[#[trigger] at[k]] == owners@[at[k]]@
        && rv[at[k]] == views@[at[k]]@ by {}
    assert forall|e: int|
        0 <= e < owners@.len() && views@[e].alive && views@[e].address@.len() > 0
            && owners@[e].generation == views@[e].generation && (required is None
            || views@[e].spec@.len() == 0 || views@[e].spec@
            == required->0@) implies #[trigger] at.contains(e) by {
        assert(ov[e] == owners@[e]@);
        assert(rv[e] == views@[e]@);
    }
    at
}

/// The next window of a scan begins behind what was read and ends after as many
/// blocks as the window holds, or where the scan does. There is none once the scan
/// is at its end or has no candidate left.
pub proof fn a_window_begins_behind_what_was_read(scan: PrefixScan, r: Option<(usize, usize)>)
    requires
        crate::redis_backend::scan::scan_is_valid(scan@),
        call_ensures(PrefixScan::next_window, (&scan,), r),
    ensures
        r is Some <==> scan@.queried < scan@.limit && scan@.extending.len() > 0,
        r is Some ==> (r->0).0 == scan@.queried && (r->0).1 == (if scan@.queried + scan@.chunk
            <= scan@.limit {
            scan@.queried + scan@.chunk
        } else {
            scan@.limit
        }),
{
}

/// A window counts every block that it read, and the next one is twice as wide, up
/// to 256 blocks. How far the scan may read and what it dropped stay as they were.
pub proof fn a_window_counts_what_it_read(v: ScanView, rows: Seq<Seq<OwnerView>>)
    ensures
        ({
            let next = crate::redis_backend::scan::absorbed(v, rows);
            &&& next.queried == v.queried + rows.len()
            &&& 2 * v.chunk <= 256 ==> next.chunk == 2 * v.chunk
            &&& 2 * v.chunk > 256 ==> next.chunk == 256
            &&& next.limit == v.limit
            &&& next.mismatched == v.mismatched
        }),
    decreases rows.len(),
{
    if rows.len() > 0 {
        a_window_counts_what_it_read(v, rows.drop_last());
    }
}

/// A candidate goes on exactly where the next block is placed on its worker in its
/// generation. It then has one more block and the tiers of that one too, and is
/// else what it was. Any other candidate stops as it is.
pub proof fn a_candidate_goes_on_where_the_next_block_is_placed(
    v: ScanView,
    row: Seq<OwnerView>,
    c: int,
    e: int,
)
    requires
        0 <= c < v.extending.len(),
        forall|a: int, b: int|
            0 <= a < b < row.len() ==> (#[trigger] row[a]).worker != (#[trigger] row[b]).worker,
    ensures
        ({
            let next = crate::redis_backend::scan::absorbed(v, seq![row]);
            let before = v.extending[c];
            let placed = exists|e: int|
                0 <= e < row.len() && (#[trigger] row[e]).worker == before.worker
                    && row[e].generation == before.generation;
            &&& !placed ==> next.stalled.contains(before)
            &&& placed && 0 <= e < row.len() && row[e].worker == before.worker
                ==> next.extending.contains(
                CandidateView {
                    worker: before.worker,
                    address: before.address,
                    dp_rank: before.dp_rank,
                    generation: before.generation,
                    mask: before.mask | row[e].mask,
                    matched: before.matched + 1,
                },
            )
            &&& next.stalled.len() + next.extending.len() == v.stalled.len() + v.extending.len()
            &&& next.stalled.take(v.stalled.len() as int) == v.stalled
        }),
{
    let before = v.extending[c];
    let rows = seq![row];
    assert(rows.drop_last() =~= Seq::<Seq<OwnerView>>::empty());
    assert(rows.last() == row);
    assert(crate::redis_backend::scan::walk(v, rows.drop_last()) == v);
    let next = crate::redis_backend::scan::step(v, row);
    assert(crate::redis_backend::scan::walk(v, rows) == next);
    assert(crate::redis_backend::agreement::names_workers_once(row));
    lemma_holds(row, before.worker, before.generation);
    let keep = |x: CandidateView| crate::redis_backend::scan::keeps(x, row);
    let drop = |x: CandidateView| !crate::redis_backend::scan::keeps(x, row);
    lemma_parts(v.extending, keep, drop);
    assert(next.stalled.take(v.stalled.len() as int) =~= v.stalled);
    if crate::redis_backend::scan::keeps(before, row) {
        v.extending.lemma_filter_contains(keep, c);
        let kept = v.extending.filter(keep);
        let k = choose|k: int| 0 <= k < kept.len() && kept[k] == before;
        assert(next.extending[k] == crate::redis_backend::scan::extended(before, row));
    } else {
        v.extending.lemma_filter_contains(drop, c);
        let dropped = v.extending.filter(drop);
        let k = choose|k: int| 0 <= k < dropped.len() && dropped[k] == before;
        assert(next.stalled[v.stalled.len() + k] == before);
    }
}

proof fn lemma_parts(
    s: Seq<CandidateView>,
    keep: spec_fn(CandidateView) -> bool,
    drop: spec_fn(CandidateView) -> bool,
)
    requires
        forall|x: CandidateView| #[trigger] drop(x) == !keep(x),
    ensures
        s.filter(keep).len() + s.filter(drop).len() == s.len(),
    decreases s.len(),
{
    if s.len() == 0 {
        assert(s.filter(keep).len() == 0 && s.filter(drop).len() == 0) by {
            reveal(Seq::filter);
        }
    } else {
        let head = s.drop_last();
        lemma_parts(head, keep, drop);
        assert(s =~= head.push(s.last()));
        head.lemma_filter_push(s.last(), keep);
        head.lemma_filter_push(s.last(), drop);
        assert(drop(s.last()) == !keep(s.last()));
    }
}

} // verus!
