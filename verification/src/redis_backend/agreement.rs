//! The prefix scan answers what the placement match and the prefix rules
//! together define.

use vstd::prelude::*;

use crate::inputs::InputView;
use crate::pb::{
    MatchExternalKvPrefixRequest, NodeMatchView, PrefixMatchView, PrefixResponseView, TierHashesView, TIER_DRAM, TIER_HBM,
    TIER_SSD,
};
use crate::ranking::TieBreak;
use crate::redis_backend::matching::SightingView;
use crate::redis_backend::replies::{OwnerView, RegistryView};
use crate::redis_backend::scan::{CandidateView, Concluded, ScanView, PREFIX_SCAN_MAX_BLOCKS};
use crate::status::RpcStatus;

verus! {

/// The placement of every block.
pub type Store = spec_fn(Seq<char>) -> Seq<OwnerView>;

/// The registry entry of every worker.
pub type Registry = spec_fn(Seq<char>) -> RegistryView;

/// The placements of several blocks.
pub open spec fn rows_for(hashes: Seq<Seq<char>>, store: Store) -> Seq<Seq<OwnerView>> {
    hashes.map_values(|h: Seq<char>| store(h))
}

/// Whether a placement is at a tier that is reported.
pub open spec fn placed_somewhere(mask: i64) -> bool {
    ||| crate::redis_backend::codec::placed_at(mask, TIER_HBM)
    ||| crate::redis_backend::codec::placed_at(mask, TIER_DRAM)
    ||| crate::redis_backend::codec::placed_at(mask, TIER_SSD)
}

/// Whether a worker has one entry in a placement.
pub open spec fn names_workers_once(row: Seq<OwnerView>) -> bool {
    forall|i: int, j: int|
        0 <= i < j < row.len() ==> (#[trigger] row[i]).worker != (#[trigger] row[j]).worker
}

/// Whether a worker has one entry in every placement.
pub open spec fn store_names_workers_once(store: Store) -> bool {
    forall|h: Seq<char>| names_workers_once(#[trigger] store(h))
}

/// Whether a placement is as the store keeps it: a worker has one entry, and an
/// entry has a tier.
pub open spec fn is_sound(row: Seq<OwnerView>) -> bool {
    &&& names_workers_once(row)
    &&& forall|i: int| 0 <= i < row.len() ==> placed_somewhere((#[trigger] row[i]).mask)
}

/// Whether every placement is as the store keeps it.
pub open spec fn store_is_sound(store: Store) -> bool {
    forall|h: Seq<char>| is_sound(#[trigger] store(h))
}

/// What a placement match over the given blocks reports.
pub open spec fn store_match(hashes: Seq<Seq<char>>, store: Store, registry: Registry) -> Seq<
    NodeMatchView,
> {
    let known = crate::text::distinct(hashes);
    let groups = crate::grouping::grouped(
        crate::redis_backend::matching::sightings(
            known,
            rows_for(known, store),
            known.len() as int,
        ),
    );
    crate::redis_backend::matching::nodes(
        groups,
        groups.map_values(|g: (Seq<char>, Seq<SightingView>)| registry(g.0)),
        groups.len() as int,
    )
}

/// What the prefix rules answer from a placement match.
pub open spec fn defined_answer(
    hashes: Seq<Seq<char>>,
    store: Store,
    registry: Registry,
) -> PrefixResponseView {
    crate::inputs::engine_answer(
        store_match(hashes, store, registry).map_values(
            |node: NodeMatchView| crate::inputs::whole_block_input(hashes, node),
        ),
        hashes.len() as u32,
    )
}

/// What the query means, with its limits: the prefix rules over the leading
/// blocks that it asks for, cut to `top_k` workers.
pub open spec fn default_answer(
    hashes: Seq<Seq<char>>,
    max_blocks: u32,
    top_k: u32,
    store: Store,
    registry: Registry,
) -> PrefixResponseView {
    let limit = crate::prefix::considered(hashes.len(), max_blocks);
    crate::inputs::cut(defined_answer(hashes.take(limit as int), store, registry), top_k)
}

/// The blocks that a prefix scan may read.
pub open spec fn readable(hashes: Seq<Seq<char>>, max_blocks: u32) -> Seq<Seq<char>> {
    hashes.take(crate::redis_backend::scan::scan_limit(hashes.len(), max_blocks) as int)
}

/// A prefix scan run to its end.
pub open spec fn finished_scan(
    hashes: Seq<Seq<char>>,
    required: Option<Seq<char>>,
    max_blocks: u32,
    store: Store,
    registry: Registry,
) -> ScanView {
    let owners = store(hashes[0]);
    crate::redis_backend::scan_laws::scanned(
        crate::redis_backend::scan::started(
            owners,
            owners.map_values(|o: OwnerView| registry(o.worker)),
            required,
            hashes.len(),
            max_blocks,
        ),
        rows_for(readable(hashes, max_blocks).drop_first(), store),
    )
}

/// What a prefix scan answers.
pub open spec fn scanned_answer(
    hashes: Seq<Seq<char>>,
    required: Option<Seq<char>>,
    max_blocks: u32,
    top_k: u32,
    store: Store,
    registry: Registry,
) -> PrefixResponseView {
    crate::redis_backend::scan::scan_answer(
        finished_scan(hashes, required, max_blocks, store, registry),
        top_k,
    )
}

/// Whether a worker recorded another hash space than the one asked for.
pub open spec fn differs_in_space(view: RegistryView, required: Option<Seq<char>>) -> bool {
    required is Some && view.spec.len() > 0 && view.spec != required->0
}

/// The registry as a query in a hash space takes it: a worker that recorded
/// another one is no more use than one that is gone.
pub open spec fn comparable(registry: Registry, required: Option<Seq<char>>) -> Registry {
    |w: Seq<char>|
        if differs_in_space(registry(w), required) {
            RegistryView { alive: false, ..registry(w) }
        } else {
            registry(w)
        }
}

/// How many leading blocks are placed on a worker in its current generation.
pub open spec fn serves(
    hashes: Seq<Seq<char>>,
    store: Store,
    registry: Registry,
    worker: Seq<char>,
) -> nat {
    crate::redis_backend::scan_laws::run_length(
        rows_for(hashes, store),
        worker,
        registry(worker).generation,
    )
}

/// Whether a worker is to be reported: it is alive, can be routed to and holds
/// the first block.
pub open spec fn is_due(
    hashes: Seq<Seq<char>>,
    store: Store,
    registry: Registry,
    worker: Seq<char>,
) -> bool {
    &&& registry(worker).alive
    &&& registry(worker).address.len() > 0
    &&& serves(hashes, store, registry, worker) > 0
}

/// Whether a match reports a worker as it should be reported.
pub open spec fn reports_as_due(
    hashes: Seq<Seq<char>>,
    store: Store,
    registry: Registry,
    m: PrefixMatchView,
) -> bool {
    &&& is_due(hashes, store, registry, m.worker_id)
    &&& m.address == registry(m.worker_id).address
    &&& m.matched_prefix_blocks == serves(hashes, store, registry, m.worker_id)
}

/// Whether matches report exactly the workers that are due.
pub open spec fn lists_what_is_due(
    hashes: Seq<Seq<char>>,
    store: Store,
    registry: Registry,
    s: Seq<PrefixMatchView>,
) -> bool {
    &&& forall|i: int|
        0 <= i < s.len() ==> reports_as_due(hashes, store, registry, #[trigger] s[i])
    &&& forall|w: Seq<char>| #[trigger]
        is_due(hashes, store, registry, w) ==> exists|i: int|
            0 <= i < s.len() && (#[trigger] s[i]).worker_id == w
}

pub(crate) proof fn lemma_entry_of_worker(row: Seq<OwnerView>, i: int)
    requires
        0 <= i < row.len(),
        names_workers_once(row),
    ensures
        crate::redis_backend::scan::owner_entry(row, row[i].worker) == Some(row[i]),
    decreases row.len(),
{
    if i < row.len() - 1 {
        assert(row[i].worker != row[row.len() - 1].worker);
        let head = row.drop_last();
        assert forall|a: int, b: int| 0 <= a < b < head.len() implies (#[trigger] head[a]).worker
            != (#[trigger] head[b]).worker by {
            assert(row[a].worker != row[b].worker);
        }
        lemma_entry_of_worker(head, i);
    }
}

pub(crate) proof fn lemma_entry_is_listed(row: Seq<OwnerView>, worker: Seq<char>) -> (i: int)
    requires
        crate::redis_backend::scan::owner_entry(row, worker) is Some,
    ensures
        0 <= i < row.len(),
        row[i].worker == worker,
        crate::redis_backend::scan::owner_entry(row, worker) == Some(row[i]),
    decreases row.len(),
{
    if row.last().worker == worker {
        row.len() - 1
    } else {
        lemma_entry_is_listed(row.drop_last(), worker)
    }
}

proof fn lemma_values_are_the_pairs_of_the_key<V>(s: Seq<(Seq<char>, V)>, key: Seq<char>, v: V)
    ensures
        crate::grouping::values_of(s, key).contains(v) <==> s.contains((key, v)),
    decreases s.len(),
{
    let values = crate::grouping::values_of(s, key);
    if s.len() > 0 {
        let head = s.drop_last();
        let before = crate::grouping::values_of(head, key);
        lemma_values_are_the_pairs_of_the_key(head, key, v);
        if before.contains(v) {
            let k = choose|k: int| 0 <= k < before.len() && before[k] == v;
            assert(values[k] == v);
        }
        if s.contains((key, v)) {
            let k = choose|k: int| 0 <= k < s.len() && s[k] == (key, v);
            if k < head.len() {
                assert(head[k] == (key, v));
            } else {
                assert(values[values.len() - 1] == v);
            }
        }
        if head.contains((key, v)) {
            let k = choose|k: int| 0 <= k < head.len() && head[k] == (key, v);
            assert(s[k] == (key, v));
        }
        if values.contains(v) && !before.contains(v) {
            assert(s[s.len() - 1] == (key, v));
        }
    }
}

/// What is known of a block that was looked up.
proof fn lemma_sightings(
    hashes: Seq<Seq<char>>,
    store: Store,
    n: int,
    worker: Seq<char>,
    s: SightingView,
)
    requires
        0 <= n <= hashes.len(),
        store_is_sound(store),
    ensures
        crate::redis_backend::matching::sightings(hashes, rows_for(hashes, store), n).contains(
            (worker, s),
        ) <==> (exists|i: int| 0 <= i < n && #[trigger] hashes[i] == s.hash)
            && crate::redis_backend::scan::owner_entry(store(s.hash), worker) == Some(
            OwnerView { worker, generation: s.generation, mask: s.mask },
        ),
    decreases n,
{
    if n > 0 {
        let rows = rows_for(hashes, store);
        let before = crate::redis_backend::matching::sightings(hashes, rows, n - 1);
        let h = hashes[n - 1];
        let row = store(h);
        let added = crate::redis_backend::matching::sightings_in(h, row);
        let all = crate::redis_backend::matching::sightings(hashes, rows, n);
        lemma_sightings(hashes, store, n - 1, worker, s);
        assert(rows[n - 1] == row);
        assert(all == before + added);
        assert(is_sound(row));
        let found = crate::redis_backend::scan::owner_entry(store(s.hash), worker) == Some(
            OwnerView { worker, generation: s.generation, mask: s.mask },
        );
        if all.contains((worker, s)) {
            let k = choose|k: int| 0 <= k < all.len() && all[k] == (worker, s);
            if k < before.len() {
                assert(before[k] == (worker, s));
                assert(before.contains((worker, s)));
            } else {
                let j = k - before.len();
                assert(added[j] == (worker, s));
                lemma_entry_of_worker(row, j);
                assert(hashes[n - 1] == s.hash);
            }
        }
        if (exists|i: int| 0 <= i < n && #[trigger] hashes[i] == s.hash) && found {
            let i = choose|i: int| 0 <= i < n && #[trigger] hashes[i] == s.hash;
            if i == n - 1 {
                let j = lemma_entry_is_listed(row, worker);
                assert(added[j] == (worker, s));
                assert(all[before.len() + j] == (worker, s));
            } else {
                assert(before.contains((worker, s)));
                let k = choose|k: int| 0 <= k < before.len() && before[k] == (worker, s);
                assert(all[k] == (worker, s));
            }
        }
    }
}

/// A tier lists exactly the blocks that are placed at it in the given
/// generation.
pub proof fn tier_lists_the_current_blocks(
    s: Seq<SightingView>,
    generation: i64,
    tier: i32,
    hash: Seq<char>,
)
    ensures
        crate::redis_backend::matching::held_at(s, generation, tier).contains(hash) <==> exists|
            i: int,
        |
            0 <= i < s.len() && (#[trigger] s[i]).hash == hash && s[i].generation == generation
                && crate::redis_backend::codec::placed_at(s[i].mask, tier),
    decreases s.len(),
{
    let held = crate::redis_backend::matching::held_at(s, generation, tier);
    if s.len() > 0 {
        let head = s.drop_last();
        let before = crate::redis_backend::matching::held_at(head, generation, tier);
        tier_lists_the_current_blocks(head, generation, tier, hash);
        if before.contains(hash) {
            let k = choose|k: int| 0 <= k < before.len() && before[k] == hash;
            assert(held[k] == hash);
            let i = choose|i: int|
                0 <= i < head.len() && (#[trigger] head[i]).hash == hash && head[i].generation
                    == generation && crate::redis_backend::codec::placed_at(head[i].mask, tier);
            assert(s[i] == head[i]);
        }
        if held.contains(hash) && !before.contains(hash) {
            let k = choose|k: int| 0 <= k < held.len() && held[k] == hash;
            assert(s[s.len() - 1].hash == hash);
        }
        if exists|i: int|
            0 <= i < s.len() && (#[trigger] s[i]).hash == hash && s[i].generation == generation
                && crate::redis_backend::codec::placed_at(s[i].mask, tier) {
            let i = choose|i: int|
                0 <= i < s.len() && (#[trigger] s[i]).hash == hash && s[i].generation == generation
                    && crate::redis_backend::codec::placed_at(s[i].mask, tier);
            if i < head.len() {
                assert(head[i] == s[i]);
            } else {
                assert(held[held.len() - 1] == hash);
            }
        }
    }
}

/// Whether a hash occurs in some list.
spec fn occurs(lists: Seq<TierHashesView>, hash: Seq<char>) -> bool {
    exists|k: int| 0 <= k < lists.len() && (#[trigger] lists[k]).hashes.contains(hash)
}

proof fn lemma_occurrences(lists: Seq<TierHashesView>, hash: Seq<char>)
    ensures
        crate::grouping::values_of(crate::inputs::occurrences(lists), hash).len() > 0 <==> occurs(
            lists,
            hash,
        ),
    decreases lists.len(),
{
    if lists.len() > 0 {
        let head = lists.drop_last();
        let last = lists.last();
        let added = last.hashes.map_values(|h: Seq<char>| (h, last.tier));
        lemma_occurrences(head, hash);
        lemma_values_of_concatenation(crate::inputs::occurrences(head), added, hash);
        lemma_values_of_one_list(last.hashes, last.tier, hash);
        if occurs(head, hash) {
            let k = choose|k: int|
                0 <= k < head.len() && (#[trigger] head[k]).hashes.contains(hash);
            assert(lists[k].hashes.contains(hash));
        }
        if last.hashes.contains(hash) {
            assert(lists[lists.len() - 1].hashes.contains(hash));
        }
        if occurs(lists, hash) {
            let k = choose|k: int|
                0 <= k < lists.len() && (#[trigger] lists[k]).hashes.contains(hash);
            if k < head.len() {
                assert(head[k].hashes.contains(hash));
            }
        }
    }
}

proof fn lemma_values_of_concatenation<V>(
    a: Seq<(Seq<char>, V)>,
    b: Seq<(Seq<char>, V)>,
    key: Seq<char>,
)
    ensures
        crate::grouping::values_of(a + b, key) =~= crate::grouping::values_of(a, key)
            + crate::grouping::values_of(b, key),
    decreases b.len(),
{
    if b.len() == 0 {
        assert(a + b =~= a);
    } else {
        assert((a + b).drop_last() =~= a + b.drop_last());
        lemma_values_of_concatenation(a, b.drop_last(), key);
    }
}

proof fn lemma_values_of_one_list(hashes: Seq<Seq<char>>, tier: i32, hash: Seq<char>)
    ensures
        crate::grouping::values_of(
            hashes.map_values(|h: Seq<char>| (h, tier)),
            hash,
        ).len() > 0 <==> hashes.contains(hash),
    decreases hashes.len(),
{
    let pair = |h: Seq<char>| (h, tier);
    if hashes.len() > 0 {
        let head = hashes.drop_last();
        lemma_values_of_one_list(head, tier, hash);
        assert(hashes.map_values(pair).drop_last() =~= head.map_values(pair));
        if head.contains(hash) {
            let k = choose|k: int| 0 <= k < head.len() && head[k] == hash;
            assert(hashes[k] == hash);
        }
        if hashes.contains(hash) {
            let k = choose|k: int| 0 <= k < hashes.len() && hashes[k] == hash;
            if k < head.len() {
                assert(head[k] == hash);
            }
        }
    }
}

/// A block is held in the sense of the rules exactly where the store places it
/// on the worker in its current generation.
proof fn lemma_block_is_held(
    hashes: Seq<Seq<char>>,
    store: Store,
    worker: Seq<char>,
    generation: i64,
    hash: Seq<char>,
)
    requires
        store_is_sound(store),
        hashes.contains(hash),
    ensures
        ({
            let known = crate::text::distinct(hashes);
            let seen = crate::redis_backend::matching::sightings(
                known,
                rows_for(known, store),
                known.len() as int,
            );
            let lists = crate::redis_backend::matching::tier_lists(
                crate::grouping::values_of(seen, worker),
                generation,
            );
            crate::inputs::whole_block(lists, hash) is Some <==> crate::redis_backend::scan::holds(
                store(hash),
                worker,
                generation,
            )
        }),
{
    let known = crate::text::distinct(hashes);
    crate::text::distinct_keeps_each_text_once(hashes);
    assert(known.contains(hash));
    let at = choose|i: int| 0 <= i < known.len() && known[i] == hash;
    let seen = crate::redis_backend::matching::sightings(
        known,
        rows_for(known, store),
        known.len() as int,
    );
    let values = crate::grouping::values_of(seen, worker);
    let lists = crate::redis_backend::matching::tier_lists(values, generation);
    lemma_occurrences(lists, hash);
    tier_lists_the_current_blocks(values, generation, TIER_HBM, hash);
    tier_lists_the_current_blocks(values, generation, TIER_DRAM, hash);
    tier_lists_the_current_blocks(values, generation, TIER_SSD, hash);
    let row = store(hash);
    assert(is_sound(row));
    if occurs(lists, hash) {
        let k = choose|k: int| 0 <= k < lists.len() && (#[trigger] lists[k]).hashes.contains(hash);
        let tier = lists[k].tier;
        assert(lists[k].hashes == crate::redis_backend::matching::held_at(
            values,
            generation,
            tier,
        ) && (tier == TIER_HBM || tier == TIER_DRAM || tier == TIER_SSD));
        let i = choose|i: int|
            0 <= i < values.len() && (#[trigger] values[i]).hash == hash && values[i].generation
                == generation && crate::redis_backend::codec::placed_at(values[i].mask, tier);
        assert(values.contains(values[i]));
        lemma_values_are_the_pairs_of_the_key(seen, worker, values[i]);
        lemma_sightings(known, store, known.len() as int, worker, values[i]);
    }
    if crate::redis_backend::scan::holds(row, worker, generation) {
        let j = lemma_entry_is_listed(row, worker);
        let s = SightingView { hash, generation, mask: row[j].mask };
        assert(known[at] == s.hash);
        assert(row[j] == (OwnerView { worker, generation, mask: row[j].mask }));
        lemma_sightings(known, store, known.len() as int, worker, s);
        lemma_values_are_the_pairs_of_the_key(seen, worker, s);
        assert(values.contains(s));
        let i = choose|i: int| 0 <= i < values.len() && values[i] == s;
        assert(placed_somewhere(row[j].mask));
        let tier = if crate::redis_backend::codec::placed_at(row[j].mask, TIER_HBM) {
            TIER_HBM
        } else if crate::redis_backend::codec::placed_at(row[j].mask, TIER_DRAM) {
            TIER_DRAM
        } else {
            TIER_SSD
        };
        assert(values[i].hash == hash && values[i].generation == generation
            && crate::redis_backend::codec::placed_at(values[i].mask, tier));
        let held = crate::redis_backend::matching::held_at(values, generation, tier);
        assert(held.contains(hash));
        let hbm = crate::redis_backend::matching::listed(values, generation, TIER_HBM);
        let dram = crate::redis_backend::matching::listed(values, generation, TIER_DRAM);
        let ssd = crate::redis_backend::matching::listed(values, generation, TIER_SSD);
        assert(lists == hbm + dram + ssd);
        let k = if tier == TIER_HBM {
            0
        } else if tier == TIER_DRAM {
            hbm.len() as int
        } else {
            (hbm.len() + dram.len()) as int
        };
        assert(lists[k].hashes == held);
        assert(lists[k].hashes.contains(hash));
    }
}

proof fn lemma_leading_blocks(
    hashes: Seq<Seq<char>>,
    lists: Seq<TierHashesView>,
    store: Store,
    worker: Seq<char>,
    generation: i64,
)
    requires
        forall|h: Seq<char>| #[trigger]
            hashes.contains(h) ==> (crate::inputs::whole_block(lists, h) is Some
                <==> crate::redis_backend::scan::holds(store(h), worker, generation)),
    ensures
        crate::prefix::leading_held(
            hashes.map_values(|h: Seq<char>| crate::inputs::whole_block(lists, h)),
        ) == crate::redis_backend::scan_laws::run_length(
            rows_for(hashes, store),
            worker,
            generation,
        ),
    decreases hashes.len(),
{
    let block = |h: Seq<char>| crate::inputs::whole_block(lists, h);
    if hashes.len() > 0 {
        let rest = hashes.drop_first();
        assert(hashes.contains(hashes[0]));
        assert forall|h: Seq<char>| #[trigger] rest.contains(h) implies hashes.contains(h) by {
            let k = choose|k: int| 0 <= k < rest.len() && rest[k] == h;
            assert(hashes[k + 1] == h);
        }
        lemma_leading_blocks(rest, lists, store, worker, generation);
        assert(hashes.map_values(block).skip(1) =~= rest.map_values(block));
        assert(rows_for(hashes, store).drop_first() =~= rows_for(rest, store));
    }
}

proof fn lemma_whole_blocks_carry_no_components(hashes: Seq<Seq<char>>, lists: Seq<TierHashesView>)
    ensures
        !crate::prefix::carries_components(
            hashes.map_values(|h: Seq<char>| crate::inputs::whole_block(lists, h)),
        ),
{
}

proof fn lemma_entries(inputs: Seq<InputView>, e: PrefixMatchView)
    ensures
        crate::inputs::entries_of(inputs).contains(e) <==> exists|i: int|
            0 <= i < inputs.len() && crate::inputs::entry_of(#[trigger] inputs[i]) == Some(e),
    decreases inputs.len(),
{
    let entries = crate::inputs::entries_of(inputs);
    if inputs.len() > 0 {
        let head = inputs.drop_last();
        let before = crate::inputs::entries_of(head);
        lemma_entries(head, e);
        if before.contains(e) {
            let k = choose|k: int| 0 <= k < before.len() && before[k] == e;
            assert(entries[k] == e);
            let i = choose|i: int|
                0 <= i < head.len() && crate::inputs::entry_of(#[trigger] head[i]) == Some(e);
            assert(inputs[i] == head[i]);
        }
        if entries.contains(e) && !before.contains(e) {
            let k = choose|k: int| 0 <= k < entries.len() && entries[k] == e;
            if k < before.len() {
                assert(before[k] == e);
            }
            assert(crate::inputs::entry_of(inputs[inputs.len() - 1]) == Some(e));
        }
        if exists|i: int|
            0 <= i < inputs.len() && crate::inputs::entry_of(#[trigger] inputs[i]) == Some(e) {
            let i = choose|i: int|
                0 <= i < inputs.len() && crate::inputs::entry_of(#[trigger] inputs[i]) == Some(e);
            if i < head.len() {
                assert(head[i] == inputs[i]);
            } else {
                assert(entries[entries.len() - 1] == e);
            }
        }
    }
}

proof fn lemma_nodes(
    groups: Seq<(Seq<char>, Seq<SightingView>)>,
    views: Seq<RegistryView>,
    n: int,
    node: NodeMatchView,
)
    requires
        0 <= n <= groups.len(),
    ensures
        crate::redis_backend::matching::nodes(groups, views, n).contains(node) <==> exists|i: int|
            0 <= i < n && crate::redis_backend::matching::node_of(
                (#[trigger] groups[i]).0,
                groups[i].1,
                views[i],
            ) == Some(node),
    decreases n,
{
    let all = crate::redis_backend::matching::nodes(groups, views, n);
    if n > 0 {
        let before = crate::redis_backend::matching::nodes(groups, views, n - 1);
        lemma_nodes(groups, views, n - 1, node);
        if before.contains(node) {
            let k = choose|k: int| 0 <= k < before.len() && before[k] == node;
            assert(all[k] == node);
        }
        if all.contains(node) && !before.contains(node) {
            let k = choose|k: int| 0 <= k < all.len() && all[k] == node;
            if k < before.len() {
                assert(before[k] == node);
            }
            assert(crate::redis_backend::matching::node_of(
                groups[n - 1].0,
                groups[n - 1].1,
                views[n - 1],
            ) == Some(node));
        }
        if exists|i: int|
            0 <= i < n && crate::redis_backend::matching::node_of(
                (#[trigger] groups[i]).0,
                groups[i].1,
                views[i],
            ) == Some(node) {
            let i = choose|i: int|
                0 <= i < n && crate::redis_backend::matching::node_of(
                    (#[trigger] groups[i]).0,
                    groups[i].1,
                    views[i],
                ) == Some(node);
            if i == n - 1 {
                assert(all[all.len() - 1] == node);
            }
        }
    }
}

/// A placement match reports only workers that are alive, each with its own
/// address and the blocks of its current generation.
pub proof fn reported_worker_is_alive(
    groups: Seq<(Seq<char>, Seq<SightingView>)>,
    views: Seq<RegistryView>,
    n: int,
    i: int,
)
    requires
        0 <= n <= groups.len(),
        0 <= i < crate::redis_backend::matching::nodes(groups, views, n).len(),
    ensures
        ({
            let node = crate::redis_backend::matching::nodes(groups, views, n)[i];
            exists|k: int|
                0 <= k < n && node.worker_id == (#[trigger] groups[k]).0 && views[k].alive
                    && node.address == views[k].address && node.hashes_by_tier
                    == crate::redis_backend::matching::tier_lists(
                    groups[k].1,
                    views[k].generation,
                )
        }),
{
    let all = crate::redis_backend::matching::nodes(groups, views, n);
    assert(all.contains(all[i]));
    lemma_nodes(groups, views, n, all[i]);
}

/// Matches in another order list the same workers.
proof fn lemma_order_does_not_matter(
    hashes: Seq<Seq<char>>,
    store: Store,
    registry: Registry,
    a: Seq<PrefixMatchView>,
    b: Seq<PrefixMatchView>,
)
    requires
        lists_what_is_due(hashes, store, registry, a),
        a.to_multiset() == b.to_multiset(),
    ensures
        lists_what_is_due(hashes, store, registry, b),
{
    broadcast use vstd::seq_lib::group_to_multiset_ensures;

    assert forall|i: int| 0 <= i < b.len() implies reports_as_due(
        hashes,
        store,
        registry,
        #[trigger] b[i],
    ) by {
        assert(b.contains(b[i]));
        assert(a.to_multiset().count(b[i]) > 0);
        assert(a.contains(b[i]));
        let k = choose|k: int| 0 <= k < a.len() && a[k] == b[i];
        assert(reports_as_due(hashes, store, registry, a[k]));
    }
    assert forall|w: Seq<char>| #[trigger] is_due(hashes, store, registry, w) implies exists|i: int|
        0 <= i < b.len() && (#[trigger] b[i]).worker_id == w by {
        let k = choose|k: int| 0 <= k < a.len() && (#[trigger] a[k]).worker_id == w;
        assert(a.contains(a[k]));
        assert(b.to_multiset().count(a[k]) > 0);
        assert(b.contains(a[k]));
        let i = choose|i: int| 0 <= i < b.len() && b[i] == a[k];
        assert(b[i].worker_id == w);
    }
}

/// No worker is reported twice by a placement match.
proof fn lemma_nodes_differ(
    groups: Seq<(Seq<char>, Seq<SightingView>)>,
    views: Seq<RegistryView>,
    n: int,
)
    requires
        0 <= n <= groups.len(),
        forall|i: int, j: int|
            0 <= i < j < groups.len() ==> (#[trigger] groups[i]).0 != (#[trigger] groups[j]).0,
    ensures
        forall|i: int, j: int|
            0 <= i < j < crate::redis_backend::matching::nodes(groups, views, n).len() ==> (
            #[trigger] crate::redis_backend::matching::nodes(groups, views, n)[i]).worker_id != (
            #[trigger] crate::redis_backend::matching::nodes(groups, views, n)[j]).worker_id,
    decreases n,
{
    if n > 0 {
        let all = crate::redis_backend::matching::nodes(groups, views, n);
        let before = crate::redis_backend::matching::nodes(groups, views, n - 1);
        lemma_nodes_differ(groups, views, n - 1);
        assert forall|i: int, j: int| 0 <= i < j < all.len() implies (#[trigger] all[i]).worker_id
            != (#[trigger] all[j]).worker_id by {
            assert(all[i] == before[i]);
            if j < before.len() {
                assert(all[j] == before[j]);
            } else {
                assert(before.contains(before[i]));
                lemma_nodes(groups, views, n - 1, before[i]);
            }
        }
    }
}

/// No worker is listed twice by the rules.
proof fn lemma_entries_differ(inputs: Seq<InputView>)
    requires
        forall|i: int, j: int|
            0 <= i < j < inputs.len() ==> (#[trigger] inputs[i]).worker_id != (
            #[trigger] inputs[j]).worker_id,
    ensures
        crate::ranking::workers_differ(crate::inputs::entries_of(inputs)),
    decreases inputs.len(),
{
    if inputs.len() > 0 {
        let head = inputs.drop_last();
        let all = crate::inputs::entries_of(inputs);
        let before = crate::inputs::entries_of(head);
        assert forall|i: int, j: int| 0 <= i < j < head.len() implies (#[trigger] head[i]).worker_id
            != (#[trigger] head[j]).worker_id by {
            assert(inputs[i].worker_id != inputs[j].worker_id);
        }
        lemma_entries_differ(head);
        assert forall|i: int, j: int| 0 <= i < j < all.len() implies (#[trigger] all[i]).worker_id
            != (#[trigger] all[j]).worker_id by {
            assert(all[i] == before[i]);
            if j < before.len() {
                assert(all[j] == before[j]);
            } else {
                assert(before.contains(before[i]));
                lemma_entries(head, before[i]);
                let k = choose|k: int|
                    0 <= k < head.len() && crate::inputs::entry_of(#[trigger] head[k]) == Some(
                        before[i],
                    );
                assert(inputs[k].worker_id != inputs[inputs.len() - 1].worker_id);
            }
        }
    }
}

/// Ranking lists no worker twice that was not.
proof fn lemma_ranking_keeps_workers_apart(tie: TieBreak, s: Seq<PrefixMatchView>)
    requires
        crate::ranking::workers_differ(s),
    ensures
        crate::ranking::workers_differ(crate::ranking::ranked(tie, s)),
{
    let ranked = crate::ranking::ranked(tie, s);
    let name = |m: PrefixMatchView| m.worker_id;
    let names = s.map_values(name);
    let ranked_names = ranked.map_values(name);
    crate::ranking::ranking_orders_and_keeps_every_match(tie, s);
    crate::redis_backend::scan_laws::lemma_mapping_keeps_multisets(s, ranked, name);
    assert(names.no_duplicates()) by {
        assert forall|i: int, j: int|
            0 <= i < names.len() && 0 <= j < names.len() && i != j implies names[i] != names[j] by {
            if i < j {
                assert(s[i].worker_id != s[j].worker_id);
            } else {
                assert(s[j].worker_id != s[i].worker_id);
            }
        }
    }
    names.lemma_multiset_has_no_duplicates();
    ranked_names.lemma_multiset_has_no_duplicates_conv();
    assert forall|i: int, j: int| 0 <= i < j < ranked.len() implies (#[trigger] ranked[i]).worker_id
        != (#[trigger] ranked[j]).worker_id by {
        assert(ranked_names[i] != ranked_names[j]);
    }
}

/// The rules, applied to a placement match, report exactly the workers that are
/// alive, can be routed to and hold the first block, each with the leading
/// blocks that are placed on it in its current generation.
pub proof fn definition_lists_what_is_due(
    hashes: Seq<Seq<char>>,
    store: Store,
    registry: Registry,
)
    requires
        0 < hashes.len() <= u32::MAX,
        store_is_sound(store),
    ensures
        lists_what_is_due(hashes, store, registry, defined_answer(hashes, store, registry).matches),
        crate::ranking::workers_differ(defined_answer(hashes, store, registry).matches),
{
    let known = crate::text::distinct(hashes);
    let seen = crate::redis_backend::matching::sightings(
        known,
        rows_for(known, store),
        known.len() as int,
    );
    let groups = crate::grouping::grouped(seen);
    let order = crate::text::distinct(crate::grouping::keys(seen));
    let views = groups.map_values(|g: (Seq<char>, Seq<SightingView>)| registry(g.0));
    let matched = store_match(hashes, store, registry);
    let as_input = |node: NodeMatchView| crate::inputs::whole_block_input(hashes, node);
    let inputs = matched.map_values(as_input);
    let entries = crate::inputs::entries_of(inputs);
    assert forall|i: int| 0 <= i < entries.len() implies reports_as_due(
        hashes,
        store,
        registry,
        #[trigger] entries[i],
    ) by {
        let e = entries[i];
        assert(entries.contains(e));
        lemma_entries(inputs, e);
        let k = choose|k: int|
            0 <= k < inputs.len() && crate::inputs::entry_of(#[trigger] inputs[k]) == Some(e);
        let node = matched[k];
        assert(matched.contains(node));
        lemma_nodes(groups, views, groups.len() as int, node);
        let g = choose|g: int|
            0 <= g < groups.len() && crate::redis_backend::matching::node_of(
                (#[trigger] groups[g]).0,
                groups[g].1,
                views[g],
            ) == Some(node);
        assert(groups[g] == (order[g], crate::grouping::values_of(seen, order[g])));
        lemma_worker_prefix(hashes, store, registry, order[g]);
    }
    assert forall|w: Seq<char>| #[trigger] is_due(hashes, store, registry, w) implies exists|i: int|
        0 <= i < entries.len() && (#[trigger] entries[i]).worker_id == w by {
        let generation = registry(w).generation;
        let values = crate::grouping::values_of(seen, w);
        let lists = crate::redis_backend::matching::tier_lists(values, generation);
        lemma_worker_prefix(hashes, store, registry, w);
        assert(rows_for(hashes, store)[0] == store(hashes[0]));
        assert(crate::redis_backend::scan::holds(store(hashes[0]), w, generation));
        assert(hashes.contains(hashes[0]));
        lemma_block_is_held(hashes, store, w, generation, hashes[0]);
        lemma_occurrences(lists, hashes[0]);
        assert(lists.len() > 0);
        assert(values.len() > 0) by {
            if values.len() == 0 {
                tier_lists_the_current_blocks(values, generation, TIER_HBM, hashes[0]);
                assert(crate::redis_backend::matching::held_at(
                    values,
                    generation,
                    TIER_HBM,
                ).len() == 0);
                assert(crate::redis_backend::matching::held_at(
                    values,
                    generation,
                    TIER_DRAM,
                ).len() == 0);
                assert(crate::redis_backend::matching::held_at(
                    values,
                    generation,
                    TIER_SSD,
                ).len() == 0);
            }
        }
        lemma_values_are_the_pairs_of_the_key(seen, w, values[0]);
        assert(values.contains(values[0]));
        let at = choose|at: int| 0 <= at < seen.len() && seen[at] == (w, values[0]);
        assert(crate::grouping::keys(seen)[at] == w);
        assert(crate::grouping::keys(seen).contains(w));
        crate::text::distinct_keeps_each_text_once(crate::grouping::keys(seen));
        assert(order.contains(w));
        let g = choose|g: int| 0 <= g < order.len() && order[g] == w;
        assert(groups[g] == (w, values));
        assert(views[g] == registry(w));
        let node = crate::redis_backend::matching::node_of(w, values, registry(w))->0;
        assert(crate::redis_backend::matching::node_of(groups[g].0, groups[g].1, views[g]) == Some(
            node,
        ));
        lemma_nodes(groups, views, groups.len() as int, node);
        assert(matched.contains(node));
        let k = choose|k: int| 0 <= k < matched.len() && matched[k] == node;
        assert(inputs[k] == crate::inputs::whole_block_input(hashes, node));
        let e = crate::inputs::entry_of(inputs[k])->0;
        assert(crate::inputs::entry_of(inputs[k]) == Some(e));
        lemma_entries(inputs, e);
        assert(entries.contains(e));
        let i = choose|i: int| 0 <= i < entries.len() && entries[i] == e;
        assert(entries[i].worker_id == w);
    }
    crate::ranking::ranking_orders_and_keeps_every_match(TieBreak::Arrival, entries);
    lemma_order_does_not_matter(
        hashes,
        store,
        registry,
        entries,
        crate::ranking::ranked(TieBreak::Arrival, entries),
    );
    crate::text::distinct_keeps_each_text_once(crate::grouping::keys(seen));
    lemma_nodes_differ(groups, views, groups.len() as int);
    lemma_entries_differ(inputs);
    lemma_ranking_keeps_workers_apart(TieBreak::Arrival, entries);
}

/// The rules give a worker the leading blocks that are placed on it.
proof fn lemma_worker_prefix(
    hashes: Seq<Seq<char>>,
    store: Store,
    registry: Registry,
    worker: Seq<char>,
)
    requires
        0 < hashes.len() <= u32::MAX,
        store_is_sound(store),
    ensures
        ({
            let known = crate::text::distinct(hashes);
            let seen = crate::redis_backend::matching::sightings(
                known,
                rows_for(known, store),
                known.len() as int,
            );
            let lists = crate::redis_backend::matching::tier_lists(
                crate::grouping::values_of(seen, worker),
                registry(worker).generation,
            );
            crate::prefix::worker_prefix(
                None,
                hashes.map_values(|h: Seq<char>| crate::inputs::whole_block(lists, h)),
            ) == serves(hashes, store, registry, worker)
        }),
{
    let generation = registry(worker).generation;
    let known = crate::text::distinct(hashes);
    let seen = crate::redis_backend::matching::sightings(
        known,
        rows_for(known, store),
        known.len() as int,
    );
    let lists = crate::redis_backend::matching::tier_lists(
        crate::grouping::values_of(seen, worker),
        generation,
    );
    assert forall|h: Seq<char>| #[trigger] hashes.contains(h) implies (crate::inputs::whole_block(
        lists,
        h,
    ) is Some <==> crate::redis_backend::scan::holds(store(h), worker, generation)) by {
        lemma_block_is_held(hashes, store, worker, generation, h);
    }
    lemma_leading_blocks(hashes, lists, store, worker, generation);
    lemma_whole_blocks_carry_no_components(hashes, lists);
    crate::redis_backend::scan_laws::run_stops_at_the_first_gap(
        rows_for(hashes, store),
        worker,
        generation,
    );
}

/// Whether the worker at `j` is admitted to a scan that checks no hash space.
pub(crate) open spec fn admits(owners: Seq<OwnerView>, registry: Registry, j: int) -> bool {
    &&& 0 <= j < owners.len()
    &&& crate::redis_backend::scan::verdict(
        owners[j],
        registry(owners[j].worker),
        None,
    ) is Admitted
}

/// Whether `c` is the candidate that the worker at `j` starts as.
pub(crate) open spec fn starts_as(
    c: CandidateView,
    owners: Seq<OwnerView>,
    registry: Registry,
    j: int,
) -> bool {
    &&& admits(owners, registry, j)
    &&& c == crate::redis_backend::scan::first_candidate(owners[j], registry(owners[j].worker))
}

/// The candidates of the first `n` workers.
pub(crate) open spec fn first_candidates(owners: Seq<OwnerView>, registry: Registry, n: int) -> Seq<CandidateView> {
    crate::redis_backend::scan::admitted(
        owners,
        owners.map_values(|o: OwnerView| registry(o.worker)),
        None,
        n,
    )
}

/// Whether a worker is among the candidates.
pub(crate) open spec fn is_candidate(s: Seq<CandidateView>, worker: Seq<char>) -> bool {
    exists|i: int| 0 <= i < s.len() && (#[trigger] s[i]).worker == worker
}

/// Each candidate comes from an admitted worker.
pub(crate) proof fn lemma_candidate_origin(
    owners: Seq<OwnerView>,
    registry: Registry,
    n: int,
    i: int,
) -> (j: int)
    requires
        0 <= n <= owners.len(),
        0 <= i < first_candidates(owners, registry, n).len(),
    ensures
        0 <= j < n,
        starts_as(first_candidates(owners, registry, n)[i], owners, registry, j),
    decreases n,
{
    let before = first_candidates(owners, registry, n - 1);
    if i < before.len() {
        lemma_candidate_origin(owners, registry, n - 1, i)
    } else {
        n - 1
    }
}

/// Each admitted worker becomes a candidate.
pub(crate) proof fn lemma_admitted_is_candidate(
    owners: Seq<OwnerView>,
    registry: Registry,
    n: int,
    j: int,
)
    requires
        0 <= j < n <= owners.len(),
        admits(owners, registry, j),
    ensures
        is_candidate(first_candidates(owners, registry, n), owners[j].worker),
    decreases n,
{
    let all = first_candidates(owners, registry, n);
    if j < n - 1 {
        lemma_admitted_is_candidate(owners, registry, n - 1, j);
        let before = first_candidates(owners, registry, n - 1);
        let i = choose|i: int|
            0 <= i < before.len() && (#[trigger] before[i]).worker == owners[j].worker;
        assert(all[i] == before[i]);
    } else {
        assert(all[all.len() - 1].worker == owners[j].worker);
    }
}

/// No worker becomes a candidate twice.
proof fn lemma_candidates_differ(owners: Seq<OwnerView>, registry: Registry, n: int)
    requires
        0 <= n <= owners.len(),
        names_workers_once(owners),
    ensures
        crate::redis_backend::scan_laws::workers_differ(first_candidates(owners, registry, n)),
    decreases n,
{
    if n > 0 {
        let all = first_candidates(owners, registry, n);
        let before = first_candidates(owners, registry, n - 1);
        lemma_candidates_differ(owners, registry, n - 1);
        assert forall|i: int, j: int| 0 <= i < j < all.len() implies (#[trigger] all[i]).worker != (
        #[trigger] all[j]).worker by {
            assert(all[i] == before[i]);
            if j < before.len() {
                assert(before[i].worker != before[j].worker);
            } else {
                let k = lemma_candidate_origin(owners, registry, n - 1, i);
                assert(owners[k].worker != owners[n - 1].worker);
            }
        }
    }
}

/// A scan that checks no hash space starts in order.
pub(crate) proof fn lemma_start_is_valid(hashes: Seq<Seq<char>>, store: Store, registry: Registry)
    requires
        0 < hashes.len() <= PREFIX_SCAN_MAX_BLOCKS,
        store_names_workers_once(store),
    ensures
        ({
            let owners = store(hashes[0]);
            let start = crate::redis_backend::scan::started(
                owners,
                owners.map_values(|o: OwnerView| registry(o.worker)),
                None,
                hashes.len(),
                0,
            );
            &&& crate::redis_backend::scan::scan_is_valid(start)
            &&& start.limit == hashes.len()
            &&& start.extending == first_candidates(owners, registry, owners.len() as int)
            &&& crate::redis_backend::scan_laws::workers_differ(start.extending)
        }),
{
    let owners = store(hashes[0]);
    assert(names_workers_once(owners));
    let first = first_candidates(owners, registry, owners.len() as int);
    lemma_candidates_differ(owners, registry, owners.len() as int);
    assert forall|i: int| 0 <= i < first.len() implies (#[trigger] first[i]).matched == 1 by {
        let j = lemma_candidate_origin(owners, registry, owners.len() as int, i);
    }
}

/// A scan without limits that checks no hash space reports what is due.
proof fn lemma_scan_lists_what_is_due(hashes: Seq<Seq<char>>, store: Store, registry: Registry)
    requires
        0 < hashes.len() <= PREFIX_SCAN_MAX_BLOCKS,
        store_names_workers_once(store),
    ensures
        lists_what_is_due(
            hashes,
            store,
            registry,
            scanned_answer(hashes, None, 0, 0, store, registry).matches,
        ),
        crate::ranking::workers_differ(
            scanned_answer(hashes, None, 0, 0, store, registry).matches,
        ),
{
    assert(readable(hashes, 0) =~= hashes);
    let owners = store(hashes[0]);
    let views = owners.map_values(|o: OwnerView| registry(o.worker));
    let start = crate::redis_backend::scan::started(owners, views, None, hashes.len(), 0);
    let rows = rows_for(hashes.drop_first(), store);
    let all_rows = rows_for(hashes, store);
    let model = |c: CandidateView| crate::redis_backend::scan::match_of(c);
    let ends = crate::redis_backend::scan_laws::all_ran(start.extending, rows);
    let matches = ends.map_values(model);
    lemma_start_is_valid(hashes, store, registry);
    crate::redis_backend::scan_laws::scan_answers_with_every_run(start, rows, 0);
    assert(all_rows.drop_first() =~= rows);
    assert(all_rows[0] == owners);
    assert forall|i: int| 0 <= i < matches.len() implies reports_as_due(
        hashes,
        store,
        registry,
        #[trigger] matches[i],
    ) by {
        let c = start.extending[i];
        let j = lemma_candidate_origin(owners, registry, owners.len() as int, i);
        assert(names_workers_once(owners));
        lemma_entry_of_worker(owners, j);
        crate::redis_backend::scan_laws::candidate_gains_its_leading_run(c, rows);
        crate::redis_backend::scan_laws::run_stops_at_the_first_gap(
            all_rows,
            c.worker,
            c.generation,
        );
        assert(matches[i] == crate::redis_backend::scan::match_of(
            crate::redis_backend::scan_laws::ran(c, rows),
        ));
    }
    assert forall|w: Seq<char>| #[trigger] is_due(hashes, store, registry, w) implies exists|i: int|
        0 <= i < matches.len() && (#[trigger] matches[i]).worker_id == w by {
        assert(crate::redis_backend::scan::holds(owners, w, registry(w).generation));
        let j = lemma_entry_is_listed(owners, w);
        lemma_admitted_is_candidate(owners, registry, owners.len() as int, j);
        let i = choose|i: int|
            0 <= i < start.extending.len() && (#[trigger] start.extending[i]).worker
                == owners[j].worker;
        crate::redis_backend::scan_laws::candidate_gains_its_leading_run(start.extending[i], rows);
        assert(matches[i].worker_id == w);
    }
    crate::ranking::ranking_orders_and_keeps_every_match(TieBreak::WorkerId, matches);
    lemma_order_does_not_matter(
        hashes,
        store,
        registry,
        matches,
        crate::ranking::ranked(TieBreak::WorkerId, matches),
    );
    assert forall|i: int, j: int| 0 <= i < j < matches.len() implies (
    #[trigger] matches[i]).worker_id != (#[trigger] matches[j]).worker_id by {
        crate::redis_backend::scan_laws::candidate_gains_its_leading_run(start.extending[i], rows);
        crate::redis_backend::scan_laws::candidate_gains_its_leading_run(start.extending[j], rows);
        assert(start.extending[i].worker != start.extending[j].worker);
    }
    lemma_ranking_keeps_workers_apart(TieBreak::WorkerId, matches);
}

/// Admitting workers in a hash space is admitting those that are comparable.
pub(crate) proof fn lemma_admits_what_is_comparable(
    owners: Seq<OwnerView>,
    registry: Registry,
    required: Option<Seq<char>>,
    n: int,
)
    requires
        0 <= n <= owners.len(),
    ensures
        crate::redis_backend::scan::admitted(
            owners,
            owners.map_values(|o: OwnerView| registry(o.worker)),
            required,
            n,
        ) == first_candidates(owners, comparable(registry, required), n),
    decreases n,
{
    if n > 0 {
        lemma_admits_what_is_comparable(owners, registry, required, n - 1);
    }
}

/// The count of disagreements is carried along.
proof fn lemma_scan_carries_the_count(v: ScanView, count: u32, rows: Seq<Seq<OwnerView>>)
    requires
        crate::redis_backend::scan::scan_is_valid(v),
        rows.len() == v.limit - 1,
    ensures
        crate::redis_backend::scan_laws::scanned(ScanView { mismatched: count, ..v }, rows) == (
        ScanView { mismatched: count, ..crate::redis_backend::scan_laws::scanned(v, rows) }),
    decreases v.limit - v.queried,
{
    let w = ScanView { mismatched: count, ..v };
    if let Some(end) = crate::redis_backend::scan::window_end(v) {
        let window = rows.subrange(v.queried - 1, end - 1);
        let next = crate::redis_backend::scan::absorbed(v, window);
        crate::redis_backend::scan_laws::lemma_absorbed_is_valid(v, window);
        crate::redis_backend::scan_laws::walk_keeps_the_limit(v, window);
        lemma_walk_carries_the_count(v, count, window);
        lemma_scan_carries_the_count(next, count, rows);
        assert(crate::redis_backend::scan::absorbed(w, window) == (ScanView {
            mismatched: count,
            ..next
        }));
    }
}

proof fn lemma_walk_carries_the_count(v: ScanView, count: u32, rows: Seq<Seq<OwnerView>>)
    ensures
        crate::redis_backend::scan::walk(ScanView { mismatched: count, ..v }, rows) == (ScanView {
            mismatched: count,
            ..crate::redis_backend::scan::walk(v, rows)
        }),
    decreases rows.len(),
{
    if rows.len() > 0 {
        lemma_walk_carries_the_count(v, count, rows.drop_last());
    }
}

/// A scan with limits in a hash space is one without, over the blocks that it
/// may read and the workers that are comparable.
pub(crate) proof fn lemma_limits_narrow_the_request(
    hashes: Seq<Seq<char>>,
    required: Option<Seq<char>>,
    max_blocks: u32,
    store: Store,
    registry: Registry,
)
    requires
        hashes.len() > 0,
        store_names_workers_once(store),
    ensures
        ({
            let asked = readable(hashes, max_blocks);
            let end = finished_scan(hashes, required, max_blocks, store, registry);
            &&& 0 < asked.len() <= PREFIX_SCAN_MAX_BLOCKS
            &&& end == (ScanView {
                mismatched: end.mismatched,
                ..finished_scan(asked, None, 0, store, comparable(registry, required))
            })
        }),
{
    let asked = readable(hashes, max_blocks);
    let known = comparable(registry, required);
    let owners = store(hashes[0]);
    let n = owners.len() as int;
    let rows = rows_for(asked.drop_first(), store);
    assert(asked[0] == hashes[0]);
    assert(readable(asked, 0) =~= asked);
    lemma_start_is_valid(asked, store, known);
    lemma_admits_what_is_comparable(owners, registry, required, n);
    let start = crate::redis_backend::scan::started(
        owners,
        owners.map_values(|o: OwnerView| registry(o.worker)),
        required,
        hashes.len(),
        max_blocks,
    );
    let plain = crate::redis_backend::scan::started(
        owners,
        owners.map_values(|o: OwnerView| known(o.worker)),
        None,
        asked.len(),
        0,
    );
    assert(start == (ScanView { mismatched: start.mismatched, ..plain }));
    lemma_scan_carries_the_count(plain, start.mismatched, rows);
}

/// A prefix scan reports exactly the workers that are alive, can be routed to,
/// recorded no other hash space than the one asked for and hold the first
/// block, each once and with the leading blocks that are placed on it in its
/// current generation, as far as the scan may read.
pub proof fn scan_lists_what_is_due(
    hashes: Seq<Seq<char>>,
    required: Option<Seq<char>>,
    max_blocks: u32,
    store: Store,
    registry: Registry,
)
    requires
        hashes.len() > 0,
        store_names_workers_once(store),
    ensures
        lists_what_is_due(
            readable(hashes, max_blocks),
            store,
            comparable(registry, required),
            scanned_answer(hashes, required, max_blocks, 0, store, registry).matches,
        ),
        crate::ranking::workers_differ(
            scanned_answer(hashes, required, max_blocks, 0, store, registry).matches,
        ),
{
    lemma_limits_narrow_the_request(hashes, required, max_blocks, store, registry);
    lemma_scan_lists_what_is_due(
        readable(hashes, max_blocks),
        store,
        comparable(registry, required),
    );
}

/// The prefix scan and the definition agree, whatever the limits of the query.
/// Both report workers as they are due, none of them twice, and equally many;
/// the prefixes that they report are equally long from the first to the last,
/// and so is the longest one. Without `top_k` both report every worker that is
/// due. The scan reads no more blocks than the definition does.
///
/// The definition is that of a query for the blocks that the scan may read,
/// which are all that a query for at most [`PREFIX_SCAN_MAX_BLOCKS`] blocks asks
/// for, over the workers that are comparable, which are all of them for a query
/// that names no hash space.
pub proof fn scan_agrees_with_the_definition(
    hashes: Seq<Seq<char>>,
    required: Option<Seq<char>>,
    max_blocks: u32,
    top_k: u32,
    store: Store,
    registry: Registry,
)
    requires
        hashes.len() > 0,
        store_is_sound(store),
    ensures
        ({
            let asked = readable(hashes, max_blocks);
            let known = comparable(registry, required);
            let defined = default_answer(asked, 0, top_k, store, known);
            let found = scanned_answer(hashes, required, max_blocks, top_k, store, registry);
            &&& crate::prefix::considered(hashes.len(), max_blocks) <= PREFIX_SCAN_MAX_BLOCKS
                ==> defined == default_answer(hashes, max_blocks, top_k, store, known)
            &&& required is None ==> known == registry
            &&& found.matches.len() == defined.matches.len()
            &&& forall|i: int|
                0 <= i < found.matches.len() ==> (#[trigger] found.matches[i]).matched_prefix_blocks
                    == defined.matches[i].matched_prefix_blocks
            &&& forall|i: int|
                0 <= i < found.matches.len() ==> reports_as_due(
                    asked,
                    store,
                    known,
                    #[trigger] found.matches[i],
                )
            &&& forall|i: int|
                0 <= i < defined.matches.len() ==> reports_as_due(
                    asked,
                    store,
                    known,
                    #[trigger] defined.matches[i],
                )
            &&& crate::ranking::workers_differ(found.matches)
            &&& crate::ranking::workers_differ(defined.matches)
            &&& top_k == 0 ==> lists_what_is_due(asked, store, known, found.matches)
            &&& top_k == 0 ==> lists_what_is_due(asked, store, known, defined.matches)
            &&& found.best_prefix_blocks == defined.best_prefix_blocks
            &&& found.queried_blocks <= defined.queried_blocks
        }),
{
    let asked = readable(hashes, max_blocks);
    let known = comparable(registry, required);
    assert(asked.take(asked.len() as int) =~= asked);
    if required is None {
        assert(known =~= registry);
    }
    lemma_whole_answers_agree(hashes, required, max_blocks, store, registry);
}

/// The answers agree before they are cut.
proof fn lemma_whole_answers_agree(
    hashes: Seq<Seq<char>>,
    required: Option<Seq<char>>,
    max_blocks: u32,
    store: Store,
    registry: Registry,
)
    requires
        hashes.len() > 0,
        store_is_sound(store),
    ensures
        ({
            let asked = readable(hashes, max_blocks);
            let known = comparable(registry, required);
            let defined = defined_answer(asked, store, known);
            let found = scanned_answer(hashes, required, max_blocks, 0, store, registry);
            &&& lists_what_is_due(asked, store, known, found.matches)
            &&& lists_what_is_due(asked, store, known, defined.matches)
            &&& crate::ranking::workers_differ(found.matches)
            &&& crate::ranking::workers_differ(defined.matches)
            &&& found.matches.len() == defined.matches.len()
            &&& forall|i: int|
                0 <= i < found.matches.len() ==> (#[trigger] found.matches[i]).matched_prefix_blocks
                    == defined.matches[i].matched_prefix_blocks
            &&& found.best_prefix_blocks == defined.best_prefix_blocks
            &&& found.queried_blocks <= defined.queried_blocks
        }),
{
    let asked = readable(hashes, max_blocks);
    let known = comparable(registry, required);
    let defined = defined_answer(asked, store, known);
    let found = scanned_answer(hashes, required, max_blocks, 0, store, registry);
    assert forall|h: Seq<char>| names_workers_once(#[trigger] store(h)) by {
        assert(is_sound(store(h)));
    }
    let end = finished_scan(hashes, required, max_blocks, store, registry);
    lemma_limits_narrow_the_request(hashes, required, max_blocks, store, registry);
    definition_lists_what_is_due(asked, store, known);
    scan_lists_what_is_due(hashes, required, max_blocks, store, registry);
    let entries = crate::inputs::entries_of(
        store_match(asked, store, known).map_values(
            |node: NodeMatchView| crate::inputs::whole_block_input(asked, node),
        ),
    );
    crate::ranking::ranking_orders_and_keeps_every_match(TieBreak::Arrival, entries);
    crate::ranking::ranking_orders_and_keeps_every_match(
        TieBreak::WorkerId,
        crate::redis_backend::scan::settled(end).map_values(
            |c: CandidateView| crate::redis_backend::scan::match_of(c),
        ),
    );
    lemma_same_lengths(
        asked,
        store,
        known,
        TieBreak::Arrival,
        defined.matches,
        TieBreak::WorkerId,
        found.matches,
    );
    lemma_scan_reads_what_was_asked(hashes, required, max_blocks, store, registry);
}

/// A scan reads no more than it may.
pub(crate) proof fn lemma_scan_reads_what_was_asked(
    hashes: Seq<Seq<char>>,
    required: Option<Seq<char>>,
    max_blocks: u32,
    store: Store,
    registry: Registry,
)
    requires
        hashes.len() > 0,
        store_names_workers_once(store),
    ensures
        finished_scan(hashes, required, max_blocks, store, registry).queried <= readable(
            hashes,
            max_blocks,
        ).len() <= PREFIX_SCAN_MAX_BLOCKS,
{
    let asked = readable(hashes, max_blocks);
    let known = comparable(registry, required);
    let owners = store(asked[0]);
    lemma_limits_narrow_the_request(hashes, required, max_blocks, store, registry);
    lemma_start_is_valid(asked, store, known);
    assert(readable(asked, 0) =~= asked);
    crate::redis_backend::scan_laws::scan_is_one_walk(
        crate::redis_backend::scan::started(
            owners,
            owners.map_values(|o: OwnerView| known(o.worker)),
            None,
            asked.len(),
            0,
        ),
        rows_for(asked.drop_first(), store),
    );
}

/// The scan of a query, run to its end.
pub open spec fn scan_of(
    request: MatchExternalKvPrefixRequest,
    store: Store,
    registry: Registry,
) -> ScanView {
    finished_scan(
        crate::text::texts(request.hashes@),
        crate::redis_backend::codec::checked_spec(
            crate::redis_backend::codec::optional_spec(request.hash_spec),
        ),
        request.max_blocks,
        store,
        registry,
    )
}

/// Hits that could not be recorded cost no answer. Two queries for the same
/// blocks under the same limits end in the same answer, whether or not they
/// count as a hit, and whether or not the hits could be recorded.
pub proof fn unrecorded_hits_cost_no_answer(
    a: MatchExternalKvPrefixRequest,
    recorded_a: Result<(), RpcStatus>,
    ended_a: Concluded,
    b: MatchExternalKvPrefixRequest,
    recorded_b: Result<(), RpcStatus>,
    ended_b: Concluded,
    store: Store,
    registry: Registry,
)
    requires
        a.hashes@.len() > 0,
        crate::text::texts(a.hashes@) == crate::text::texts(b.hashes@),
        crate::redis_backend::codec::optional_spec(a.hash_spec)
            == crate::redis_backend::codec::optional_spec(b.hash_spec),
        a.max_blocks == b.max_blocks,
        a.top_k == b.top_k,
        crate::redis_backend::scan::concludes(
            scan_of(a, store, registry),
            a.top_k,
            recorded_a,
            ended_a,
        ),
        crate::redis_backend::scan::concludes(
            scan_of(b, store, registry),
            b.top_k,
            recorded_b,
            ended_b,
        ),
    ensures
        ended_a.outcome is Ok,
        ended_b.outcome is Ok,
        ended_a.outcome->Ok_0@ == ended_b.outcome->Ok_0@,
{
}

/// Two ranked lists of what is due are equally long and name equally long
/// prefixes, place by place.
proof fn lemma_same_lengths(
    hashes: Seq<Seq<char>>,
    store: Store,
    registry: Registry,
    tie_a: TieBreak,
    a: Seq<PrefixMatchView>,
    tie_b: TieBreak,
    b: Seq<PrefixMatchView>,
)
    requires
        lists_what_is_due(hashes, store, registry, a),
        lists_what_is_due(hashes, store, registry, b),
        crate::ranking::workers_differ(a),
        crate::ranking::workers_differ(b),
        crate::ranking::is_ranked(tie_a, a),
        crate::ranking::is_ranked(tie_b, b),
    ensures
        a.len() == b.len(),
        forall|i: int|
            0 <= i < a.len() ==> (#[trigger] a[i]).matched_prefix_blocks
                == b[i].matched_prefix_blocks,
{
    let pair = |m: PrefixMatchView| (m.worker_id, m.matched_prefix_blocks);
    let blocks = |p: (Seq<char>, u32)| p.1;
    let longer = |x: u32, y: u32| x >= y;
    let pairs_a = a.map_values(pair);
    let pairs_b = b.map_values(pair);
    lemma_pairs(hashes, store, registry, a, b);
    lemma_pairs(hashes, store, registry, b, a);
    assert(pairs_a.to_multiset() =~= pairs_b.to_multiset()) by {
        broadcast use vstd::seq_lib::group_to_multiset_ensures;

        pairs_a.lemma_multiset_has_no_duplicates();
        pairs_b.lemma_multiset_has_no_duplicates();
        assert forall|p: (Seq<char>, u32)| #[trigger] pairs_a.to_multiset().count(p)
            == pairs_b.to_multiset().count(p) by {
            assert(pairs_a.contains(p) <==> pairs_b.contains(p));
        }
    }
    crate::redis_backend::scan_laws::lemma_mapping_keeps_multisets(pairs_a, pairs_b, blocks);
    let lengths_a = pairs_a.map_values(blocks);
    let lengths_b = pairs_b.map_values(blocks);
    assert forall|i: int, j: int| 0 <= i < j < lengths_a.len() implies #[trigger] longer(
        lengths_a[i],
        lengths_a[j],
    ) by {
        assert(crate::ranking::may_precede(tie_a, a[i], a[j]));
    }
    assert forall|i: int, j: int| 0 <= i < j < lengths_b.len() implies #[trigger] longer(
        lengths_b[i],
        lengths_b[j],
    ) by {
        assert(crate::ranking::may_precede(tie_b, b[i], b[j]));
    }
    vstd::seq_lib::lemma_sorted_unique(lengths_a, lengths_b, longer);
    assert forall|i: int| 0 <= i < a.len() implies (#[trigger] a[i]).matched_prefix_blocks
        == b[i].matched_prefix_blocks by {
        assert(lengths_a[i] == lengths_b[i]);
    }
}

/// Of two lists of what is due, the first names no worker twice, and none that
/// the second does not name with the same prefix.
proof fn lemma_pairs(
    hashes: Seq<Seq<char>>,
    store: Store,
    registry: Registry,
    a: Seq<PrefixMatchView>,
    b: Seq<PrefixMatchView>,
)
    requires
        lists_what_is_due(hashes, store, registry, a),
        lists_what_is_due(hashes, store, registry, b),
        crate::ranking::workers_differ(a),
    ensures
        ({
            let pair = |m: PrefixMatchView| (m.worker_id, m.matched_prefix_blocks);
            &&& a.map_values(pair).no_duplicates()
            &&& forall|p: (Seq<char>, u32)| #[trigger]
                a.map_values(pair).contains(p) ==> b.map_values(pair).contains(p)
        }),
{
    let pair = |m: PrefixMatchView| (m.worker_id, m.matched_prefix_blocks);
    let pairs_a = a.map_values(pair);
    let pairs_b = b.map_values(pair);
    assert forall|i: int, j: int|
        0 <= i < pairs_a.len() && 0 <= j < pairs_a.len() && i != j implies pairs_a[i]
        != pairs_a[j] by {
        if i < j {
            assert(a[i].worker_id != a[j].worker_id);
        } else {
            assert(a[j].worker_id != a[i].worker_id);
        }
    }
    assert forall|p: (Seq<char>, u32)| #[trigger] pairs_a.contains(p) implies pairs_b.contains(
        p,
    ) by {
        let i = choose|i: int| 0 <= i < pairs_a.len() && pairs_a[i] == p;
        assert(reports_as_due(hashes, store, registry, a[i]));
        let k = choose|k: int|
            0 <= k < b.len() && (#[trigger] b[k]).worker_id == a[i].worker_id;
        assert(reports_as_due(hashes, store, registry, b[k]));
        assert(pairs_b[k] == p);
    }
}

} // verus!
