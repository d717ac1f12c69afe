//! What the prefix rules answer.

use vstd::prelude::*;

use crate::inputs::{
    compute_prefix_response, cut_to, legacy_inputs_from_match, InputView, WorkerPrefixInput,
};
use crate::laws::order::ascends;
use crate::pb::{
    MatchExternalKvPrefixResponse, MatchExternalKvResponse, PrefixMatchView, TierHashesView,
};
use crate::prefix::{compute_worker_prefix, BlockComponents};
use crate::ranking::TieBreak;

verus! {

/// The places of the workers that are reported.
proof fn lemma_places_of_entries(inputs: Seq<InputView>) -> (at: Seq<int>)
    ensures
        at.len() == crate::inputs::entries_of(inputs).len(),
        forall|k: int|
            0 <= k < at.len() ==> 0 <= #[trigger] at[k] < inputs.len() && crate::inputs::entry_of(
                inputs[at[k]],
            ) == Some(crate::inputs::entries_of(inputs)[k]),
        ascends(at),
        forall|i: int|
            0 <= i < inputs.len() && crate::inputs::entry_of(inputs[i]) is Some
                ==> #[trigger] at.contains(i),
    decreases inputs.len(),
{
    if inputs.len() == 0 {
        Seq::empty()
    } else {
        let head = inputs.drop_last();
        let before = lemma_places_of_entries(head);
        let at = if crate::inputs::entry_of(inputs.last()) is Some {
            before.push(inputs.len() - 1)
        } else {
            before
        };
        assert forall|i: int|
            0 <= i < inputs.len() && crate::inputs::entry_of(
                inputs[i],
            ) is Some implies #[trigger] at.contains(i) by {
            if i < inputs.len() - 1 {
                assert(head[i] == inputs[i]);
                assert(before.contains(i));
                let k = choose|k: int| 0 <= k < before.len() && before[k] == i;
                assert(at[k] == i);
            } else {
                assert(at[before.len() as int] == i);
            }
        }
        at
    }
}

/// The rules report each worker that can be routed to and can reuse anything,
/// with its id, its address and what it can reuse. The longest prefix comes first,
/// equally long ones in the order of the workers. Nothing is said of ranks, tiers
/// or hash spaces.
///
/// `at` tells which worker each entry of the list stands for, in the order in
/// which the workers were given; `listed` is that list before it is ranked.
pub proof fn the_rules_report_each_worker_once(
    inputs: &[WorkerPrefixInput],
    blocks_read: u32,
    r: MatchExternalKvPrefixResponse,
    blocks: u32,
) -> (res: (Seq<int>, Seq<PrefixMatchView>))
    requires
        call_ensures(compute_prefix_response, (inputs, blocks_read), r),
    ensures
        ({
            let at = res.0;
            let listed = res.1;
            &&& at.len() == listed.len() == r.matches@.len()
            &&& ascends(at)
            &&& forall|k: int|
                0 <= k < at.len() ==> 0 <= #[trigger] at[k] < inputs@.len() && listed[k].worker_id
                    == inputs@[at[k]].worker_id@ && listed[k].address == inputs@[at[k]].address@
                    && inputs@[at[k]].address@.len() > 0 && listed[k].matched_prefix_blocks > 0
                    && listed[k].matched_prefix_blocks == crate::prefix::worker_prefix(
                    inputs@[at[k]].spec,
                    crate::prefix::block_views(inputs@[at[k]].blocks@),
                ) && listed[k].dp_rank == 0 && listed[k].tiers.len() == 0
            &&& forall|j: int|
                0 <= j < inputs@.len() && inputs@[j].address@.len() > 0
                    && crate::prefix::worker_prefix(
                    inputs@[j].spec,
                    crate::prefix::block_views(inputs@[j].blocks@),
                ) > 0 ==> #[trigger] at.contains(j)
            &&& r.matches@.map_values(
                |m: crate::pb::ExternalKvPrefixMatch| m@,
            ).to_multiset() == listed.to_multiset()
            &&& r.matches@.map_values(|m: crate::pb::ExternalKvPrefixMatch| m@).filter(
                |m: PrefixMatchView| m.matched_prefix_blocks == blocks,
            ) == listed.filter(|m: PrefixMatchView| m.matched_prefix_blocks == blocks)
            &&& forall|i: int, j: int|
                0 <= i < j < r.matches@.len() ==> (#[trigger] r.matches@[i]).matched_prefix_blocks
                    >= (#[trigger] r.matches@[j]).matched_prefix_blocks
            &&& r.matches@.len() > 0 ==> r.best_prefix_blocks
                == r.matches@[0].matched_prefix_blocks
            &&& r.matches@.len() == 0 ==> r.best_prefix_blocks == 0
            &&& r.queried_blocks == blocks_read
            &&& r.spec_mismatched_workers == 0
        }),
{
    let views = crate::inputs::input_views(inputs@);
    let listed = crate::inputs::entries_of(views);
    let at = lemma_places_of_entries(views);
    let after = crate::pb::prefix_matches(r.matches@);
    assert(after =~= r.matches@.map_values(|m: crate::pb::ExternalKvPrefixMatch| m@));
    crate::ranking::ranking_orders_and_keeps_every_match(TieBreak::Arrival, listed);
    crate::ranking::ranking_by_arrival_is_stable(listed, blocks);
    assert forall|k: int| 0 <= k < at.len() implies 0 <= #[trigger] at[k] < inputs@.len()
        && listed[k].worker_id == inputs@[at[k]].worker_id@ && listed[k].address
        == inputs@[at[k]].address@ && inputs@[at[k]].address@.len() > 0
        && listed[k].matched_prefix_blocks > 0 && listed[k].matched_prefix_blocks
        == crate::prefix::worker_prefix(
        inputs@[at[k]].spec,
        crate::prefix::block_views(inputs@[at[k]].blocks@),
    ) && listed[k].dp_rank == 0 && listed[k].tiers.len() == 0 by {
        assert(views[at[k]] == inputs@[at[k]]@);
    }
    assert forall|j: int|
        0 <= j < inputs@.len() && inputs@[j].address@.len() > 0 && crate::prefix::worker_prefix(
            inputs@[j].spec,
            crate::prefix::block_views(inputs@[j].blocks@),
        ) > 0 implies #[trigger] at.contains(j) by {
        assert(views[j] == inputs@[j]@);
    }
    assert forall|i: int, j: int| 0 <= i < j < r.matches@.len() implies (
    #[trigger] r.matches@[i]).matched_prefix_blocks >= (
    #[trigger] r.matches@[j]).matched_prefix_blocks by {
        assert(after[i] == r.matches@[i]@);
        assert(after[j] == r.matches@[j]@);
        assert(crate::ranking::may_precede(TieBreak::Arrival, after[i], after[j]));
    }
    if r.matches@.len() > 0 {
        assert(after[0] == r.matches@[0]@);
    }
    (at, listed)
}

/// What a worker is reported with is what the rules give for it.
pub proof fn a_reported_prefix_is_the_computed_one(
    spec: Option<crate::pb::WorkerCacheSpec>,
    blocks: &[Option<BlockComponents>],
    r: u32,
)
    requires
        spec is Some ==> call_ensures(compute_worker_prefix, (Some(&spec->0), blocks), r),
        spec is None ==> call_ensures(
            compute_worker_prefix,
            (None::<&crate::pb::WorkerCacheSpec>, blocks),
            r,
        ),
    ensures
        r == crate::prefix::worker_prefix(spec, crate::prefix::block_views(blocks@)),
{
}

/// Cutting an answer keeps the first `top_k` workers, all of them where that is 0,
/// and nothing else changes.
pub proof fn a_cut_keeps_the_first(
    response: MatchExternalKvPrefixResponse,
    top_k: u32,
    r: MatchExternalKvPrefixResponse,
)
    requires
        call_ensures(cut_to, (response, top_k), r),
    ensures
        r.matches@.len() == if top_k == 0 || response.matches@.len() <= top_k {
            response.matches@.len()
        } else {
            top_k as nat
        },
        forall|i: int|
            0 <= i < r.matches@.len() ==> (#[trigger] r.matches@[i]).worker_id@
                == response.matches@[i].worker_id@ && r.matches@[i].address@
                == response.matches@[i].address@ && r.matches@[i].dp_rank
                == response.matches@[i].dp_rank && r.matches@[i].matched_prefix_blocks
                == response.matches@[i].matched_prefix_blocks && r.matches@[i].tiers@
                == response.matches@[i].tiers@,
        r.best_prefix_blocks == response.best_prefix_blocks,
        r.queried_blocks == response.queried_blocks,
        r.spec_mismatched_workers == response.spec_mismatched_workers,
{
    assert(r@.matches.len() == r.matches@.len());
    assert(response@.matches.len() == response.matches@.len());
    assert forall|i: int| 0 <= i < r.matches@.len() implies (#[trigger] r.matches@[i]).worker_id@
        == response.matches@[i].worker_id@ && r.matches@[i].address@
        == response.matches@[i].address@ && r.matches@[i].dp_rank == response.matches@[i].dp_rank
        && r.matches@[i].matched_prefix_blocks == response.matches@[i].matched_prefix_blocks
        && r.matches@[i].tiers@ == response.matches@[i].tiers@ by {
        assert(r@.matches[i] == r.matches@[i]@);
        assert(response@.matches[i] == response.matches@[i]@);
    }
}

/// The tiers that list a hash.
proof fn lemma_occurrences(lists: Seq<TierHashesView>, hash: Seq<char>, tier: i32)
    ensures
        crate::inputs::occurrences(lists).contains((hash, tier)) <==> exists|a: int|
            0 <= a < lists.len() && (#[trigger] lists[a]).tier == tier && lists[a].hashes.contains(
                hash,
            ),
    decreases lists.len(),
{
    if lists.len() > 0 {
        let head = lists.drop_last();
        let last = lists.last();
        let before = crate::inputs::occurrences(head);
        let added = last.hashes.map_values(|h: Seq<char>| (h, last.tier));
        let all = crate::inputs::occurrences(lists);
        lemma_occurrences(head, hash, tier);
        assert(all == before + added);
        if all.contains((hash, tier)) {
            let k = choose|k: int| 0 <= k < all.len() && all[k] == (hash, tier);
            if k < before.len() {
                assert(before[k] == (hash, tier));
                let a = choose|a: int|
                    0 <= a < head.len() && (#[trigger] head[a]).tier == tier
                        && head[a].hashes.contains(hash);
                assert(lists[a] == head[a]);
            } else {
                assert(last.hashes[k - before.len()] == hash);
                assert(lists[lists.len() - 1].hashes.contains(hash));
            }
        }
        if exists|a: int|
            0 <= a < lists.len() && (#[trigger] lists[a]).tier == tier && lists[a].hashes.contains(
                hash,
            ) {
            let a = choose|a: int|
                0 <= a < lists.len() && (#[trigger] lists[a]).tier == tier
                    && lists[a].hashes.contains(hash);
            if a < head.len() {
                assert(head[a] == lists[a]);
                let k = choose|k: int| 0 <= k < before.len() && before[k] == (hash, tier);
                assert(all[k] == (hash, tier));
            } else {
                let k = choose|k: int| 0 <= k < last.hashes.len() && last.hashes[k] == hash;
                assert(added[k] == (hash, tier));
                assert(all[before.len() + k] == (hash, tier));
            }
        }
    }
}

/// A placement match is taken block by block: a block is held exactly where some
/// list of the worker names it, at the tiers of the lists that do, without
/// component detail. The worker keeps its id and its address, and declares
/// nothing.
pub proof fn a_match_is_taken_block_by_block(
    hashes: Vec<String>,
    matched: MatchExternalKvResponse,
    r: Vec<WorkerPrefixInput>,
    w: int,
    b: int,
    tier: i32,
)
    requires
        call_ensures(legacy_inputs_from_match, (&hashes, &matched), r),
        0 <= w < matched.matches@.len(),
        0 <= b < hashes@.len(),
    ensures
        r@.len() == matched.matches@.len(),
        r@[w].worker_id@ == matched.matches@[w].worker_id@,
        r@[w].address@ == matched.matches@[w].address@,
        r@[w].spec is None,
        r@[w].blocks@.len() == hashes@.len(),
        (exists|a: int, k: int|
            #![trigger matched.matches@[w].hashes_by_tier@[a].hashes@[k]]
            0 <= a < matched.matches@[w].hashes_by_tier@.len() && 0 <= k
                < matched.matches@[w].hashes_by_tier@[a].hashes@.len()
                && matched.matches@[w].hashes_by_tier@[a].tier == tier
                && matched.matches@[w].hashes_by_tier@[a].hashes@[k]@ == hashes@[b]@) <==> (
        r@[w].blocks@[b] is Some && r@[w].blocks@[b]->0.tier_masks@.contains((tier, 0u32))),
        r@[w].blocks@[b] is Some ==> r@[w].blocks@[b]->0.tier_masks@.len() > 0
            && r@[w].blocks@[b]->0.token_count == 0,
        r@[w].blocks@[b] is Some ==> forall|k: int|
            0 <= k < r@[w].blocks@[b]->0.tier_masks@.len() ==> (
            #[trigger] r@[w].blocks@[b]->0.tier_masks@[k]).1 == 0,
{
    let names = crate::text::texts(hashes@);
    let views = crate::inputs::input_views(r@);
    let node = matched@[w];
    let hash = hashes@[b]@;
    let lists = node.hashes_by_tier;
    assert(matched@.len() == matched.matches@.len());
    assert(views.len() == r@.len());
    assert(node == matched.matches@[w]@);
    assert(views[w] == r@[w]@);
    assert(views[w] == crate::inputs::whole_block_input(names, node));
    assert(r@[w]@.blocks.len() == r@[w].blocks@.len());
    let seen = crate::inputs::occurrences(lists);
    let tiers = crate::grouping::values_of(seen, hash);
    assert(r@[w]@.blocks[b] == crate::prefix::block_view(r@[w].blocks@[b]));
    assert(names[b] == hash);
    assert(r@[w]@.blocks[b] == crate::inputs::whole_block(lists, hash));
    let at = crate::laws::order::lemma_places_of_values(seen, hash);
    lemma_occurrences(lists, hash, tier);
    if r@[w].blocks@[b] is Some {
        let masks = r@[w].blocks@[b]->0.tier_masks@;
        assert(masks =~= tiers.map_values(|t: i32| (t, 0u32)));
        if masks.contains((tier, 0u32)) {
            let k = choose|k: int| 0 <= k < masks.len() && masks[k] == (tier, 0u32);
            assert(seen[at[k]] == (hash, tier));
            assert(seen.contains((hash, tier)));
        }
    }
    if seen.contains((hash, tier)) {
        let i = choose|i: int| 0 <= i < seen.len() && seen[i] == (hash, tier);
        assert(seen[i].0 == hash);
        assert(at.contains(i));
        let k = choose|k: int| 0 <= k < at.len() && at[k] == i;
        assert(tiers[k] == tier);
        let masks = r@[w].blocks@[b]->0.tier_masks@;
        assert(masks =~= tiers.map_values(|t: i32| (t, 0u32)));
        assert(masks[k] == (tier, 0u32));
        let a = choose|a: int|
            0 <= a < lists.len() && (#[trigger] lists[a]).tier == tier && lists[a].hashes.contains(
                hash,
            );
        let list = matched.matches@[w].hashes_by_tier@[a];
        assert(lists[a] == list@);
        let x = choose|x: int| 0 <= x < lists[a].hashes.len() && lists[a].hashes[x] == hash;
        assert(list.hashes@[x]@ == hash);
    }
    if exists|a: int, k: int|
        #![trigger matched.matches@[w].hashes_by_tier@[a].hashes@[k]]
        0 <= a < matched.matches@[w].hashes_by_tier@.len() && 0 <= k
            < matched.matches@[w].hashes_by_tier@[a].hashes@.len()
            && matched.matches@[w].hashes_by_tier@[a].tier == tier
            && matched.matches@[w].hashes_by_tier@[a].hashes@[k]@ == hash {
        let (a, k) = choose|a: int, k: int|
            #![trigger matched.matches@[w].hashes_by_tier@[a].hashes@[k]]
            0 <= a < matched.matches@[w].hashes_by_tier@.len() && 0 <= k
                < matched.matches@[w].hashes_by_tier@[a].hashes@.len()
                && matched.matches@[w].hashes_by_tier@[a].tier == tier
                && matched.matches@[w].hashes_by_tier@[a].hashes@[k]@ == hash;
        assert(lists[a] == matched.matches@[w].hashes_by_tier@[a]@);
        assert(lists[a].hashes[k] == hash);
        assert(lists[a].hashes.contains(hash));
    }
}

} // verus!
