//! What the prefix rules need about each worker, and the answer they give.

use vstd::prelude::*;

use crate::pb::{
    ExternalKvNodeMatch, ExternalKvPrefixMatch, MatchExternalKvPrefixResponse,
    MatchExternalKvResponse, NodeMatchView, PrefixMatchView, PrefixResponseView, TierHashes,
    TierHashesView, WorkerCacheSpec,
};
use crate::prefix::{BlockComponents, BlockView};
use crate::ranking::TieBreak;

verus! {

/// What the prefix rules need about one worker: who it is, what it declared,
/// and, aligned with the hashes of the query, what it holds.
#[derive(Debug, Clone)]
pub struct WorkerPrefixInput {
    pub worker_id: String,
    pub address: String,
    pub spec: Option<WorkerCacheSpec>,
    /// `None` for a block that the worker does not hold.
    pub blocks: Vec<Option<BlockComponents>>,
}

/// The model of a [`WorkerPrefixInput`].
pub struct InputView {
    pub worker_id: Seq<char>,
    pub address: Seq<char>,
    pub spec: Option<WorkerCacheSpec>,
    pub blocks: Seq<Option<BlockView>>,
}

impl View for WorkerPrefixInput {
    type V = InputView;

    open spec fn view(&self) -> InputView {
        InputView {
            worker_id: self.worker_id@,
            address: self.address@,
            spec: self.spec,
            blocks: crate::prefix::block_views(self.blocks@),
        }
    }
}

/// The models of several inputs.
pub open spec fn input_views(inputs: Seq<WorkerPrefixInput>) -> Seq<InputView> {
    inputs.map_values(|i: WorkerPrefixInput| i@)
}

/// Every hash of the tier lists, with its tier, in order.
pub open spec fn occurrences(lists: Seq<TierHashesView>) -> Seq<(Seq<char>, i32)>
    decreases lists.len(),
{
    if lists.len() == 0 {
        Seq::empty()
    } else {
        occurrences(lists.drop_last()) + lists.last().hashes.map_values(
            |h: Seq<char>| (h, lists.last().tier),
        )
    }
}

/// A block without component detail: held at the tiers that list it.
pub open spec fn whole_block(lists: Seq<TierHashesView>, hash: Seq<char>) -> Option<BlockView> {
    let tiers = crate::grouping::values_of(occurrences(lists), hash);
    if tiers.len() == 0 {
        None
    } else {
        Some(BlockView { token_count: 0, tier_masks: tiers.map_values(|t: i32| (t, 0u32)) })
    }
}

/// The input of a worker of which only whole blocks are known.
pub open spec fn whole_block_input(hashes: Seq<Seq<char>>, node: NodeMatchView) -> InputView {
    InputView {
        worker_id: node.worker_id,
        address: node.address,
        spec: None,
        blocks: hashes.map_values(|h: Seq<char>| whole_block(node.hashes_by_tier, h)),
    }
}

/// Every hash of the tier lists, with its tier, in order.
fn list_occurrences(lists: &Vec<TierHashes>) -> (r: Vec<(String, i32)>)
    ensures
        crate::grouping::keyed_views(r@) == occurrences(
            lists@.map_values(|t: TierHashes| t@),
        ),
{
    let ghost all = lists@.map_values(|t: TierHashes| t@);
    let mut r: Vec<(String, i32)> = Vec::new();
    let mut i: usize = 0;
    assert(crate::grouping::keyed_views(r@) =~= occurrences(all.take(0)));
    while i < lists.len()
        invariant
            i <= lists@.len(),
            all == lists@.map_values(|t: TierHashes| t@),
            crate::grouping::keyed_views(r@) == occurrences(all.take(i as int)),
        decreases lists@.len() - i,
    {
        let list = &lists[i];
        let ghost before = occurrences(all.take(i as int));
        let ghost whole = list@.hashes.map_values(|h: Seq<char>| (h, list@.tier));
        let mut j: usize = 0;
        assert(before + whole.take(0) =~= before);
        while j < list.hashes.len()
            invariant
                j <= list.hashes@.len(),
                whole == list@.hashes.map_values(|h: Seq<char>| (h, list@.tier)),
                crate::grouping::keyed_views(r@) == before + whole.take(j as int),
            decreases list.hashes@.len() - j,
        {
            let ghost earlier = r@;
            r.push((list.hashes[j].clone(), list.tier));
            assert(whole[j as int] == (list.hashes@[j as int]@, list.tier));
            assert(crate::grouping::keyed_views(r@) =~= crate::grouping::keyed_views(earlier).push(
                whole[j as int],
            ));
            assert(before + whole.take(j + 1) =~= (before + whole.take(j as int)).push(
                whole[j as int],
            ));
            j = j + 1;
        }
        proof {
            assert(all.take(i + 1).drop_last() =~= all.take(i as int));
            assert(all.take(i + 1).last() == list@);
            assert(whole.take(j as int) =~= whole);
        }
        i = i + 1;
    }
    assert(all.take(i as int) =~= all);
    r
}

/// The input of a worker of which only whole blocks are known.
fn input_from_node(hashes: &Vec<String>, node: &ExternalKvNodeMatch) -> (r: WorkerPrefixInput)
    ensures
        r@ == whole_block_input(crate::text::texts(hashes@), node@),
{
    let ghost lists = node@.hashes_by_tier;
    let ghost seen = occurrences(lists);
    let groups = crate::grouping::group_by_text(list_occurrences(&node.hashes_by_tier));
    let index = crate::grouping::index_groups(&groups);
    let mut blocks: Vec<Option<BlockComponents>> = Vec::new();
    let mut i: usize = 0;
    while i < hashes.len()
        invariant
            i <= hashes@.len(),
            seen == occurrences(lists),
            crate::grouping::group_views(groups@) == crate::grouping::grouped(seen),
            forall|key: Seq<char>| #[trigger] crate::grouping::locates(index@, groups@, key),
            blocks@.len() == i,
            forall|k: int|
                0 <= k < i ==> crate::prefix::block_view(#[trigger] blocks@[k]) == whole_block(
                    lists,
                    hashes@[k]@,
                ),
        decreases hashes@.len() - i,
    {
        let ghost hash = hashes@[i as int]@;
        proof {
            assert(crate::grouping::locates(index@, groups@, hash));
            crate::grouping::located_group_holds_the_values(index@, groups@, seen, hash);
        }
        let block: Option<BlockComponents> = match index.get(hashes[i].as_str()) {
            Some(at) => {
                let tiers = &groups[*at].1;
                let mut tier_masks: Vec<(i32, u32)> = Vec::new();
                let mut j: usize = 0;
                while j < tiers.len()
                    invariant
                        j <= tiers@.len(),
                        tier_masks@.len() == j,
                        forall|k: int|
                            0 <= k < j ==> #[trigger] tier_masks@[k] == (tiers@[k], 0u32),
                    decreases tiers@.len() - j,
                {
                    tier_masks.push((tiers[j], 0));
                    j = j + 1;
                }
                assert(crate::grouping::value_views(tiers@) =~= tiers@);
                assert(tier_masks@ =~= crate::grouping::values_of(seen, hash).map_values(
                    |t: i32| (t, 0u32),
                ));
                Some(BlockComponents { token_count: 0, tier_masks })
            },
            None => None,
        };
        assert(crate::prefix::block_view(block) == whole_block(lists, hash));
        blocks.push(block);
        i = i + 1;
    }
    let r = WorkerPrefixInput {
        worker_id: node.worker_id.clone(),
        address: node.address.clone(),
        spec: None,
        blocks,
    };
    assert(r@.blocks =~= whole_block_input(crate::text::texts(hashes@), node@).blocks);
    r
}

/// Turns a placement match into inputs without component detail: each block
/// that a worker holds becomes a whole-block placement.
pub fn legacy_inputs_from_match(hashes: &Vec<String>, matched: &MatchExternalKvResponse) -> (r: Vec<
    WorkerPrefixInput,
>)
    ensures
        input_views(r@) == matched@.map_values(
            |node: NodeMatchView| whole_block_input(crate::text::texts(hashes@), node),
        ),
{
    let ghost names = crate::text::texts(hashes@);
    let mut inputs: Vec<WorkerPrefixInput> = Vec::new();
    let mut i: usize = 0;
    while i < matched.matches.len()
        invariant
            i <= matched.matches@.len(),
            names == crate::text::texts(hashes@),
            inputs@.len() == i,
            forall|k: int|
                0 <= k < i ==> (#[trigger] inputs@[k])@ == whole_block_input(
                    names,
                    matched.matches@[k]@,
                ),
        decreases matched.matches@.len() - i,
    {
        inputs.push(input_from_node(hashes, &matched.matches[i]));
        i = i + 1;
    }
    assert(input_views(inputs@) =~= matched@.map_values(
        |node: NodeMatchView| whole_block_input(names, node),
    ));
    inputs
}

/// What is reported of a worker: its reusable prefix, if it can be routed to
/// and has one.
pub open spec fn entry_of(input: InputView) -> Option<PrefixMatchView> {
    let prefix = crate::prefix::worker_prefix(input.spec, input.blocks);
    if input.address.len() > 0 && prefix > 0 {
        Some(
            PrefixMatchView {
                worker_id: input.worker_id,
                address: input.address,
                dp_rank: 0,
                matched_prefix_blocks: prefix,
                tiers: Seq::empty(),
            },
        )
    } else {
        None
    }
}

/// What is reported of several workers, in order.
pub open spec fn entries_of(inputs: Seq<InputView>) -> Seq<PrefixMatchView>
    decreases inputs.len(),
{
    if inputs.len() == 0 {
        Seq::empty()
    } else {
        match entry_of(inputs.last()) {
            Some(entry) => entries_of(inputs.drop_last()).push(entry),
            None => entries_of(inputs.drop_last()),
        }
    }
}

/// The answer of the prefix rules: longest prefix first, equally long ones in
/// the order of the inputs.
pub open spec fn engine_answer(inputs: Seq<InputView>, blocks_read: u32) -> PrefixResponseView {
    crate::ranking::answer(TieBreak::Arrival, entries_of(inputs), 0, blocks_read, 0)
}

/// The matches that worker ids, addresses and prefix lengths stand for.
pub open spec fn entry_matches(entries: Seq<(String, String, u32)>) -> Seq<PrefixMatchView> {
    entries.map_values(
        |e: (String, String, u32)|
            PrefixMatchView {
                worker_id: e.0@,
                address: e.1@,
                dp_rank: 0,
                matched_prefix_blocks: e.2,
                tiers: Seq::empty(),
            },
    )
}

/// Sorts worker ids, addresses and prefix lengths by length, longest first, and
/// puts the answer together.
pub fn assemble_prefix_response(entries: Vec<(String, String, u32)>, blocks_read: u32) -> (r:
    MatchExternalKvPrefixResponse)
    ensures
        r@ == crate::ranking::answer(
            TieBreak::Arrival,
            entry_matches(entries@),
            0,
            blocks_read,
            0,
        ),
{
    let ghost input = entries@;
    let mut matches: Vec<ExternalKvPrefixMatch> = Vec::new();
    for entry in it: entries
        invariant
            it.seq() == input,
            matches@.len() == it.index(),
            forall|k: int|
                0 <= k < matches@.len() ==> (#[trigger] matches@[k])@ == entry_matches(input)[k],
    {
        let ghost k = it.index() as int;
        let (worker_id, address, matched_prefix_blocks) = entry;
        assert(input[k] == (worker_id, address, matched_prefix_blocks));
        let tiers: Vec<i32> = Vec::new();
        assert(tiers@ =~= Seq::<i32>::empty());
        matches.push(
            ExternalKvPrefixMatch { worker_id, address, dp_rank: 0, matched_prefix_blocks, tiers },
        );
    }
    assert(crate::pb::prefix_matches(matches@) =~= entry_matches(input));
    crate::ranking::ranked_response(TieBreak::Arrival, matches, 0, blocks_read, 0)
}

/// Applies the prefix rules to each worker and puts the answer together. A
/// worker without an address cannot be routed to and is left out.
pub fn compute_prefix_response(inputs: &[WorkerPrefixInput], blocks_read: u32) -> (r:
    MatchExternalKvPrefixResponse)
    ensures
        r@ == engine_answer(input_views(inputs@), blocks_read),
{
    let ghost all = input_views(inputs@);
    let mut entries: Vec<(String, String, u32)> = Vec::new();
    let mut i: usize = 0;
    assert(entry_matches(entries@) =~= entries_of(all.take(0)));
    while i < inputs.len()
        invariant
            i <= inputs@.len(),
            all == input_views(inputs@),
            entry_matches(entries@) == entries_of(all.take(i as int)),
        decreases inputs@.len() - i,
    {
        let worker = &inputs[i];
        let ghost before = entries@;
        assert(all.take(i + 1).drop_last() =~= all.take(i as int));
        assert(all.take(i + 1).last() == worker@);
        if !worker.address.as_str().is_empty() {
            let prefix: u32 = crate::prefix::compute_worker_prefix(
                worker.spec.as_ref(),
                worker.blocks.as_slice(),
            );
            if prefix > 0 {
                entries.push((worker.worker_id.clone(), worker.address.clone(), prefix));
                assert(entry_matches(entries@) =~= entry_matches(before).push(
                    entry_of(worker@)->0,
                ));
            }
        }
        i = i + 1;
    }
    assert(all.take(i as int) =~= all);
    assemble_prefix_response(entries, blocks_read)
}

/// An answer cut to `top_k` workers; all of them when `top_k` is 0.
pub open spec fn cut(response: PrefixResponseView, top_k: u32) -> PrefixResponseView {
    PrefixResponseView { matches: crate::ranking::top(response.matches, top_k), ..response }
}

/// Cuts an answer to `top_k` workers.
pub fn cut_to(response: MatchExternalKvPrefixResponse, top_k: u32) -> (r:
    MatchExternalKvPrefixResponse)
    ensures
        r@ == cut(response@, top_k),
{
    let ghost start = response@;
    let mut response = response;
    if top_k > 0 && response.matches.len() > top_k as usize {
        response.matches.truncate(top_k as usize);
    }
    assert(response@.matches =~= crate::ranking::top(start.matches, top_k));
    response
}

} // verus!
