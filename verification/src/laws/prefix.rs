//! How much of a request a worker can reuse.

use vstd::prelude::*;

use crate::pb::WorkerCacheSpec;
use crate::prefix::{
    blocks_carry_components, component_available, component_aware_prefix, component_bit,
    compute_worker_prefix, legacy_contiguous_prefix, prefix_limit, tier_in_mask, BlockComponents,
    BlockView,
};

verus! {

/// The low bits of a mask of tiers.
proof fn lemma_tier_bits(mask: u32)
    ensures
        mask & (1u32 << 1u32) == mask & 2,
        mask & (1u32 << 2u32) == mask & 4,
        mask & (1u32 << 3u32) == mask & 8,
{
    assert(mask & (1u32 << 1u32) == mask & 2) by (bit_vector);
    assert(mask & (1u32 << 2u32) == mask & 4) by (bit_vector);
    assert(mask & (1u32 << 3u32) == mask & 8) by (bit_vector);
}

/// What it takes for a component to be available.
proof fn lemma_available(block: Option<BlockComponents>, component: u32, tier_mask: u32)
    ensures
        crate::prefix::available(crate::prefix::block_view(block), component, tier_mask) <==> (
        block is Some && exists|k: int|
            #![trigger block->0.tier_masks@[k]]
            0 <= k < block->0.tier_masks@.len() && block->0.tier_masks@[k].1 & component != 0 && (
            (block->0.tier_masks@[k].0 == 1 && tier_mask & 2 != 0) || (
            block->0.tier_masks@[k].0 == 2 && tier_mask & 4 != 0))),
{
    lemma_tier_bits(tier_mask);
    if block is Some {
        let view = block->0@;
        assert(crate::prefix::block_view(block) == Some(view));
        if crate::prefix::available(Some(view), component, tier_mask) {
            let k = choose|k: int| #[trigger]
                crate::prefix::placement_serves(view, k, component, tier_mask);
            assert(crate::prefix::placement_serves(view, k, component, tier_mask));
            assert(view.tier_masks[k] == block->0.tier_masks@[k]);
            assert(block->0.tier_masks@[k].1 & component != 0);
            if block->0.tier_masks@[k].0 == 1 {
                assert(tier_mask & 2 != 0);
            } else {
                assert(tier_mask & 4 != 0);
            }
        }
        if exists|k: int|
            #![trigger block->0.tier_masks@[k]]
            0 <= k < block->0.tier_masks@.len() && block->0.tier_masks@[k].1 & component != 0 && ((
            block->0.tier_masks@[k].0 == 1 && tier_mask & 2 != 0) || (block->0.tier_masks@[k].0 == 2
                && tier_mask & 4 != 0)) {
            let k = choose|k: int|
                #![trigger block->0.tier_masks@[k]]
                0 <= k < block->0.tier_masks@.len() && block->0.tier_masks@[k].1 & component != 0
                    && ((block->0.tier_masks@[k].0 == 1 && tier_mask & 2 != 0) || (
                block->0.tier_masks@[k].0 == 2 && tier_mask & 4 != 0));
            assert(view.tier_masks[k] == block->0.tier_masks@[k]);
            assert(crate::prefix::placement_serves(
                crate::prefix::block_view(block)->0,
                k,
                component,
                tier_mask,
            ));
        }
    }
}

/// A component counts on a block only through a placement that carries it, at a
/// tier that is declared for it and from which the index serves, which are HBM
/// and DRAM.
pub proof fn a_component_counts_only_where_it_is_declared(
    block: Option<BlockComponents>,
    component: u32,
    tier_mask: u32,
    r: bool,
)
    requires
        call_ensures(component_available, (&block, component, tier_mask), r),
    ensures
        r <==> (block is Some && exists|k: int|
            #![trigger block->0.tier_masks@[k]]
            0 <= k < block->0.tier_masks@.len() && block->0.tier_masks@[k].1 & component != 0 && (
            (block->0.tier_masks@[k].0 == 1 && tier_mask & 2 != 0) || (
            block->0.tier_masks@[k].0 == 2 && tier_mask & 4 != 0))),
{
    lemma_available(block, component, tier_mask);
}

/// A mask of tiers holds a tier exactly where the bit with that number is set.
pub proof fn a_mask_holds_the_tiers_of_its_bits(mask: u32, tier: i32, r: bool)
    requires
        call_ensures(tier_in_mask, (mask, tier), r),
    ensures
        tier < 0 || tier >= 32 ==> !r,
        0 <= tier < 32 ==> r == ((mask >> (tier as u32)) & 1 == 1),
{
    if 0 <= tier < 32 {
        let t = tier as u32;
        assert(t < 32 ==> ((mask & (1u32 << t) != 0) <==> ((mask >> t) & 1 == 1)))
            by (bit_vector);
    }
}

/// A label names one of three components, and any other names none.
pub proof fn three_labels_name_components(name: &str, r: Option<u32>)
    requires
        call_ensures(component_bit, (name,), r),
    ensures
        r == Some(1u32) <==> name@ == "full"@,
        r == Some(2u32) <==> name@ == "swa"@,
        r == Some(4u32) <==> name@ == "mamba"@,
        name@ != "full"@ && name@ != "swa"@ && name@ != "mamba"@ ==> r is None,
{
    reveal_strlit("full");
    reveal_strlit("swa");
    reveal_strlit("mamba");
    assert("full"@.len() == 4);
    assert("swa"@.len() == 3);
    assert("mamba"@.len() == 5);
}

/// A limit of 0 is none, and any other one cuts a longer request down to it.
pub proof fn a_limit_cuts_only_a_longer_request(len: usize, max_blocks: u32, r: usize)
    requires
        call_ensures(prefix_limit, (len, max_blocks), r),
    ensures
        max_blocks == 0 ==> r == len,
        0 < max_blocks < len ==> r == max_blocks,
        len <= max_blocks ==> r == len,
{
}

proof fn lemma_boundary(spec: WorkerCacheSpec, blocks: Seq<Option<BlockView>>, upto: nat)
    ensures
        crate::prefix::largest_boundary(spec, blocks, upto) <= upto,
        crate::prefix::largest_boundary(spec, blocks, upto) > 0 ==> crate::prefix::reusable(
            spec,
            blocks,
            crate::prefix::largest_boundary(spec, blocks, upto) as int,
        ),
        forall|n: int|
            crate::prefix::largest_boundary(spec, blocks, upto) < n <= upto
                ==> !crate::prefix::reusable(spec, blocks, n),
    decreases upto,
{
    if upto > 0 && !crate::prefix::reusable(spec, blocks, upto as int) {
        lemma_boundary(spec, blocks, (upto - 1) as nat);
    }
}

/// Every block of a worker's prefix has the full cache at a tier that the
/// worker declared for it: a block on which it is resident only elsewhere ends
/// the prefix before it.
pub proof fn a_prefix_has_the_full_cache_on_every_block(
    spec: WorkerCacheSpec,
    blocks: &[Option<BlockComponents>],
    r: u32,
    i: int,
)
    requires
        call_ensures(compute_worker_prefix, (Some(&spec), blocks), r),
        blocks@.len() <= u32::MAX,
        0 <= i < r,
    ensures
        r <= blocks@.len(),
        blocks@[i] is Some,
        exists|k: int|
            #![trigger blocks@[i]->0.tier_masks@[k]]
            0 <= k < blocks@[i]->0.tier_masks@.len() && blocks@[i]->0.tier_masks@[k].1 & 1 != 0 && (
            (blocks@[i]->0.tier_masks@[k].0 == 1 && spec.full_tier_mask & 2 != 0) || (
            blocks@[i]->0.tier_masks@[k].0 == 2 && spec.full_tier_mask & 4 != 0)),
{
    let views = crate::prefix::block_views(blocks@);
    lemma_boundary(spec, views, views.len());
    assert(crate::prefix::available(views[i], 1, spec.full_tier_mask));
    lemma_available(blocks@[i], 1, spec.full_tier_mask);
}

/// The tokens of blocks, one by one.
proof fn lemma_tokens(blocks: Seq<Option<BlockComponents>>, from: int, to: int)
    requires
        0 <= from <= to <= blocks.len(),
    ensures
        crate::prefix::tokens(crate::prefix::block_views(blocks), from, to) == blocks.subrange(
            from,
            to,
        ).fold_left(
            0int,
            |sum: int, b: Option<BlockComponents>|
                sum + (match b {
                    Some(held) => held.token_count as int,
                    None => 0int,
                }),
        ),
    decreases to - from,
{
    let part = blocks.subrange(from, to);
    if from < to {
        lemma_tokens(blocks, from, to - 1);
        assert(part.drop_last() =~= blocks.subrange(from, to - 1));
        assert(crate::prefix::block_views(blocks)[to - 1] == crate::prefix::block_view(
            blocks[to - 1],
        ));
    }
}

/// Where the model needs the sliding-window cache, a prefix ends in an unbroken
/// run of it, at the tiers that the worker declared for it. The run reaches back
/// to the first block or covers a whole window.
///
/// `from` is where the run starts.
pub proof fn a_prefix_ends_in_a_trailing_window(
    spec: WorkerCacheSpec,
    blocks: &[Option<BlockComponents>],
    r: u32,
) -> (from: int)
    requires
        call_ensures(compute_worker_prefix, (Some(&spec), blocks), r),
        blocks@.len() <= u32::MAX,
        spec.components & 2 != 0,
        r > 0,
    ensures
        0 <= from < r <= blocks@.len(),
        forall|i: int|
            from <= i < r ==> (#[trigger] blocks@[i]) is Some && exists|k: int|
                #![trigger blocks@[i]->0.tier_masks@[k]]
                0 <= k < blocks@[i]->0.tier_masks@.len() && blocks@[i]->0.tier_masks@[k].1 & 2 != 0
                    && ((blocks@[i]->0.tier_masks@[k].0 == 1 && spec.swa_tier_mask & 2 != 0) || (
                blocks@[i]->0.tier_masks@[k].0 == 2 && spec.swa_tier_mask & 4 != 0)),
        from == 0 || blocks@.subrange(from, r as int).fold_left(
            0int,
            |sum: int, b: Option<BlockComponents>|
                sum + (match b {
                    Some(held) => held.token_count as int,
                    None => 0int,
                }),
        ) >= spec.swa_window_tokens,
{
    let views = crate::prefix::block_views(blocks@);
    lemma_boundary(spec, views, views.len());
    let from = choose|from: int| #[trigger]
        crate::prefix::swa_window(spec, views, from, r as int);
    assert(crate::prefix::swa_window(spec, views, from, r as int));
    assert forall|i: int| from <= i < r implies (#[trigger] blocks@[i]) is Some && exists|k: int|
        #![trigger blocks@[i]->0.tier_masks@[k]]
        0 <= k < blocks@[i]->0.tier_masks@.len() && blocks@[i]->0.tier_masks@[k].1 & 2 != 0 && ((
        blocks@[i]->0.tier_masks@[k].0 == 1 && spec.swa_tier_mask & 2 != 0) || (
        blocks@[i]->0.tier_masks@[k].0 == 2 && spec.swa_tier_mask & 4 != 0)) by {
        assert(crate::prefix::available(views[i], 2, spec.swa_tier_mask));
        lemma_available(blocks@[i], 2, spec.swa_tier_mask);
    }
    lemma_tokens(blocks@, from, r as int);
    from
}

/// Where the model needs a Mamba state, the last block of a prefix has one, at a
/// tier that the worker declared for it.
pub proof fn a_prefix_ends_in_a_mamba_state(
    spec: WorkerCacheSpec,
    blocks: &[Option<BlockComponents>],
    r: u32,
)
    requires
        call_ensures(compute_worker_prefix, (Some(&spec), blocks), r),
        blocks@.len() <= u32::MAX,
        spec.components & 4 != 0,
        r > 0,
    ensures
        blocks@[r - 1] is Some,
        exists|k: int|
            #![trigger blocks@[r - 1]->0.tier_masks@[k]]
            0 <= k < blocks@[r - 1]->0.tier_masks@.len() && blocks@[r - 1]->0.tier_masks@[k].1 & 4
                != 0 && ((blocks@[r - 1]->0.tier_masks@[k].0 == 1 && spec.mamba_tier_mask & 2 != 0)
                || (blocks@[r - 1]->0.tier_masks@[k].0 == 2 && spec.mamba_tier_mask & 4 != 0)),
{
    let views = crate::prefix::block_views(blocks@);
    lemma_boundary(spec, views, views.len());
    assert(crate::prefix::available(views[r - 1], 4, spec.mamba_tier_mask));
    lemma_available(blocks@[r - 1], 4, spec.mamba_tier_mask);
}

/// A worker whose declaration cannot be interpreted has no prefix: one that
/// names no component, is of a later version than 1, or needs a sliding window
/// of no tokens.
pub proof fn an_unusable_declaration_has_no_prefix(
    spec: WorkerCacheSpec,
    blocks: &[Option<BlockComponents>],
    r: u32,
)
    requires
        call_ensures(compute_worker_prefix, (Some(&spec), blocks), r),
        spec.components == 0 || spec.version > 1 || (spec.components & 2 != 0
            && spec.swa_window_tokens == 0),
    ensures
        r == 0,
{
}

/// A boundary at which every needed component is where its rule wants it is
/// within the prefix: the full cache on every block before it, the
/// sliding-window cache from `from` on, which is the first block or a whole
/// window back, and the Mamba state on the last block.
pub proof fn a_prefix_reaches_every_reusable_boundary(
    spec: WorkerCacheSpec,
    blocks: &[Option<BlockComponents>],
    r: u32,
    n: int,
    from: int,
)
    requires
        call_ensures(compute_worker_prefix, (Some(&spec), blocks), r),
        0 < n <= blocks@.len() <= u32::MAX,
        spec.components != 0,
        spec.version <= 1,
        forall|i: int|
            0 <= i < n ==> (#[trigger] blocks@[i]) is Some && exists|k: int|
                #![trigger blocks@[i]->0.tier_masks@[k]]
                0 <= k < blocks@[i]->0.tier_masks@.len() && blocks@[i]->0.tier_masks@[k].1 & 1 != 0
                    && ((blocks@[i]->0.tier_masks@[k].0 == 1 && spec.full_tier_mask & 2 != 0) || (
                blocks@[i]->0.tier_masks@[k].0 == 2 && spec.full_tier_mask & 4 != 0)),
        spec.components & 2 != 0 ==> spec.swa_window_tokens > 0 && 0 <= from < n,
        spec.components & 2 != 0 ==> forall|i: int|
            from <= i < n ==> (#[trigger] blocks@[i]) is Some && exists|k: int|
                #![trigger blocks@[i]->0.tier_masks@[k]]
                0 <= k < blocks@[i]->0.tier_masks@.len() && blocks@[i]->0.tier_masks@[k].1 & 2 != 0
                    && ((blocks@[i]->0.tier_masks@[k].0 == 1 && spec.swa_tier_mask & 2 != 0) || (
                blocks@[i]->0.tier_masks@[k].0 == 2 && spec.swa_tier_mask & 4 != 0)),
        spec.components & 2 != 0 ==> from == 0 || blocks@.subrange(from, n).fold_left(
            0int,
            |sum: int, b: Option<BlockComponents>|
                sum + (match b {
                    Some(held) => held.token_count as int,
                    None => 0int,
                }),
        ) >= spec.swa_window_tokens,
        spec.components & 4 != 0 ==> exists|k: int|
            #![trigger blocks@[n - 1]->0.tier_masks@[k]]
            0 <= k < blocks@[n - 1]->0.tier_masks@.len() && blocks@[n - 1]->0.tier_masks@[k].1 & 4
                != 0 && ((blocks@[n - 1]->0.tier_masks@[k].0 == 1 && spec.mamba_tier_mask & 2 != 0)
                || (blocks@[n - 1]->0.tier_masks@[k].0 == 2 && spec.mamba_tier_mask & 4 != 0)),
    ensures
        n <= r <= blocks@.len(),
{
    let views = crate::prefix::block_views(blocks@);
    lemma_boundary(spec, views, views.len());
    assert forall|i: int| 0 <= i < n implies crate::prefix::available(
        #[trigger] views[i],
        1,
        spec.full_tier_mask,
    ) by {
        assert(blocks@[i] is Some);
        lemma_available(blocks@[i], 1, spec.full_tier_mask);
    }
    if spec.components & 2 != 0 {
        assert forall|i: int| from <= i < n implies crate::prefix::available(
            #[trigger] views[i],
            2,
            spec.swa_tier_mask,
        ) by {
            assert(blocks@[i] is Some);
            lemma_available(blocks@[i], 2, spec.swa_tier_mask);
        }
        lemma_tokens(blocks@, from, n);
        assert(crate::prefix::swa_window(spec, views, from, n));
    }
    if spec.components & 4 != 0 {
        assert(blocks@[n - 1] is Some);
        lemma_available(blocks@[n - 1], 4, spec.mamba_tier_mask);
    }
    assert(crate::prefix::reusable(spec, views, n));
}

/// The rules are applied in one place: where a declaration can be interpreted,
/// a worker's prefix is what they give.
pub proof fn declared_components_decide(
    spec: WorkerCacheSpec,
    blocks: &[Option<BlockComponents>],
    r: u32,
    by_rules: u32,
)
    requires
        call_ensures(compute_worker_prefix, (Some(&spec), blocks), r),
        call_ensures(component_aware_prefix, (&spec, blocks), by_rules),
        spec.components != 0,
        spec.version <= 1,
    ensures
        r == by_rules,
{
}

/// A worker that declared nothing but reports components has no prefix.
pub proof fn undeclared_components_have_no_prefix(
    blocks: &[Option<BlockComponents>],
    r: u32,
    i: int,
    k: int,
)
    requires
        call_ensures(compute_worker_prefix, (None::<&WorkerCacheSpec>, blocks), r),
        0 <= i < blocks@.len(),
        blocks@[i] is Some,
        0 <= k < blocks@[i]->0.tier_masks@.len(),
        blocks@[i]->0.tier_masks@[k].1 != 0,
    ensures
        r == 0,
{
    let views = crate::prefix::block_views(blocks@);
    assert(views[i] == Some(blocks@[i]->0@));
    assert(views[i]->0.tier_masks[k].1 != 0);
}

/// A worker that declared nothing and reports no components is taken to hold
/// what it reports: its prefix ends at the first block that it does not hold.
pub proof fn whole_blocks_count_up_to_the_first_gap(blocks: &[Option<BlockComponents>], r: u32)
    requires
        call_ensures(compute_worker_prefix, (None::<&WorkerCacheSpec>, blocks), r),
        blocks@.len() <= u32::MAX,
        forall|i: int, k: int|
            #![trigger blocks@[i]->0.tier_masks@[k]]
            0 <= i < blocks@.len() && blocks@[i] is Some && 0 <= k
                < blocks@[i]->0.tier_masks@.len() ==> blocks@[i]->0.tier_masks@[k].1 == 0,
    ensures
        r <= blocks@.len(),
        forall|i: int| 0 <= i < r ==> (#[trigger] blocks@[i]) is Some,
        r < blocks@.len() ==> blocks@[r as int] is None,
{
    let views = crate::prefix::block_views(blocks@);
    if crate::prefix::carries_components(views) {
        let (i, k) = choose|i: int, k: int|
            0 <= i < views.len() && views[i] is Some && 0 <= k < views[i]->0.tier_masks.len() && (
            #[trigger] views[i]->0.tier_masks[k]).1 != 0;
        assert(views[i] == crate::prefix::block_view(blocks@[i]));
        assert(blocks@[i]->0.tier_masks@[k].1 == 0);
    }
    lemma_leading(blocks@);
}

/// The leading blocks that are held.
proof fn lemma_leading(blocks: Seq<Option<BlockComponents>>)
    ensures
        ({
            let n = crate::prefix::leading_held(crate::prefix::block_views(blocks));
            &&& n <= blocks.len()
            &&& forall|i: int| 0 <= i < n ==> (#[trigger] blocks[i]) is Some
            &&& n < blocks.len() ==> blocks[n as int] is None
        }),
    decreases blocks.len(),
{
    let views = crate::prefix::block_views(blocks);
    if blocks.len() > 0 {
        assert(views[0] == crate::prefix::block_view(blocks[0]));
        let rest = blocks.skip(1);
        lemma_leading(rest);
        assert(views.skip(1) =~= crate::prefix::block_views(rest));
        if blocks[0] is Some {
            let n = crate::prefix::leading_held(views);
            assert forall|i: int| 0 <= i < n implies (#[trigger] blocks[i]) is Some by {
                if i > 0 {
                    assert(rest[i - 1] is Some);
                }
            }
        }
    }
}

/// The leading blocks that a worker holds are counted up to the first gap.
pub proof fn leading_blocks_are_counted(blocks: &[Option<BlockComponents>], r: u32)
    requires
        call_ensures(legacy_contiguous_prefix, (blocks,), r),
        blocks@.len() <= u32::MAX,
    ensures
        r <= blocks@.len(),
        forall|i: int| 0 <= i < r ==> (#[trigger] blocks@[i]) is Some,
        r < blocks@.len() ==> blocks@[r as int] is None,
{
    lemma_leading(blocks@);
}

/// A worker reports components exactly where some placement of a held block has
/// a mask.
pub proof fn a_mask_is_the_sign_of_components(blocks: &[Option<BlockComponents>], r: bool)
    requires
        call_ensures(blocks_carry_components, (blocks,), r),
    ensures
        r <==> exists|i: int, k: int|
            #![trigger blocks@[i]->0.tier_masks@[k]]
            0 <= i < blocks@.len() && blocks@[i] is Some && 0 <= k
                < blocks@[i]->0.tier_masks@.len() && blocks@[i]->0.tier_masks@[k].1 != 0,
{
    let views = crate::prefix::block_views(blocks@);
    if crate::prefix::carries_components(views) {
        let (i, k) = choose|i: int, k: int|
            0 <= i < views.len() && views[i] is Some && 0 <= k < views[i]->0.tier_masks.len() && (
            #[trigger] views[i]->0.tier_masks[k]).1 != 0;
        assert(views[i] == crate::prefix::block_view(blocks@[i]));
        assert(blocks@[i]->0.tier_masks@[k].1 != 0);
    }
    if exists|i: int, k: int|
        #![trigger blocks@[i]->0.tier_masks@[k]]
        0 <= i < blocks@.len() && blocks@[i] is Some && 0 <= k < blocks@[i]->0.tier_masks@.len()
            && blocks@[i]->0.tier_masks@[k].1 != 0 {
        let (i, k) = choose|i: int, k: int|
            #![trigger blocks@[i]->0.tier_masks@[k]]
            0 <= i < blocks@.len() && blocks@[i] is Some && 0 <= k
                < blocks@[i]->0.tier_masks@.len() && blocks@[i]->0.tier_masks@[k].1 != 0;
        assert(views[i] == Some(blocks@[i]->0@));
        assert(views[i]->0.tier_masks[k].1 != 0);
    }
}

} // verus!
