//! The prefix rule engine: how much of a request a worker can serve.
//!
//! A worker's blocks are judged one boundary at a time. A boundary of `n`
//! blocks is reusable when every component that the worker's model needs is
//! where its rule wants it; the reusable prefix is the largest such boundary.
//! The engine never guesses: what it cannot interpret counts as nothing.

use vstd::prelude::*;

use crate::pb::{WorkerCacheSpec, TIER_DRAM, TIER_HBM};

verus! {

/// Component bits. A component's rule is a property of its type: the full
/// attention cache is needed on every block, the sliding-window cache over a
/// trailing window, the Mamba state on the last block.
pub const COMPONENT_FULL: u32 = 1;

pub const COMPONENT_SWA: u32 = 2;

pub const COMPONENT_MAMBA: u32 = 4;

/// How many leading blocks of a request are considered.
pub open spec fn considered(len: nat, max_blocks: u32) -> nat {
    if max_blocks == 0 || len <= max_blocks {
        len
    } else {
        max_blocks as nat
    }
}

/// Number of leading blocks to consider for a prefix query: bounded by the
/// request length and, when the caller set one, by `max_blocks`. Backends may
/// impose a scan cap of their own.
pub fn prefix_limit(len: usize, max_blocks: u32) -> (r: usize)
    ensures
        r == considered(len as nat, max_blocks),
{
    if max_blocks == 0 || len <= max_blocks as usize {
        len
    } else {
        max_blocks as usize
    }
}

/// The bit of a component label.
pub open spec fn component_bit_of(name: Seq<char>) -> Option<u32> {
    if name == "full"@ {
        Some(COMPONENT_FULL)
    } else if name == "swa"@ {
        Some(COMPONENT_SWA)
    } else if name == "mamba"@ {
        Some(COMPONENT_MAMBA)
    } else {
        None
    }
}

/// Maps an on-wire component label to its bit; `None` for a label that this
/// build does not model, so that an unknown component never counts.
pub fn component_bit(name: &str) -> (r: Option<u32>)
    ensures
        r == component_bit_of(name@),
{
    if crate::text::same_text(name, "full") {
        Some(COMPONENT_FULL)
    } else if crate::text::same_text(name, "swa") {
        Some(COMPONENT_SWA)
    } else if crate::text::same_text(name, "mamba") {
        Some(COMPONENT_MAMBA)
    } else {
        None
    }
}

/// Tiers from which the indexer counts a component as reusable, as a bitmask of
/// `1 << tier`: HBM and DRAM.
const SERVABLE_TIER_MASK: u32 = 6;

/// Highest [`WorkerCacheSpec`] version that this build can interpret. Version 0
/// is an unversioned spec and is read as the current one.
pub const SUPPORTED_SPEC_VERSION: u32 = 1;

/// Whether a bitmask of `1 << tier` holds `tier`.
pub open spec fn mask_has_tier(mask: u32, tier: i32) -> bool {
    0 <= tier < 32 && mask & (1u32 << (tier as u32)) != 0
}

/// Whether the indexer serves from `tier`.
pub open spec fn tier_is_servable(tier: i32) -> bool {
    tier == TIER_HBM || tier == TIER_DRAM
}

/// Whether `tier` is set in a bitmask of `1 << tier`. A tier beyond the width
/// of the mask is not.
pub fn tier_in_mask(mask: u32, tier: i32) -> (r: bool)
    ensures
        r == mask_has_tier(mask, tier),
{
    tier >= 0 && tier < 32 && mask & (1u32 << (tier as u32)) != 0
}

proof fn lemma_servable_mask(tier: i32)
    ensures
        mask_has_tier(SERVABLE_TIER_MASK, tier) == tier_is_servable(tier),
{
    let t = tier as u32;
    if 0 <= tier < 32 {
        assert(t < 32 ==> ((6u32 & (1u32 << t) != 0) <==> (t == 1 || t == 2))) by (bit_vector);
    }
}

/// The components of one block at one worker.
#[derive(Debug, Clone)]
pub struct BlockComponents {
    /// How many tokens the block covers.
    pub token_count: u32,
    /// `(tier, component bitmask)` for every tier at which the worker holds the
    /// block. A placement without component detail carries mask `0`.
    pub tier_masks: Vec<(i32, u32)>,
}

/// The model of a [`BlockComponents`].
pub struct BlockView {
    pub token_count: u32,
    pub tier_masks: Seq<(i32, u32)>,
}

impl View for BlockComponents {
    type V = BlockView;

    open spec fn view(&self) -> BlockView {
        BlockView { token_count: self.token_count, tier_masks: self.tier_masks@ }
    }
}

/// The model of a block that may not be held.
pub open spec fn block_view(block: Option<BlockComponents>) -> Option<BlockView> {
    match block {
        Some(b) => Some(b@),
        None => None,
    }
}

/// The models of a worker's blocks.
pub open spec fn block_views(blocks: Seq<Option<BlockComponents>>) -> Seq<Option<BlockView>> {
    blocks.map_values(|b: Option<BlockComponents>| block_view(b))
}

/// Whether the placement `i` of a block carries `component` at a tier that is
/// declared in `tier_mask` and servable.
pub open spec fn placement_serves(
    block: BlockView,
    i: int,
    component: u32,
    tier_mask: u32,
) -> bool {
    &&& 0 <= i < block.tier_masks.len()
    &&& block.tier_masks[i].1 & component != 0
    &&& tier_is_servable(block.tier_masks[i].0)
    &&& mask_has_tier(tier_mask, block.tier_masks[i].0)
}

/// Whether `component` is available on `block`: resident at some tier that is
/// both declared for it and servable by the indexer.
pub open spec fn available(block: Option<BlockView>, component: u32, tier_mask: u32) -> bool {
    block is Some && exists|i: int|
        #[trigger] placement_serves(block->0, i, component, tier_mask)
}

/// Whether `component` is resident on `block` at some tier that is both
/// declared for it and servable by the indexer.
pub fn component_available(
    block: &Option<BlockComponents>,
    component: u32,
    spec_tier_mask: u32,
) -> (r: bool)
    ensures
        r == available(block_view(*block), component, spec_tier_mask),
{
    match block {
        None => false,
        Some(held) => {
            let mut i: usize = 0;
            while i < held.tier_masks.len()
                invariant
                    i <= held.tier_masks@.len(),
                    *block == Some(*held),
                    forall|k: int|
                        0 <= k < i ==> !#[trigger] placement_serves(
                            held@,
                            k,
                            component,
                            spec_tier_mask,
                        ),
                decreases held.tier_masks@.len() - i,
            {
                let (tier, mask) = held.tier_masks[i];
                proof {
                    lemma_servable_mask(tier);
                }
                if mask & component != 0 && tier_in_mask(SERVABLE_TIER_MASK, tier) && tier_in_mask(
                    spec_tier_mask,
                    tier,
                ) {
                    assert(placement_serves(
                        block_view(*block)->0,
                        i as int,
                        component,
                        spec_tier_mask,
                    ));
                    return true;
                }
                i = i + 1;
            }
            false
        },
    }
}

/// The number of tokens in blocks `from..to`.
pub open spec fn tokens(blocks: Seq<Option<BlockView>>, from: int, to: int) -> nat
    decreases to - from,
{
    if to <= from {
        0
    } else {
        tokens(blocks, from, to - 1) + (match blocks[to - 1] {
            Some(b) => b.token_count as nat,
            None => 0,
        })
    }
}

/// Whether the full attention cache is available on every block below `n`.
pub open spec fn full_holds(spec: WorkerCacheSpec, blocks: Seq<Option<BlockView>>, n: int) -> bool {
    forall|i: int|
        0 <= i < n ==> available(#[trigger] blocks[i], COMPONENT_FULL, spec.full_tier_mask)
}

/// Whether the sliding-window cache is available on every block of `from..to`.
pub open spec fn swa_run(
    spec: WorkerCacheSpec,
    blocks: Seq<Option<BlockView>>,
    from: int,
    to: int,
) -> bool {
    forall|i: int|
        from <= i < to ==> available(#[trigger] blocks[i], COMPONENT_SWA, spec.swa_tier_mask)
}

/// Whether `from..n` is a run of sliding-window blocks that makes boundary `n`
/// valid: it reaches the head of the request or covers a whole window.
pub open spec fn swa_window(
    spec: WorkerCacheSpec,
    blocks: Seq<Option<BlockView>>,
    from: int,
    n: int,
) -> bool {
    &&& 0 <= from < n
    &&& swa_run(spec, blocks, from, n)
    &&& from == 0 || tokens(blocks, from, n) >= spec.swa_window_tokens
}

/// Whether the sliding-window rule holds at boundary `n`.
pub open spec fn swa_holds(spec: WorkerCacheSpec, blocks: Seq<Option<BlockView>>, n: int) -> bool {
    exists|from: int| #[trigger] swa_window(spec, blocks, from, n)
}

/// Whether the Mamba state is available on the block at boundary `n`.
pub open spec fn mamba_holds(spec: WorkerCacheSpec, blocks: Seq<Option<BlockView>>, n: int) -> bool {
    available(blocks[n - 1], COMPONENT_MAMBA, spec.mamba_tier_mask)
}

/// Whether the model needs the sliding-window cache.
pub open spec fn needs_swa(spec: WorkerCacheSpec) -> bool {
    spec.components & COMPONENT_SWA != 0
}

/// Whether the model needs the Mamba state.
pub open spec fn needs_mamba(spec: WorkerCacheSpec) -> bool {
    spec.components & COMPONENT_MAMBA != 0
}

/// Whether boundary `n` is reusable: every component that the model needs
/// satisfies its rule there.
pub open spec fn reusable(spec: WorkerCacheSpec, blocks: Seq<Option<BlockView>>, n: int) -> bool {
    &&& 1 <= n <= blocks.len()
    &&& full_holds(spec, blocks, n)
    &&& needs_swa(spec) ==> swa_holds(spec, blocks, n)
    &&& needs_mamba(spec) ==> mamba_holds(spec, blocks, n)
}

/// The largest reusable boundary that is at most `upto`; 0 when there is none.
pub open spec fn largest_boundary(
    spec: WorkerCacheSpec,
    blocks: Seq<Option<BlockView>>,
    upto: nat,
) -> nat
    decreases upto,
{
    if upto == 0 {
        0
    } else if reusable(spec, blocks, upto as int) {
        upto
    } else {
        largest_boundary(spec, blocks, (upto - 1) as nat)
    }
}

/// Whether a spec can be interpreted: it names components, its version is
/// known, and a sliding-window model declares its window.
pub open spec fn spec_is_usable(spec: WorkerCacheSpec) -> bool {
    &&& spec.components != 0
    &&& spec.version <= SUPPORTED_SPEC_VERSION
    &&& needs_swa(spec) ==> spec.swa_window_tokens > 0
}

/// The number of leading blocks that the worker holds.
pub open spec fn leading_held(blocks: Seq<Option<BlockView>>) -> nat
    decreases blocks.len(),
{
    if blocks.len() == 0 || blocks[0] is None {
        0
    } else {
        1 + leading_held(blocks.skip(1))
    }
}

/// Whether some held block carries component detail.
pub open spec fn carries_components(blocks: Seq<Option<BlockView>>) -> bool {
    exists|i: int, k: int|
        0 <= i < blocks.len() && blocks[i] is Some && 0 <= k < blocks[i]->0.tier_masks.len()
            && (#[trigger] blocks[i]->0.tier_masks[k]).1 != 0
}

/// The reusable prefix of a worker. Without a spec it is the number of leading
/// blocks held, unless the worker reports components that nobody declared. With
/// a spec it is the largest reusable boundary, if the spec can be interpreted.
/// It is counted modulo 2^32.
pub open spec fn worker_prefix(
    spec: Option<WorkerCacheSpec>,
    blocks: Seq<Option<BlockView>>,
) -> u32 {
    match spec {
        None => if carries_components(blocks) {
            0
        } else {
            leading_held(blocks) as u32
        },
        Some(s) => if spec_is_usable(s) {
            largest_boundary(s, blocks, blocks.len()) as u32
        } else {
            0
        },
    }
}

proof fn lemma_leading_held_at(blocks: Seq<Option<BlockView>>, n: int)
    requires
        0 <= n <= blocks.len(),
        forall|i: int| 0 <= i < n ==> (#[trigger] blocks[i]) is Some,
        n == blocks.len() || blocks[n] is None,
    ensures
        leading_held(blocks) == n,
    decreases blocks.len(),
{
    if n > 0 {
        assert(blocks[0] is Some);
        assert forall|i: int| 0 <= i < n - 1 implies (#[trigger] blocks.skip(1)[i]) is Some by {
            assert(blocks[i + 1] is Some);
        }
        lemma_leading_held_at(blocks.skip(1), n - 1);
    }
}

proof fn lemma_leading_held_bounds(blocks: Seq<Option<BlockView>>)
    ensures
        leading_held(blocks) <= blocks.len(),
        forall|i: int| 0 <= i < leading_held(blocks) ==> (#[trigger] blocks[i]) is Some,
        leading_held(blocks) < blocks.len() ==> blocks[leading_held(blocks) as int] is None,
    decreases blocks.len(),
{
    if blocks.len() > 0 && blocks[0] is Some {
        let rest = blocks.skip(1);
        lemma_leading_held_bounds(rest);
        assert forall|i: int| 0 <= i < leading_held(blocks) implies (#[trigger] blocks[i]) is Some by {
            if i > 0 {
                assert(rest[i - 1] is Some);
            }
        }
    }
}

/// The number of leading blocks that the worker holds, modulo 2^32.
pub fn legacy_contiguous_prefix(blocks: &[Option<BlockComponents>]) -> (r: u32)
    ensures
        r == leading_held(block_views(blocks@)) as u32,
{
    let ghost views = block_views(blocks@);
    let mut n: usize = 0;
    while n < blocks.len() && blocks[n].is_some()
        invariant
            n <= blocks@.len(),
            views == block_views(blocks@),
            forall|i: int| 0 <= i < n ==> (#[trigger] views[i]) is Some,
        decreases blocks@.len() - n,
    {
        n = n + 1;
    }
    proof {
        lemma_leading_held_at(views, n as int);
    }
    #[verifier::truncate]
    (n as u32)
}

/// Whether any held block carries a component mask: the sign that the worker
/// reports components.
pub fn blocks_carry_components(blocks: &[Option<BlockComponents>]) -> (r: bool)
    ensures
        r == carries_components(block_views(blocks@)),
{
    let ghost views = block_views(blocks@);
    let mut i: usize = 0;
    while i < blocks.len()
        invariant
            i <= blocks@.len(),
            views == block_views(blocks@),
            forall|a: int, k: int|
                0 <= a < i && views[a] is Some && 0 <= k < views[a]->0.tier_masks.len() ==> (
                #[trigger] views[a]->0.tier_masks[k]).1 == 0,
        decreases blocks@.len() - i,
    {
        if let Some(block) = &blocks[i] {
            assert(views[i as int] == Some(block@));
            let mut k: usize = 0;
            while k < block.tier_masks.len()
                invariant
                    k <= block.tier_masks@.len(),
                    i < blocks@.len(),
                    views == block_views(blocks@),
                    views[i as int] == Some(block@),
                    forall|j: int| 0 <= j < k ==> (#[trigger] block.tier_masks@[j]).1 == 0,
                decreases block.tier_masks@.len() - k,
            {
                if block.tier_masks[k].1 != 0 {
                    assert(views[i as int]->0.tier_masks[k as int].1 != 0);
                    return true;
                }
                k = k + 1;
            }
        }
        i = i + 1;
    }
    false
}

proof fn lemma_tokens_extends(blocks: Seq<Option<BlockView>>, from: int, mid: int, to: int)
    requires
        from <= mid <= to,
    ensures
        tokens(blocks, mid, to) <= tokens(blocks, from, to),
    decreases to - mid,
{
    if mid < to {
        lemma_tokens_extends(blocks, from, mid, to - 1);
    }
}

proof fn lemma_largest_boundary_skips(
    spec: WorkerCacheSpec,
    blocks: Seq<Option<BlockView>>,
    best: nat,
    upto: nat,
)
    requires
        best <= upto,
        best > 0 ==> reusable(spec, blocks, best as int),
        forall|n: int| best < n <= upto ==> !reusable(spec, blocks, n),
    ensures
        largest_boundary(spec, blocks, upto) == best,
    decreases upto,
{
    if best < upto {
        assert(!reusable(spec, blocks, upto as int));
        lemma_largest_boundary_skips(spec, blocks, best, (upto - 1) as nat);
    }
}

/// Decides the sliding-window rule at boundary `n` from the run that ends
/// there: the run cannot be extended to the left, so any window lies within it.
proof fn lemma_swa_rule_at(
    spec: WorkerCacheSpec,
    blocks: Seq<Option<BlockView>>,
    start: int,
    n: int,
)
    requires
        0 <= start < n <= blocks.len(),
        swa_run(spec, blocks, start, n),
        start > 0 ==> !available(blocks[start - 1], COMPONENT_SWA, spec.swa_tier_mask),
    ensures
        swa_holds(spec, blocks, n) <==> (start == 0 || tokens(blocks, start, n)
            >= spec.swa_window_tokens),
{
    if start == 0 || tokens(blocks, start, n) >= spec.swa_window_tokens {
        assert(swa_window(spec, blocks, start, n));
    }
    if swa_holds(spec, blocks, n) {
        let from = choose|from: int| #[trigger] swa_window(spec, blocks, from, n);
        if from < start {
            assert(available(blocks[start - 1], COMPONENT_SWA, spec.swa_tier_mask));
        }
        lemma_tokens_extends(blocks, start, from, n);
    }
}

/// The tokens of the blocks from `from` to `to`, as far as they can be counted.
spec fn counted_tokens(blocks: Seq<Option<BlockView>>, from: int, to: int) -> u64 {
    if tokens(blocks, from, to) <= u64::MAX {
        tokens(blocks, from, to) as u64
    } else {
        u64::MAX
    }
}

/// The largest boundary at which every needed component satisfies its rule, in
/// one forward scan, modulo 2^32.
pub fn component_aware_prefix(
    spec: &WorkerCacheSpec,
    blocks: &[Option<BlockComponents>],
) -> (r: u32)
    ensures
        r == if needs_swa(*spec) && spec.swa_window_tokens == 0 {
            0
        } else {
            largest_boundary(*spec, block_views(blocks@), blocks@.len()) as u32
        },
{
    let swa_required = spec.components & COMPONENT_SWA != 0;
    let mamba_required = spec.components & COMPONENT_MAMBA != 0;
    let window: u64 = spec.swa_window_tokens as u64;
    if swa_required && window == 0 {
        return 0;
    }
    let ghost views = block_views(blocks@);
    let mut best: usize = 0;
    // Tokens of the unbroken sliding-window run that ends before `index`, as far
    // as they can be counted.
    let mut run: u64 = 0;
    let ghost mut run_start: int = 0;
    let mut head_broken: bool = false;
    let mut index: usize = 0;
    while index < blocks.len()
        invariant
            index <= blocks@.len(),
            views == block_views(blocks@),
            views.len() == blocks@.len(),
            swa_required == needs_swa(*spec),
            mamba_required == needs_mamba(*spec),
            window == spec.swa_window_tokens,
            !(swa_required && window == 0),
            best <= index,
            full_holds(*spec, views, index as int),
            best > 0 ==> reusable(*spec, views, best as int),
            forall|n: int| best < n <= index ==> !reusable(*spec, views, n),
            swa_required ==> {
                &&& 0 <= run_start <= index
                &&& swa_run(*spec, views, run_start, index as int)
                &&& head_broken <==> run_start > 0
                &&& run_start > 0 ==> !available(
                    views[run_start - 1],
                    COMPONENT_SWA,
                    spec.swa_tier_mask,
                )
                &&& run == counted_tokens(views, run_start, index as int)
            },
        decreases blocks@.len() - index,
    {
        let block = &blocks[index];
        assert(views[index as int] == block_view(*block));
        if !component_available(block, COMPONENT_FULL, spec.full_tier_mask) {
            proof {
                assert forall|n: int| best < n <= views.len() implies !reusable(
                    *spec,
                    views,
                    n,
                ) by {
                    if n > index {
                        assert(!available(
                            views[index as int],
                            COMPONENT_FULL,
                            spec.full_tier_mask,
                        ));
                    }
                }
                lemma_largest_boundary_skips(*spec, views, best as nat, views.len());
            }
            return
                #[verifier::truncate]
                (best as u32);
        }
        let mut boundary_ok = true;
        if swa_required {
            if component_available(block, COMPONENT_SWA, spec.swa_tier_mask) {
                let count: u64 = match block {
                    Some(b) => b.token_count as u64,
                    None => 0,
                };
                run = run.saturating_add(count);
                // The run is long enough when it reaches the head of the
                // request or fills a window.
                boundary_ok = !head_broken || run >= window;
                proof {
                    lemma_swa_rule_at(*spec, views, run_start, index + 1);
                }
            } else {
                run = 0;
                head_broken = true;
                boundary_ok = false;
                proof {
                    run_start = index + 1;
                    if swa_holds(*spec, views, index + 1) {
                        let from = choose|from: int|
                            #[trigger] swa_window(*spec, views, from, index + 1);
                        assert(available(views[index as int], COMPONENT_SWA, spec.swa_tier_mask));
                    }
                }
            }
        }
        if mamba_required {
            let present = component_available(block, COMPONENT_MAMBA, spec.mamba_tier_mask);
            boundary_ok = boundary_ok && present;
        }
        assert(boundary_ok == reusable(*spec, views, index + 1));
        if boundary_ok {
            best = index + 1;
        }
        index = index + 1;
    }
    proof {
        lemma_largest_boundary_skips(*spec, views, best as nat, views.len());
    }
    #[verifier::truncate]
    (best as u32)
}

/// The reusable prefix length of one worker: a safe lower bound on what it can
/// serve, 0 when the worker's placements cannot be interpreted.
pub fn compute_worker_prefix(
    spec: Option<&WorkerCacheSpec>,
    blocks: &[Option<BlockComponents>],
) -> (r: u32)
    ensures
        r == worker_prefix(
            match spec {
                Some(s) => Some(*s),
                None => None,
            },
            block_views(blocks@),
        ),
{
    match spec {
        None => {
            if blocks_carry_components(blocks) {
                0
            } else {
                legacy_contiguous_prefix(blocks)
            }
        },
        Some(spec) => {
            if spec.components == 0 || spec.version > SUPPORTED_SPEC_VERSION {
                0
            } else {
                component_aware_prefix(spec, blocks)
            }
        },
    }
}

proof fn lemma_largest_boundary(spec: WorkerCacheSpec, blocks: Seq<Option<BlockView>>, upto: nat)
    ensures
        largest_boundary(spec, blocks, upto) <= upto,
        largest_boundary(spec, blocks, upto) > 0 ==> reusable(
            spec,
            blocks,
            largest_boundary(spec, blocks, upto) as int,
        ),
        forall|n: int|
            largest_boundary(spec, blocks, upto) < n <= upto ==> !reusable(spec, blocks, n),
    decreases upto,
{
    if upto > 0 && !reusable(spec, blocks, upto as int) {
        lemma_largest_boundary(spec, blocks, (upto - 1) as nat);
    }
}

/// Under a usable spec, every component rule holds at the reported prefix and
/// at no longer one.
pub proof fn prefix_is_the_largest_reusable_boundary(
    spec: WorkerCacheSpec,
    blocks: Seq<Option<BlockView>>,
)
    requires
        spec_is_usable(spec),
        blocks.len() <= u32::MAX,
    ensures
        ({
            let prefix = worker_prefix(Some(spec), blocks);
            &&& prefix <= blocks.len()
            &&& prefix > 0 ==> reusable(spec, blocks, prefix as int)
            &&& forall|n: int| prefix < n <= blocks.len() ==> !reusable(spec, blocks, n)
        }),
{
    lemma_largest_boundary(spec, blocks, blocks.len());
}

/// The reported prefix is never longer than what the worker holds: it has every
/// block of it, and under a spec it has the full attention cache of every block
/// at a servable tier.
pub proof fn prefix_is_held_by_the_worker(
    spec: Option<WorkerCacheSpec>,
    blocks: Seq<Option<BlockView>>,
)
    requires
        blocks.len() <= u32::MAX,
    ensures
        worker_prefix(spec, blocks) <= leading_held(blocks) <= blocks.len(),
        forall|i: int| 0 <= i < worker_prefix(spec, blocks) ==> (#[trigger] blocks[i]) is Some,
        spec is Some ==> forall|i: int|
            0 <= i < worker_prefix(spec, blocks) ==> available(
                #[trigger] blocks[i],
                COMPONENT_FULL,
                spec->0.full_tier_mask,
            ),
{
    lemma_leading_held_bounds(blocks);
    if let Some(s) = spec {
        lemma_largest_boundary(s, blocks, blocks.len());
        let prefix = worker_prefix(spec, blocks);
        assert forall|i: int| 0 <= i < prefix implies available(
            #[trigger] blocks[i],
            COMPONENT_FULL,
            s.full_tier_mask,
        ) by {
            assert(reusable(s, blocks, prefix as int));
        }
        assert forall|i: int| 0 <= i < prefix implies (#[trigger] blocks[i]) is Some by {
            assert(available(blocks[i], COMPONENT_FULL, s.full_tier_mask));
        }
        if leading_held(blocks) < prefix {
            assert(blocks[leading_held(blocks) as int] is Some);
        }
    }
}

/// Without a spec and without component detail, the prefix stops exactly at the
/// first block that the worker does not hold.
pub proof fn whole_block_prefix_stops_at_the_first_gap(
    blocks: Seq<Option<BlockView>>,
    gap: int,
)
    requires
        !carries_components(blocks),
        0 <= gap <= blocks.len() <= u32::MAX,
        forall|i: int| 0 <= i < gap ==> (#[trigger] blocks[i]) is Some,
        gap == blocks.len() || blocks[gap] is None,
    ensures
        worker_prefix(None, blocks) == gap,
{
    lemma_leading_held_at(blocks, gap);
}

/// A block that is resident at no servable tier ends the prefix before it.
pub proof fn unservable_block_ends_the_prefix(
    spec: WorkerCacheSpec,
    blocks: Seq<Option<BlockView>>,
    at: int,
)
    requires
        0 <= at < blocks.len() <= u32::MAX,
        blocks[at] matches Some(b) ==> forall|k: int|
            0 <= k < b.tier_masks.len() ==> !tier_is_servable((#[trigger] b.tier_masks[k]).0),
    ensures
        worker_prefix(Some(spec), blocks) <= at,
{
    lemma_largest_boundary(spec, blocks, blocks.len());
    let prefix = worker_prefix(Some(spec), blocks);
    if prefix > at {
        assert(reusable(spec, blocks, prefix as int));
        assert(available(blocks[at], COMPONENT_FULL, spec.full_tier_mask));
    }
}

/// Whether `less` offers no component that `more` does not, and no more tokens
/// where both are held.
pub open spec fn offers_no_more(less: Option<BlockView>, more: Option<BlockView>) -> bool {
    &&& forall|component: u32, tier_mask: u32|
        available(less, component, tier_mask) ==> #[trigger] available(more, component, tier_mask)
    &&& less is Some && more is Some ==> less->0.token_count <= more->0.token_count
}

proof fn lemma_tokens_of_less(
    less: Seq<Option<BlockView>>,
    more: Seq<Option<BlockView>>,
    from: int,
    to: int,
)
    requires
        0 <= from <= to <= less.len() == more.len(),
        forall|i: int| 0 <= i < less.len() ==> offers_no_more(#[trigger] less[i], more[i]),
        forall|i: int| from <= i < to ==> (#[trigger] less[i]) is Some,
        forall|i: int| from <= i < to ==> (#[trigger] more[i]) is Some,
    ensures
        tokens(less, from, to) <= tokens(more, from, to),
    decreases to - from,
{
    if from < to {
        lemma_tokens_of_less(less, more, from, to - 1);
        assert(offers_no_more(less[to - 1], more[to - 1]));
        assert(less[to - 1] is Some);
        assert(more[to - 1] is Some);
    }
}

/// Losing placements never makes a prefix longer: the engine under-reports on
/// missing information.
pub proof fn losing_placements_never_lengthens_the_prefix(
    spec: WorkerCacheSpec,
    less: Seq<Option<BlockView>>,
    more: Seq<Option<BlockView>>,
)
    requires
        less.len() == more.len() <= u32::MAX,
        forall|i: int| 0 <= i < less.len() ==> offers_no_more(#[trigger] less[i], more[i]),
    ensures
        worker_prefix(Some(spec), less) <= worker_prefix(Some(spec), more),
{
    let limit = less.len();
    lemma_largest_boundary(spec, less, limit);
    lemma_largest_boundary(spec, more, limit);
    let n = largest_boundary(spec, less, limit) as int;
    if n > 0 {
        assert(reusable(spec, less, n));
        assert forall|i: int| 0 <= i < n implies available(
            #[trigger] more[i],
            COMPONENT_FULL,
            spec.full_tier_mask,
        ) by {
            assert(offers_no_more(less[i], more[i]));
            assert(available(less[i], COMPONENT_FULL, spec.full_tier_mask));
        }
        if needs_swa(spec) {
            let from = choose|from: int| #[trigger] swa_window(spec, less, from, n);
            assert(swa_window(spec, less, from, n));
            assert forall|i: int| from <= i < n implies available(
                #[trigger] more[i],
                COMPONENT_SWA,
                spec.swa_tier_mask,
            ) by {
                assert(offers_no_more(less[i], more[i]));
                assert(available(less[i], COMPONENT_SWA, spec.swa_tier_mask));
            }
            assert forall|i: int| from <= i < n implies (#[trigger] less[i]) is Some by {
                assert(available(less[i], COMPONENT_SWA, spec.swa_tier_mask));
            }
            lemma_tokens_of_less(less, more, from, n);
            assert(swa_window(spec, more, from, n));
        }
        if needs_mamba(spec) {
            assert(offers_no_more(less[n - 1], more[n - 1]));
        }
        assert(reusable(spec, more, n));
    }
}

proof fn lemma_tokens_of_take(blocks: Seq<Option<BlockView>>, k: int, from: int, to: int)
    requires
        0 <= from,
        to <= k <= blocks.len(),
    ensures
        tokens(blocks.take(k), from, to) == tokens(blocks, from, to),
    decreases to - from,
{
    if from < to {
        lemma_tokens_of_take(blocks, k, from, to - 1);
    }
}

/// Whether a boundary is reusable does not depend on the blocks behind it.
pub proof fn boundary_ignores_later_blocks(
    spec: WorkerCacheSpec,
    blocks: Seq<Option<BlockView>>,
    k: int,
    n: int,
)
    requires
        0 <= n <= k <= blocks.len(),
    ensures
        reusable(spec, blocks.take(k), n) == reusable(spec, blocks, n),
{
    let short = blocks.take(k);
    if n > 0 {
        if full_holds(spec, short, n) {
            assert forall|i: int| 0 <= i < n implies available(
                #[trigger] blocks[i],
                COMPONENT_FULL,
                spec.full_tier_mask,
            ) by {
                assert(short[i] == blocks[i]);
            }
        }
        if swa_holds(spec, short, n) {
            let from = choose|from: int| #[trigger] swa_window(spec, short, from, n);
            assert(swa_window(spec, short, from, n));
            lemma_tokens_of_take(blocks, k, from, n);
            assert forall|i: int| from <= i < n implies available(
                #[trigger] blocks[i],
                COMPONENT_SWA,
                spec.swa_tier_mask,
            ) by {
                assert(short[i] == blocks[i]);
            }
            assert(swa_window(spec, blocks, from, n));
        }
        if swa_holds(spec, blocks, n) {
            let from = choose|from: int| #[trigger] swa_window(spec, blocks, from, n);
            assert(swa_window(spec, blocks, from, n));
            lemma_tokens_of_take(blocks, k, from, n);
            assert(swa_window(spec, short, from, n));
        }
    }
}

/// Asking about more blocks never shortens the prefix.
pub proof fn longer_request_never_shortens_the_prefix(
    spec: WorkerCacheSpec,
    blocks: Seq<Option<BlockView>>,
    k: int,
)
    requires
        0 <= k <= blocks.len() <= u32::MAX,
    ensures
        worker_prefix(Some(spec), blocks.take(k)) <= worker_prefix(Some(spec), blocks),
{
    let short = blocks.take(k);
    lemma_largest_boundary(spec, short, short.len());
    lemma_largest_boundary(spec, blocks, blocks.len());
    let n = largest_boundary(spec, short, short.len()) as int;
    boundary_ignores_later_blocks(spec, blocks, k, n);
}

} // verus!
