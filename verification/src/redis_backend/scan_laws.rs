//! What a prefix scan finds, whatever windows it reads in.

use vstd::prelude::*;

use crate::pb::HashSpecView;
use crate::ranking::TieBreak;
use crate::redis_backend::replies::{OwnerView, RegistryView};
use crate::redis_backend::scan::{
    CandidateView, ScanView, PREFIX_HIT_MAX_BLOCKS, PREFIX_SCAN_CHUNK,
};

verus! {

/// Where a candidate ends up over the given blocks: it takes in the leading ones
/// that are placed on it and stops at the first gap.
pub open spec fn ran(c: CandidateView, rows: Seq<Seq<OwnerView>>) -> CandidateView
    decreases rows.len(),
{
    if rows.len() == 0 || !crate::redis_backend::scan::keeps(c, rows[0]) {
        c
    } else {
        ran(crate::redis_backend::scan::extended(c, rows[0]), rows.drop_first())
    }
}

/// Where each candidate ends up.
pub open spec fn all_ran(s: Seq<CandidateView>, rows: Seq<Seq<OwnerView>>) -> Seq<CandidateView> {
    s.map_values(|c: CandidateView| ran(c, rows))
}

/// How many of the given blocks, from the first on, are placed on a worker.
pub open spec fn run_length(rows: Seq<Seq<OwnerView>>, worker: Seq<char>, generation: i64) -> nat
    decreases rows.len(),
{
    if rows.len() == 0 || !crate::redis_backend::scan::holds(rows[0], worker, generation) {
        0
    } else {
        1 + run_length(rows.drop_first(), worker, generation)
    }
}

/// Walking in two windows is walking in one.
pub proof fn windows_do_not_change_the_walk(
    v: ScanView,
    first: Seq<Seq<OwnerView>>,
    second: Seq<Seq<OwnerView>>,
)
    ensures
        crate::redis_backend::scan::walk(v, first + second) == crate::redis_backend::scan::walk(
            crate::redis_backend::scan::walk(v, first),
            second,
        ),
    decreases second.len(),
{
    if second.len() == 0 {
        assert(first + second =~= first);
    } else {
        windows_do_not_change_the_walk(v, first, second.drop_last());
        assert((first + second).drop_last() =~= first + second.drop_last());
    }
}

/// Once every candidate has stalled, further blocks change nothing.
pub proof fn walk_ends_with_the_last_candidate(v: ScanView, rows: Seq<Seq<OwnerView>>)
    requires
        v.extending.len() == 0,
    ensures
        crate::redis_backend::scan::walk(v, rows) == v,
    decreases rows.len(),
{
    reveal_with_fuel(Seq::filter, 1);
    if rows.len() > 0 {
        walk_ends_with_the_last_candidate(v, rows.drop_last());
        let row = rows.last();
        assert(crate::redis_backend::scan::kept_by(v.extending, row) =~= v.extending);
        assert(v.stalled + crate::redis_backend::scan::dropped_by(v.extending, row) =~= v.stalled);
    }
}

proof fn lemma_walk_from_the_front(v: ScanView, rows: Seq<Seq<OwnerView>>)
    requires
        rows.len() > 0,
    ensures
        crate::redis_backend::scan::walk(v, rows) == crate::redis_backend::scan::walk(
            crate::redis_backend::scan::step(v, rows[0]),
            rows.drop_first(),
        ),
{
    let one = seq![rows[0]];
    reveal_with_fuel(crate::redis_backend::scan::walk, 2);
    assert(one.drop_last() =~= Seq::<Seq<OwnerView>>::empty());
    assert(crate::redis_backend::scan::walk(v, one) == crate::redis_backend::scan::step(
        v,
        rows[0],
    ));
    windows_do_not_change_the_walk(v, one, rows.drop_first());
    assert(one + rows.drop_first() =~= rows);
}

/// One block splits the candidates in two and loses none.
proof fn lemma_block_splits_candidates(s: Seq<CandidateView>, rows: Seq<Seq<OwnerView>>)
    requires
        rows.len() > 0,
    ensures
        (crate::redis_backend::scan::dropped_by(s, rows[0]) + all_ran(
            crate::redis_backend::scan::kept_by(s, rows[0]),
            rows.drop_first(),
        )).to_multiset() =~= all_ran(s, rows).to_multiset(),
    decreases s.len(),
{
    broadcast use vstd::seq_lib::group_to_multiset_ensures;

    reveal_with_fuel(Seq::filter, 1);
    let row = rows[0];
    let rest = rows.drop_first();
    let keep = |c: CandidateView| crate::redis_backend::scan::keeps(c, row);
    let drop = |c: CandidateView| !crate::redis_backend::scan::keeps(c, row);
    let dropped = crate::redis_backend::scan::dropped_by(s, row);
    let kept = all_ran(crate::redis_backend::scan::kept_by(s, row), rest);
    if s.len() == 0 {
        assert(dropped + kept =~= all_ran(s, rows));
    } else {
        let head = s.drop_last();
        let c = s.last();
        let head_dropped = crate::redis_backend::scan::dropped_by(head, row);
        let head_kept = all_ran(crate::redis_backend::scan::kept_by(head, row), rest);
        lemma_block_splits_candidates(head, rows);
        assert(s =~= head.push(c));
        head.lemma_filter_push(c, keep);
        head.lemma_filter_push(c, drop);
        assert(all_ran(s, rows) =~= all_ran(head, rows).push(ran(c, rows)));
        vstd::seq_lib::lemma_multiset_commutative(head_dropped, head_kept);
        vstd::seq_lib::lemma_multiset_commutative(dropped, kept);
        if keep(c) {
            assert(!drop(c));
            assert(dropped =~= head_dropped);
            assert(kept =~= head_kept.push(ran(c, rows)));
        } else {
            assert(drop(c));
            assert(dropped =~= head_dropped.push(c));
            assert(kept =~= head_kept);
        }
    }
}

/// A walk follows every candidate to its first gap: none is lost, none is
/// added, and each ends with exactly the leading blocks that are placed on it.
pub proof fn walk_follows_every_candidate(v: ScanView, rows: Seq<Seq<OwnerView>>)
    ensures
        crate::redis_backend::scan::settled(
            crate::redis_backend::scan::walk(v, rows),
        ).to_multiset() =~= (v.stalled + all_ran(v.extending, rows)).to_multiset(),
    decreases rows.len(),
{
    broadcast use vstd::seq_lib::group_to_multiset_ensures;

    if rows.len() == 0 {
        assert(all_ran(v.extending, rows) =~= v.extending);
    } else {
        let row = rows[0];
        let rest = rows.drop_first();
        let next = crate::redis_backend::scan::step(v, row);
        let dropped = crate::redis_backend::scan::dropped_by(v.extending, row);
        let kept = all_ran(next.extending, rest);
        lemma_walk_from_the_front(v, rows);
        walk_follows_every_candidate(next, rest);
        lemma_block_splits_candidates(v.extending, rows);
        assert(next.stalled + kept =~= v.stalled + (dropped + kept));
        vstd::seq_lib::lemma_multiset_commutative(v.stalled, dropped + kept);
        vstd::seq_lib::lemma_multiset_commutative(v.stalled, all_ran(v.extending, rows));
    }
}

/// A candidate gains one block for each leading block that is placed on it, and
/// keeps its identity.
pub proof fn candidate_gains_its_leading_run(c: CandidateView, rows: Seq<Seq<OwnerView>>)
    ensures
        ran(c, rows).matched == c.matched + run_length(rows, c.worker, c.generation),
        ran(c, rows).worker == c.worker,
        ran(c, rows).address == c.address,
        ran(c, rows).dp_rank == c.dp_rank,
        ran(c, rows).generation == c.generation,
    decreases rows.len(),
{
    if rows.len() > 0 && crate::redis_backend::scan::keeps(c, rows[0]) {
        candidate_gains_its_leading_run(
            crate::redis_backend::scan::extended(c, rows[0]),
            rows.drop_first(),
        );
    }
}

/// The run of a worker is an unbroken stretch of blocks placed on it, and it
/// ends at the first block that is not.
pub proof fn run_stops_at_the_first_gap(
    rows: Seq<Seq<OwnerView>>,
    worker: Seq<char>,
    generation: i64,
)
    ensures
        run_length(rows, worker, generation) <= rows.len(),
        forall|i: int|
            0 <= i < run_length(rows, worker, generation) ==> crate::redis_backend::scan::holds(
                #[trigger] rows[i],
                worker,
                generation,
            ),
        run_length(rows, worker, generation) < rows.len() ==> !crate::redis_backend::scan::holds(
            rows[run_length(rows, worker, generation) as int],
            worker,
            generation,
        ),
    decreases rows.len(),
{
    if rows.len() > 0 && crate::redis_backend::scan::holds(rows[0], worker, generation) {
        let rest = rows.drop_first();
        run_stops_at_the_first_gap(rest, worker, generation);
        assert forall|i: int|
            0 <= i < run_length(
                rows,
                worker,
                generation,
            ) implies crate::redis_backend::scan::holds(#[trigger] rows[i], worker, generation) by {
            if i > 0 {
                assert(rest[i - 1] == rows[i]);
            }
        }
    }
}

/// Blocks that are lost in between never make a run longer.
pub proof fn lost_blocks_never_lengthen_a_run(
    less: Seq<Seq<OwnerView>>,
    more: Seq<Seq<OwnerView>>,
    worker: Seq<char>,
    generation: i64,
)
    requires
        less.len() == more.len(),
        forall|i: int|
            0 <= i < less.len() && crate::redis_backend::scan::holds(
                #[trigger] less[i],
                worker,
                generation,
            ) ==> crate::redis_backend::scan::holds(more[i], worker, generation),
    ensures
        run_length(less, worker, generation) <= run_length(more, worker, generation),
    decreases less.len(),
{
    if less.len() > 0 && crate::redis_backend::scan::holds(less[0], worker, generation) {
        let a = less.drop_first();
        let b = more.drop_first();
        assert forall|i: int|
            0 <= i < a.len() && crate::redis_backend::scan::holds(
                #[trigger] a[i],
                worker,
                generation,
            ) implies crate::redis_backend::scan::holds(b[i], worker, generation) by {
            assert(a[i] == less[i + 1]);
            assert(b[i] == more[i + 1]);
        }
        lost_blocks_never_lengthen_a_run(a, b, worker, generation);
    }
}

/// A worker that is otherwise usable is dropped for its hash space exactly when
/// both sides state one and the two differ.
pub proof fn hash_space_disagreement_is_found(
    owner: OwnerView,
    view: RegistryView,
    asked: Option<HashSpecView>,
    recorded: Option<HashSpecView>,
)
    requires
        view.alive,
        view.address.len() > 0,
        owner.generation == view.generation,
        view.spec == crate::redis_backend::apply::stored_spec(recorded),
    ensures
        crate::redis_backend::scan::verdict(
            owner,
            view,
            crate::redis_backend::codec::checked_spec(asked),
        ) is Mismatched <==> asked is Some && asked->0.block_size > 0 && recorded is Some
            && recorded->0.block_size > 0 && asked->0 != recorded->0,
{
    if asked is Some && recorded is Some {
        let a = asked->0;
        let b = recorded->0;
        crate::text::decimal_characters(b.block_size as int);
        if crate::redis_backend::codec::hash_spec_text(a)
            == crate::redis_backend::codec::hash_spec_text(b) {
            crate::redis_backend::codec::hash_spec_encoding_is_injective(a, b);
        }
    }
}

/// A reported tier is one at which some block of the prefix is placed, and
/// every such tier is reported.
pub proof fn reported_tiers_are_those_of_the_prefix(
    c: CandidateView,
    rows: Seq<Seq<OwnerView>>,
    tier: i32,
)
    ensures
        crate::redis_backend::codec::placed_at(ran(c, rows).mask, tier) <==> (
        crate::redis_backend::codec::placed_at(c.mask, tier) || exists|i: int|
            0 <= i < run_length(rows, c.worker, c.generation)
                && crate::redis_backend::codec::placed_at(
                crate::redis_backend::scan::owner_entry(#[trigger] rows[i], c.worker)->0.mask,
                tier,
            )),
    decreases rows.len(),
{
    if rows.len() > 0 && crate::redis_backend::scan::keeps(c, rows[0]) {
        let rest = rows.drop_first();
        let next = crate::redis_backend::scan::extended(c, rows[0]);
        let mask = crate::redis_backend::scan::owner_entry(rows[0], c.worker)->0.mask;
        reported_tiers_are_those_of_the_prefix(next, rest, tier);
        crate::redis_backend::codec::joined_masks_place_at_both(c.mask, mask, tier);
        run_stops_at_the_first_gap(rest, c.worker, c.generation);
        let n = run_length(rest, c.worker, c.generation) as int;
        if exists|i: int|
            0 <= i < n && crate::redis_backend::codec::placed_at(
                crate::redis_backend::scan::owner_entry(#[trigger] rest[i], c.worker)->0.mask,
                tier,
            ) {
            let i = choose|i: int|
                0 <= i < n && crate::redis_backend::codec::placed_at(
                    crate::redis_backend::scan::owner_entry(#[trigger] rest[i], c.worker)->0.mask,
                    tier,
                );
            assert(rest[i] == rows[i + 1]);
        }
        if exists|i: int|
            0 <= i < n + 1 && crate::redis_backend::codec::placed_at(
                crate::redis_backend::scan::owner_entry(#[trigger] rows[i], c.worker)->0.mask,
                tier,
            ) {
            let i = choose|i: int|
                0 <= i < n + 1 && crate::redis_backend::codec::placed_at(
                    crate::redis_backend::scan::owner_entry(#[trigger] rows[i], c.worker)->0.mask,
                    tier,
                );
            if i > 0 {
                assert(rest[i - 1] == rows[i]);
            }
        }
    }
}

/// A scan run to its end. `rows` are the placements of the blocks behind the
/// first one.
pub open spec fn scanned(v: ScanView, rows: Seq<Seq<OwnerView>>) -> ScanView
    decreases v.limit - v.queried,
{
    match crate::redis_backend::scan::window_end(v) {
        Some(end) => if 1 <= v.queried < end <= rows.len() + 1 {
            proof {
                walk_keeps_the_limit(v, rows.subrange(v.queried - 1, end - 1));
            }
            scanned(
                crate::redis_backend::scan::absorbed(v, rows.subrange(v.queried - 1, end - 1)),
                rows,
            )
        } else {
            v
        },
        None => v,
    }
}

/// Walking does not change how far a scan may read.
pub proof fn walk_keeps_the_limit(v: ScanView, rows: Seq<Seq<OwnerView>>)
    ensures
        crate::redis_backend::scan::walk(v, rows).limit == v.limit,
    decreases rows.len(),
{
    if rows.len() > 0 {
        walk_keeps_the_limit(v, rows.drop_last());
    }
}

/// Whether no worker is among the candidates twice.
pub open spec fn workers_differ(s: Seq<CandidateView>) -> bool {
    forall|i: int, j: int| 0 <= i < j < s.len() ==> (#[trigger] s[i]).worker != (#[trigger] s[j]).worker
}

pub(crate) proof fn lemma_mapping_keeps_multisets<A, B>(a: Seq<A>, b: Seq<A>, f: spec_fn(A) -> B)
    requires
        a.to_multiset() == b.to_multiset(),
    ensures
        a.map_values(f).to_multiset() == b.map_values(f).to_multiset(),
    decreases a.len(),
{
    broadcast use vstd::seq_lib::group_to_multiset_ensures;

    assert(a.len() == a.to_multiset().len());
    assert(b.len() == b.to_multiset().len());
    if a.len() == 0 {
        assert(a.map_values(f) =~= b.map_values(f));
    } else {
        let x = a.last();
        assert(a.to_multiset().count(x) > 0);
        assert(b.contains(x));
        let k = choose|k: int| 0 <= k < b.len() && b[k] == x;
        let rest = b.remove(k);
        assert(a =~= a.drop_last().push(x));
        assert(a.drop_last().to_multiset() =~= a.to_multiset().remove(x));
        assert(rest.to_multiset() =~= b.to_multiset().remove(x));
        lemma_mapping_keeps_multisets(a.drop_last(), rest, f);
        assert(a.map_values(f) =~= a.drop_last().map_values(f).push(f(x)));
        assert(rest.map_values(f) =~= b.map_values(f).remove(k));
        assert(b.map_values(f).remove(k).to_multiset() =~= b.map_values(f).to_multiset().remove(
            f(x),
        ));
        assert(b.map_values(f).contains(b.map_values(f)[k]));
    }
}

/// The bookkeeping of a scan after one more window.
pub(crate) proof fn lemma_absorbed_is_valid(v: ScanView, rows: Seq<Seq<OwnerView>>)
    requires
        crate::redis_backend::scan::scan_is_valid(v),
        crate::redis_backend::scan::window_end(v) == Some(v.queried + rows.len()),
    ensures
        crate::redis_backend::scan::scan_is_valid(crate::redis_backend::scan::absorbed(v, rows)),
{
    crate::redis_backend::scan::walk_keeps_the_bookkeeping(v, rows);
}

/// A scan run to its end has the candidates that one walk over all blocks
/// leaves, and nothing about it but how far it read depends on its windows.
pub proof fn scan_is_one_walk(v: ScanView, rows: Seq<Seq<OwnerView>>)
    requires
        crate::redis_backend::scan::scan_is_valid(v),
        rows.len() == v.limit - 1,
    ensures
        ({
            let end = scanned(v, rows);
            let walked = crate::redis_backend::scan::walk(v, rows.skip(v.queried - 1));
            &&& crate::redis_backend::scan::scan_is_valid(end)
            &&& crate::redis_backend::scan::window_end(end) is None
            &&& end.extending == walked.extending
            &&& end.stalled == walked.stalled
            &&& end.limit == v.limit
            &&& end.mismatched == v.mismatched
            &&& v.queried <= end.queried
        }),
    decreases v.limit - v.queried,
{
    let rest = rows.skip(v.queried - 1);
    match crate::redis_backend::scan::window_end(v) {
        Some(end) => {
            let window = rows.subrange(v.queried - 1, end - 1);
            let next = crate::redis_backend::scan::absorbed(v, window);
            lemma_absorbed_is_valid(v, window);
            crate::redis_backend::scan::walk_keeps_the_bookkeeping(v, window);
            scan_is_one_walk(next, rows);
            assert(rest =~= window + rows.skip(end - 1));
            windows_do_not_change_the_walk(v, window, rows.skip(end - 1));
            lemma_walk_ignores_counters(
                crate::redis_backend::scan::walk(v, window),
                next,
                rows.skip(end - 1),
            );
        },
        None => {
            if v.extending.len() == 0 {
                walk_ends_with_the_last_candidate(v, rest);
            } else {
                assert(rest =~= Seq::<Seq<OwnerView>>::empty());
            }
        },
    }
}

proof fn lemma_walk_ignores_counters(a: ScanView, b: ScanView, rows: Seq<Seq<OwnerView>>)
    requires
        a.extending == b.extending,
        a.stalled == b.stalled,
    ensures
        crate::redis_backend::scan::walk(a, rows).extending == crate::redis_backend::scan::walk(
            b,
            rows,
        ).extending,
        crate::redis_backend::scan::walk(a, rows).stalled == crate::redis_backend::scan::walk(
            b,
            rows,
        ).stalled,
    decreases rows.len(),
{
    if rows.len() > 0 {
        lemma_walk_ignores_counters(a, b, rows.drop_last());
    }
}

/// The answer of a finished scan lists every admitted worker with the leading
/// blocks that are placed on it, whatever windows were read.
pub proof fn scan_answers_with_every_run(v: ScanView, rows: Seq<Seq<OwnerView>>, top_k: u32)
    requires
        crate::redis_backend::scan::scan_is_valid(v),
        v.queried == 1,
        v.stalled.len() == 0,
        rows.len() == v.limit - 1,
        workers_differ(v.extending),
    ensures
        crate::redis_backend::scan::scan_answer(scanned(v, rows), top_k) == crate::ranking::answer(
            TieBreak::WorkerId,
            all_ran(v.extending, rows).map_values(
                |c: CandidateView| crate::redis_backend::scan::match_of(c),
            ),
            top_k,
            scanned(v, rows).queried as u32,
            v.mismatched,
        ),
{
    let model = |c: CandidateView| crate::redis_backend::scan::match_of(c);
    let end = scanned(v, rows);
    let found = crate::redis_backend::scan::settled(end);
    let ends = all_ran(v.extending, rows);
    scan_is_one_walk(v, rows);
    assert(rows.skip(0) =~= rows);
    walk_follows_every_candidate(v, rows);
    assert(v.stalled + ends =~= ends);
    lemma_mapping_keeps_multisets(ends, found, model);
    assert forall|i: int, j: int| 0 <= i < j < ends.len() implies (#[trigger] ends.map_values(
        model,
    )[i]).worker_id != (#[trigger] ends.map_values(model)[j]).worker_id by {
        candidate_gains_its_leading_run(v.extending[i], rows);
        candidate_gains_its_leading_run(v.extending[j], rows);
    }
    crate::ranking::ranking_by_worker_is_unique(ends.map_values(model), found.map_values(model));
}

proof fn lemma_longest_match_bounds(s: Seq<CandidateView>, i: int)
    requires
        0 <= i < s.len(),
    ensures
        s[i].matched <= crate::redis_backend::scan::longest_match(s),
    decreases s.len(),
{
    if i < s.len() - 1 {
        lemma_longest_match_bounds(s.drop_last(), i);
    }
}

/// A hit is credited only to workers whose prefix covers the block, to all of
/// them, and only for the first blocks of the longest prefix.
pub proof fn hits_stay_within_the_prefix(
    hashes: Seq<Seq<char>>,
    s: Seq<CandidateView>,
    i: int,
    owner: (Seq<char>, i64),
)
    requires
        0 <= i < crate::redis_backend::scan::planned_hits(hashes, s).len(),
    ensures
        crate::redis_backend::scan::planned_hits(hashes, s).len() <= PREFIX_HIT_MAX_BLOCKS,
        crate::redis_backend::scan::planned_hits(hashes, s)[i].hash == hashes[i],
        crate::redis_backend::scan::planned_hits(hashes, s)[i].owners.contains(owner) <==> exists|
            k: int,
        |
            0 <= k < s.len() && (#[trigger] s[k]).matched > i && owner == (
                s[k].worker,
                s[k].generation,
            ),
{
    lemma_reusing(s, i as nat, owner);
}

proof fn lemma_reusing(s: Seq<CandidateView>, index: nat, owner: (Seq<char>, i64))
    ensures
        crate::redis_backend::scan::reusing(s, index).contains(owner) <==> exists|k: int|
            0 <= k < s.len() && (#[trigger] s[k]).matched > index && owner == (
                s[k].worker,
                s[k].generation,
            ),
    decreases s.len(),
{
    let owners = crate::redis_backend::scan::reusing(s, index);
    if s.len() > 0 {
        let head = s.drop_last();
        let before = crate::redis_backend::scan::reusing(head, index);
        lemma_reusing(head, index, owner);
        if before.contains(owner) {
            let j = choose|j: int| 0 <= j < before.len() && before[j] == owner;
            assert(owners[j] == owner);
            let k = choose|k: int|
                0 <= k < head.len() && (#[trigger] head[k]).matched > index && owner == (
                    head[k].worker,
                    head[k].generation,
                );
            assert(s[k] == head[k]);
        }
        if owners.contains(owner) && !before.contains(owner) {
            let j = choose|j: int| 0 <= j < owners.len() && owners[j] == owner;
            if j < before.len() {
                assert(before[j] == owner);
            }
            assert(s[s.len() - 1].matched > index);
        }
        if exists|k: int|
            0 <= k < s.len() && (#[trigger] s[k]).matched > index && owner == (
                s[k].worker,
                s[k].generation,
            ) {
            let k = choose|k: int|
                0 <= k < s.len() && (#[trigger] s[k]).matched > index && owner == (
                    s[k].worker,
                    s[k].generation,
                );
            if k < head.len() {
                assert(head[k] == s[k]);
            } else {
                assert(owners[owners.len() - 1] == owner);
            }
        }
    }
}

/// A scan reads at most about twice the longest prefix it finds, however long
/// the request is, and never more than its limit.
pub proof fn scan_reads_no_more_than_the_prefix_warrants(v: ScanView, rows: Seq<Seq<OwnerView>>)
    requires
        crate::redis_backend::scan::scan_is_valid(v),
        rows.len() == v.limit - 1,
        v.queried == 1,
    ensures
        scanned(v, rows).queried <= v.limit,
        scanned(v, rows).queried <= 2 * crate::redis_backend::scan::longest_match(
            crate::redis_backend::scan::settled(scanned(v, rows)),
        ) + PREFIX_SCAN_CHUNK - 1,
{
    scan_is_one_walk(v, rows);
    lemma_scan_reads(v, rows);
}

proof fn lemma_scan_reads(v: ScanView, rows: Seq<Seq<OwnerView>>)
    requires
        crate::redis_backend::scan::scan_is_valid(v),
        rows.len() == v.limit - 1,
    ensures
        scanned(v, rows).queried == v.queried || scanned(v, rows).queried <= 2
            * crate::redis_backend::scan::longest_match(
            crate::redis_backend::scan::settled(scanned(v, rows)),
        ) + PREFIX_SCAN_CHUNK - 1,
    decreases v.limit - v.queried,
{
    match crate::redis_backend::scan::window_end(v) {
        Some(end) => {
            let window = rows.subrange(v.queried - 1, end - 1);
            let next = crate::redis_backend::scan::absorbed(v, window);
            lemma_absorbed_is_valid(v, window);
            walk_keeps_the_limit(v, window);
            lemma_scan_reads(next, rows);
            scan_is_one_walk(v, rows);
            if scanned(next, rows).queried == next.queried {
                broadcast use vstd::seq_lib::group_to_multiset_ensures;

                let rest = rows.skip(v.queried - 1);
                let found = crate::redis_backend::scan::settled(scanned(v, rows));
                let ends = v.stalled + all_ran(v.extending, rest);
                let c = ran(v.extending[0], rest);
                walk_follows_every_candidate(v, rest);
                candidate_gains_its_leading_run(v.extending[0], rest);
                assert(ends[v.stalled.len() as int] == c);
                assert(ends.contains(c));
                assert(ends.to_multiset().count(c) > 0);
                assert(found.to_multiset().count(c) > 0);
                assert(found.contains(c));
                let k = choose|k: int| 0 <= k < found.len() && found[k] == c;
                lemma_longest_match_bounds(found, k);
            }
        },
        None => {},
    }
}

} // verus!
