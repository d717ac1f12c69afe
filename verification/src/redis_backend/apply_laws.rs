//! What holds of every batch, whatever the store answers.

use vstd::prelude::*;

use crate::pb::ActionView;
use crate::redis_backend::apply::{PhaseView, RunView, StepView};
use crate::redis_backend::codec::ReverseMemberView;
use crate::redis_backend::commands::JobView;

verus! {

/// Whether a batch is known to be new and is not done.
pub open spec fn is_applying(phase: PhaseView) -> bool {
    phase is Act || phase is ClearScan || phase is ClearRevoke || phase is Commit
}

/// Whether a job changes what the current generation holds.
pub open spec fn changes_placements(job: JobView) -> bool {
    job is Report || job is Revoke
}

/// The worker and the generation that a job is fenced by.
pub open spec fn fence_of(job: JobView) -> (Seq<char>, i64) {
    match job {
        JobView::Report { worker, hash: _, bit: _, generation } => (worker, generation),
        JobView::Revoke { worker, hash: _, bit: _, generation } => (worker, generation),
        JobView::Forget { worker, hash: _, member: _, generation } => (worker, generation),
    }
}

/// Only the sequence check lets a batch in: no other answer of the store makes a
/// batch start to apply its actions, and the check does so only on a status of
/// 1.
pub proof fn only_the_sequence_check_lets_a_batch_in(
    v: RunView,
    first: i64,
    second: i64,
    cursor: u64,
    members: Seq<ReverseMemberView>,
)
    requires
        !is_applying(v.phase),
    ensures
        crate::redis_backend::apply::awaits_pair(v.phase) ==> (
        crate::redis_backend::apply::after_pair(v, first, second) matches Ok(next) ==> is_applying(
            next.phase,
        ) ==> v.phase is CheckSeq && first == 1),
        crate::redis_backend::apply::awaits_page(v.phase) ==> (
        crate::redis_backend::apply::after_page(v, cursor, members) matches Ok(next)
            ==> !is_applying(next.phase)),
        crate::redis_backend::apply::awaits_jobs(v.phase) ==> (
        crate::redis_backend::apply::after_jobs(v) matches Ok(next) ==> !is_applying(next.phase)),
        v.phase is ResetFinish ==> (crate::redis_backend::apply::after_reset_finish(
            v,
            first,
        ) matches Ok(next) ==> !is_applying(next.phase)),
        v.phase is ReadSeq ==> !is_applying(
            crate::redis_backend::apply::after_seq(v, first).phase,
        ),
{
}

/// No placement of the current generation changes before the batch is
/// known to be new.
pub proof fn placements_change_only_for_a_new_batch(v: RunView, i: int)
    requires
        crate::redis_backend::apply::step_of(v) matches StepView::RunAll(jobs) && 0 <= i
            < jobs.len() && changes_placements(jobs[i]),
    ensures
        is_applying(v.phase),
{
}

/// Every job is fenced by the worker of the batch and by the generation that
/// the touch returned.
pub proof fn every_job_is_fenced(v: RunView, i: int)
    requires
        crate::redis_backend::apply::step_of(v) matches StepView::RunAll(jobs) && 0 <= i
            < jobs.len(),
    ensures
        fence_of(crate::redis_backend::apply::step_of(v)->RunAll_0[i]) == (
            v.batch.worker,
            v.generation,
        ),
{
}

/// A batch without actions is answered from the stored sequence number and
/// never meets the sequence check.
pub proof fn heartbeat_reads_and_answers(v: RunView, status: i64, generation: i64, stored: i64)
    requires
        v.batch.actions.len() == 0,
        v.phase is Touch,
        status >= 0,
        status != 1,
    ensures
        crate::redis_backend::apply::after_touch(v, status, generation) matches Ok(next)
            && next.phase is ReadSeq && crate::redis_backend::apply::step_of(
            crate::redis_backend::apply::after_seq(next, stored),
        ) == StepView::Answer(crate::redis_backend::apply::seq_response(stored, false)),
{
}

/// A batch that was applied before is answered as a duplicate with the stored
/// sequence number, and nothing more is done.
pub proof fn duplicate_is_answered_at_once(v: RunView, last: i64)
    requires
        v.phase is CheckSeq,
    ensures
        crate::redis_backend::apply::after_check(v, 0, last) matches Ok(next)
            && crate::redis_backend::apply::step_of(next) == StepView::Answer(
            crate::redis_backend::apply::seq_response(last, true),
        ),
{
}

/// A batch that is known to be new is answered only once it was recorded as
/// applied: neither a finished job nor a page ends it.
pub proof fn commit_comes_last(v: RunView, cursor: u64, members: Seq<ReverseMemberView>)
    requires
        is_applying(v.phase),
        crate::redis_backend::apply::run_is_valid(v),
    ensures
        crate::redis_backend::apply::awaits_jobs(v.phase) ==> (
        crate::redis_backend::apply::after_jobs(v) matches Ok(next) ==> is_applying(next.phase)),
        crate::redis_backend::apply::awaits_page(v.phase) ==> (
        crate::redis_backend::apply::after_page(v, cursor, members) matches Ok(next)
            ==> is_applying(next.phase)),
{
    match v.phase {
        PhaseView::Act { index, hashes: _ } => {
            lemma_action_is_applying(v.batch.actions, index + 1);
        },
        PhaseView::ClearScan { index, cursor: _ } => {
            lemma_action_is_applying(v.batch.actions, index + 1);
        },
        PhaseView::ClearRevoke { index, next: _, hashes: _ } => {
            lemma_action_is_applying(v.batch.actions, index + 1);
        },
        _ => {},
    }
}

proof fn lemma_action_is_applying(actions: Seq<ActionView>, index: nat)
    ensures
        crate::redis_backend::apply::at_action(actions, index) matches Some(phase) ==> is_applying(
            phase,
        ),
        crate::redis_backend::apply::at_action(actions, index) matches Some(
            PhaseView::Act { index: at, hashes },
        ) ==> index <= at < actions.len() && hashes == actions[at as int].hashes && hashes.len()
            > 0,
    decreases actions.len() - index,
{
    if index < actions.len() {
        lemma_action_is_applying(actions, index + 1);
    }
}

/// A reset clears exactly the entries of older generations.
pub proof fn reset_clears_only_older_generations(
    members: Seq<ReverseMemberView>,
    generation: i64,
    m: ReverseMemberView,
)
    ensures
        crate::redis_backend::apply::stale_members(members, generation).contains(m) <==> (
        members.contains(m) && m.generation < generation),
    decreases members.len(),
{
    if members.len() > 0 {
        let head = members.drop_last();
        let before = crate::redis_backend::apply::stale_members(head, generation);
        let all = crate::redis_backend::apply::stale_members(members, generation);
        reset_clears_only_older_generations(head, generation, m);
        if before.contains(m) {
            let k = choose|k: int| 0 <= k < before.len() && before[k] == m;
            assert(all[k] == m);
            let i = choose|i: int| 0 <= i < head.len() && head[i] == m;
            assert(members[i] == m);
        }
        if all.contains(m) && !before.contains(m) {
            let k = choose|k: int| 0 <= k < all.len() && all[k] == m;
            assert(members[members.len() - 1] == m);
        }
        if members.contains(m) && m.generation < generation {
            let i = choose|i: int| 0 <= i < members.len() && members[i] == m;
            if i < head.len() {
                assert(head[i] == m);
            } else {
                assert(all[all.len() - 1] == m);
            }
        }
    }
}

/// Clearing a tier takes exactly the blocks of the current generation that a
/// page lists, each once.
pub proof fn clear_takes_the_current_blocks_once(
    members: Seq<ReverseMemberView>,
    generation: i64,
    hash: Seq<char>,
)
    ensures
        ({
            let hashes = crate::text::distinct(
                crate::redis_backend::apply::member_hashes(members, generation),
            );
            &&& hashes.no_duplicates()
            &&& hashes.contains(hash) <==> exists|i: int|
                0 <= i < members.len() && (#[trigger] members[i]).hash == hash
                    && members[i].generation == generation
        }),
{
    crate::text::distinct_keeps_each_text_once(
        crate::redis_backend::apply::member_hashes(members, generation),
    );
    lemma_member_hashes(members, generation, hash);
}

proof fn lemma_member_hashes(members: Seq<ReverseMemberView>, generation: i64, hash: Seq<char>)
    ensures
        crate::redis_backend::apply::member_hashes(members, generation).contains(hash) <==> exists|
            i: int,
        |
            0 <= i < members.len() && (#[trigger] members[i]).hash == hash && members[i].generation
                == generation,
    decreases members.len(),
{
    if members.len() > 0 {
        let head = members.drop_last();
        let before = crate::redis_backend::apply::member_hashes(head, generation);
        let all = crate::redis_backend::apply::member_hashes(members, generation);
        lemma_member_hashes(head, generation, hash);
        if before.contains(hash) {
            let k = choose|k: int| 0 <= k < before.len() && before[k] == hash;
            assert(all[k] == hash);
            let i = choose|i: int|
                0 <= i < head.len() && (#[trigger] head[i]).hash == hash && head[i].generation
                    == generation;
            assert(members[i] == head[i]);
        }
        if all.contains(hash) && !before.contains(hash) {
            let k = choose|k: int| 0 <= k < all.len() && all[k] == hash;
            assert(members[members.len() - 1].hash == hash);
        }
        if exists|i: int|
            0 <= i < members.len() && (#[trigger] members[i]).hash == hash && members[i].generation
                == generation {
            let i = choose|i: int|
                0 <= i < members.len() && (#[trigger] members[i]).hash == hash
                    && members[i].generation == generation;
            if i < head.len() {
                assert(head[i] == members[i]);
            } else {
                assert(all[all.len() - 1] == hash);
            }
        }
    }
}

/// A page of a worker's blocks: the cursor of the next one, 0 for the last, and
/// the entries.
pub struct PageView {
    pub next: u64,
    pub members: Seq<ReverseMemberView>,
}

/// The jobs that a batch gives out over some steps, and where it then stands.
/// The pages are what it reads, in order. It stops early where it waits for
/// something other than jobs or a page that is left.
pub open spec fn course(v: RunView, pages: Seq<PageView>, steps: nat) -> (Seq<JobView>, RunView)
    decreases steps,
{
    if steps == 0 {
        (Seq::empty(), v)
    } else if crate::redis_backend::apply::awaits_page(v.phase) && pages.len() > 0 {
        match crate::redis_backend::apply::after_page(v, pages[0].next, pages[0].members) {
            Ok(next) => course(next, pages.drop_first(), (steps - 1) as nat),
            Err(_) => (Seq::empty(), v),
        }
    } else {
        match (crate::redis_backend::apply::step_of(v), crate::redis_backend::apply::after_jobs(v)) {
            (StepView::RunAll(jobs), Ok(next)) => {
                let rest = course(next, pages, (steps - 1) as nat);
                (jobs + rest.0, rest.1)
            },
            _ => (Seq::empty(), v),
        }
    }
}

/// The blocks that clearing takes for a page: those of the current generation,
/// each once.
pub open spec fn cleared_by(page: PageView, generation: i64) -> Seq<Seq<char>> {
    crate::text::distinct(
        crate::redis_backend::apply::member_hashes(page.members, generation),
    )
}

/// The jobs for all blocks of the actions from `index` on, in order. An action
/// that names its blocks gives one for each of them. One that clears a tier
/// gives, page by page up to the last one, one for each block that it takes.
pub open spec fn jobs_due(v: RunView, index: nat, pages: Seq<PageView>) -> Seq<JobView>
    decreases v.batch.actions.len() - index, pages.len(), 0nat,
{
    if index >= v.batch.actions.len() {
        Seq::empty()
    } else {
        let action = v.batch.actions[index as int];
        if crate::redis_backend::apply::is_clear(action) {
            if pages.len() == 0 {
                Seq::empty()
            } else {
                crate::redis_backend::apply::action_jobs(
                    v,
                    action,
                    cleared_by(pages[0], v.generation),
                ) + jobs_behind(v, index, pages[0].next, pages.drop_first())
            }
        } else {
            crate::redis_backend::apply::action_jobs(v, action, action.hashes) + jobs_due(
                v,
                index + 1,
                pages,
            )
        }
    }
}

/// The jobs that are due behind a page of the action at `index`: those of the
/// next page, or those of the next action where there is none.
pub open spec fn jobs_behind(
    v: RunView,
    index: nat,
    next: u64,
    pages: Seq<PageView>,
) -> Seq<JobView>
    decreases v.batch.actions.len() - index, pages.len(), 1nat,
{
    if index >= v.batch.actions.len() {
        Seq::empty()
    } else if next == 0 {
        jobs_due(v, index + 1, pages)
    } else {
        jobs_due(v, index, pages)
    }
}

/// Whether the actions from `index` on are of known types, and the pages are
/// those that their scans read: for each action that clears a tier, pages up to
/// a last one.
pub open spec fn pages_suffice(actions: Seq<ActionView>, index: nat, pages: Seq<PageView>) -> bool
    decreases actions.len() - index, pages.len(),
{
    if index >= actions.len() {
        pages.len() == 0
    } else if crate::redis_backend::apply::is_clear(actions[index as int]) {
        &&& pages.len() > 0
        &&& if pages[0].next == 0 {
            pages_suffice(actions, index + 1, pages.drop_first())
        } else {
            pages_suffice(actions, index, pages.drop_first())
        }
    } else {
        &&& crate::redis_backend::apply::is_report(actions[index as int])
            || crate::redis_backend::apply::is_revoke(actions[index as int])
        &&& pages_suffice(actions, index + 1, pages)
    }
}

/// A batch that is known to be new gives out one job for each block that its
/// actions name, and one for each current block of each page that an action
/// which clears a tier reads. They come in the order of the actions, of the
/// pages and of the blocks. The batch then stands before its commit.
pub proof fn batch_applies_every_block_in_order(
    v: RunView,
    index: nat,
    pages: Seq<PageView>,
) -> (steps: nat)
    requires
        pages_suffice(v.batch.actions, index, pages),
    ensures
        crate::redis_backend::apply::enter_action(v, index) matches Ok(entered) && (course(
            entered,
            pages,
            steps,
        ).0 == jobs_due(v, index, pages)) && course(entered, pages, steps).1.phase is Commit,
    decreases v.batch.actions.len() - index, 0nat, 0nat,
{
    if index >= v.batch.actions.len() {
        0
    } else {
        let action = v.batch.actions[index as int];
        if crate::redis_backend::apply::is_clear(action) {
            lemma_scan_runs_out(v, index, 0, pages)
        } else if action.hashes.len() == 0 {
            let steps = batch_applies_every_block_in_order(v, index + 1, pages);
            assert(crate::redis_backend::apply::action_jobs(v, action, action.hashes) + jobs_due(
                v,
                index + 1,
                pages,
            ) =~= jobs_due(v, index + 1, pages));
            steps
        } else {
            lemma_action_runs_out(v, index, action.hashes, pages)
        }
    }
}

proof fn lemma_action_runs_out(
    v: RunView,
    index: nat,
    hashes: Seq<Seq<char>>,
    pages: Seq<PageView>,
) -> (steps: nat)
    requires
        index < v.batch.actions.len(),
        pages_suffice(v.batch.actions, index + 1, pages),
        hashes.len() > 0,
    ensures
        ({
            let at = RunView { phase: PhaseView::Act { index, hashes }, ..v };
            &&& course(at, pages, steps).0 == crate::redis_backend::apply::action_jobs(
                v,
                v.batch.actions[index as int],
                hashes,
            ) + jobs_due(v, index + 1, pages)
            &&& course(at, pages, steps).1.phase is Commit
        }),
    decreases v.batch.actions.len() - index - 1, pages.len() + 1, hashes.len(),
{
    let action = v.batch.actions[index as int];
    let at = RunView { phase: PhaseView::Act { index, hashes }, ..v };
    let rest = crate::redis_backend::apply::left_over(hashes);
    lemma_jobs_of_a_step(v, at, action, hashes);
    let now = crate::redis_backend::apply::action_jobs(
        v,
        action,
        crate::redis_backend::apply::at_once(hashes),
    );
    let later = crate::redis_backend::apply::action_jobs(v, action, rest);
    let due = jobs_due(v, index + 1, pages);
    assert(now + (later + due) =~= (now + later) + due);
    if rest.len() > 0 {
        let steps = lemma_action_runs_out(v, index, rest, pages);
        steps + 1
    } else {
        let steps = batch_applies_every_block_in_order(v, index + 1, pages);
        lemma_phase_is_replaced(v, at, index + 1);
        assert(later + due =~= due);
        steps + 1
    }
}

proof fn lemma_scan_runs_out(v: RunView, index: nat, cursor: u64, pages: Seq<PageView>) -> (steps:
    nat)
    requires
        index < v.batch.actions.len(),
        crate::redis_backend::apply::is_clear(v.batch.actions[index as int]),
        pages_suffice(v.batch.actions, index, pages),
    ensures
        ({
            let at = RunView { phase: PhaseView::ClearScan { index, cursor }, ..v };
            &&& course(at, pages, steps).0 == jobs_due(v, index, pages)
            &&& course(at, pages, steps).1.phase is Commit
        }),
    decreases v.batch.actions.len() - index - 1, pages.len() + 1, 0nat,
{
    let at = RunView { phase: PhaseView::ClearScan { index, cursor }, ..v };
    let hashes = cleared_by(pages[0], v.generation);
    let next = pages[0].next;
    let rest = pages.drop_first();
    if hashes.len() > 0 {
        let steps = lemma_clear_runs_out(v, index, next, hashes, rest);
        steps + 1
    } else {
        assert(crate::redis_backend::apply::action_jobs(
            v,
            v.batch.actions[index as int],
            hashes,
        ) + jobs_behind(v, index, next, rest) =~= jobs_behind(v, index, next, rest));
        if next == 0 {
            let steps = batch_applies_every_block_in_order(v, index + 1, rest);
            lemma_phase_is_replaced(v, at, index + 1);
            steps + 1
        } else {
            let steps = lemma_scan_runs_out(v, index, next, rest);
            steps + 1
        }
    }
}

proof fn lemma_clear_runs_out(
    v: RunView,
    index: nat,
    next: u64,
    hashes: Seq<Seq<char>>,
    pages: Seq<PageView>,
) -> (steps: nat)
    requires
        index < v.batch.actions.len(),
        crate::redis_backend::apply::is_clear(v.batch.actions[index as int]),
        next == 0 ==> pages_suffice(v.batch.actions, index + 1, pages),
        next != 0 ==> pages_suffice(v.batch.actions, index, pages),
        hashes.len() > 0,
    ensures
        ({
            let at = RunView { phase: PhaseView::ClearRevoke { index, next, hashes }, ..v };
            &&& course(at, pages, steps).0 == crate::redis_backend::apply::action_jobs(
                v,
                v.batch.actions[index as int],
                hashes,
            ) + jobs_behind(v, index, next, pages)
            &&& course(at, pages, steps).1.phase is Commit
        }),
    decreases v.batch.actions.len() - index - 1, pages.len() + 1, hashes.len(),
{
    let action = v.batch.actions[index as int];
    let at = RunView { phase: PhaseView::ClearRevoke { index, next, hashes }, ..v };
    let rest = crate::redis_backend::apply::left_over(hashes);
    lemma_jobs_of_a_step(v, at, action, hashes);
    let now = crate::redis_backend::apply::action_jobs(
        v,
        action,
        crate::redis_backend::apply::at_once(hashes),
    );
    let later = crate::redis_backend::apply::action_jobs(v, action, rest);
    let due = jobs_behind(v, index, next, pages);
    assert(now + (later + due) =~= (now + later) + due);
    if rest.len() > 0 {
        let steps = lemma_clear_runs_out(v, index, next, rest, pages);
        steps + 1
    } else {
        assert(later + due =~= due);
        if next == 0 {
            let steps = batch_applies_every_block_in_order(v, index + 1, pages);
            lemma_phase_is_replaced(v, at, index + 1);
            steps + 1
        } else {
            let steps = lemma_scan_runs_out(v, index, next, pages);
            steps + 1
        }
    }
}

/// The jobs of a step and those that it leaves over are all jobs, and no job
/// depends on where the batch stands.
proof fn lemma_jobs_of_a_step(a: RunView, b: RunView, action: ActionView, hashes: Seq<Seq<char>>)
    requires
        b == (RunView { phase: b.phase, ..a }),
    ensures
        ({
            let once = crate::redis_backend::apply::at_once(hashes);
            let rest = crate::redis_backend::apply::left_over(hashes);
            &&& crate::redis_backend::apply::action_jobs(b, action, once)
                == crate::redis_backend::apply::action_jobs(a, action, once)
            &&& crate::redis_backend::apply::action_jobs(a, action, hashes)
                == crate::redis_backend::apply::action_jobs(a, action, once)
                + crate::redis_backend::apply::action_jobs(a, action, rest)
        }),
{
    let once = crate::redis_backend::apply::at_once(hashes);
    let rest = crate::redis_backend::apply::left_over(hashes);
    assert(crate::redis_backend::apply::action_jobs(b, action, once)
        =~= crate::redis_backend::apply::action_jobs(a, action, once));
    assert(crate::redis_backend::apply::action_jobs(a, action, hashes)
        =~= crate::redis_backend::apply::action_jobs(a, action, once)
        + crate::redis_backend::apply::action_jobs(a, action, rest));
}

/// Where a batch goes next does not depend on where it stands.
proof fn lemma_phase_is_replaced(a: RunView, b: RunView, index: nat)
    requires
        b == (RunView { phase: b.phase, ..a }),
    ensures
        crate::redis_backend::apply::enter_action(a, index)
            == crate::redis_backend::apply::enter_action(b, index),
{
}

} // verus!
