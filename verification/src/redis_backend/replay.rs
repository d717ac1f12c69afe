//! A batch that is sent again.
//!
//! A publisher that cannot tell whether a batch arrived sends it again under the
//! same sequence number. What was applied is not applied twice: the store keeps
//! the sequence number of the last batch, and the check that comes before every
//! change compares the batch with it.

use vstd::prelude::*;

use crate::pb::ApplyExternalKvBatchResponse;
use crate::redis_backend::apply::{PhaseView, RunView, StepView};
use crate::redis_backend::apply_laws::{changes_placements, is_applying};
use crate::redis_backend::codec::ReverseMemberView;
use crate::redis_backend::commands::{CommandView, JobView, KeyView};
use crate::status::StatusView;

verus! {

/// What a step of a batch is answered with.
pub enum ReplyView {
    /// A script answered with a pair.
    Pair { first: i64, second: i64 },
    /// A page was read.
    Page { cursor: u64, members: Seq<ReverseMemberView> },
    /// The script that opens the generation answered.
    Opened { status: i64 },
    /// The stored sequence number was read.
    Stored { seq: i64 },
    /// All jobs are done.
    Done,
}

/// Whether a reply is one that a phase waits for.
pub open spec fn fits(phase: PhaseView, reply: ReplyView) -> bool {
    match reply {
        ReplyView::Pair { first: _, second: _ } => crate::redis_backend::apply::awaits_pair(phase),
        ReplyView::Page { cursor: _, members: _ } => crate::redis_backend::apply::awaits_page(
            phase,
        ),
        ReplyView::Opened { status: _ } => phase is ResetFinish,
        ReplyView::Stored { seq: _ } => phase is ReadSeq,
        ReplyView::Done => crate::redis_backend::apply::awaits_jobs(phase),
    }
}

/// The state after a reply.
pub open spec fn after_reply(v: RunView, reply: ReplyView) -> Result<RunView, StatusView> {
    match reply {
        ReplyView::Pair { first, second } => crate::redis_backend::apply::after_pair(
            v,
            first,
            second,
        ),
        ReplyView::Page { cursor, members } => crate::redis_backend::apply::after_page(
            v,
            cursor,
            members,
        ),
        ReplyView::Opened { status } => crate::redis_backend::apply::after_reset_finish(v, status),
        ReplyView::Stored { seq } => Ok(crate::redis_backend::apply::after_seq(v, seq)),
        ReplyView::Done => crate::redis_backend::apply::after_jobs(v),
    }
}

/// The jobs that a state gives out.
pub open spec fn jobs_of(v: RunView) -> Seq<JobView> {
    match crate::redis_backend::apply::step_of(v) {
        StepView::RunAll(jobs) => jobs,
        _ => Seq::empty(),
    }
}

/// Where replies lead a batch: to a state or to a refusal.
pub open spec fn led_to(v: RunView, replies: Seq<ReplyView>) -> Result<RunView, StatusView>
    decreases replies.len(),
{
    if replies.len() == 0 {
        Ok(v)
    } else {
        match after_reply(v, replies[0]) {
            Ok(next) => led_to(next, replies.drop_first()),
            Err(status) => Err(status),
        }
    }
}

/// The jobs that a batch gives out on the way, those of the last state with
/// them.
pub open spec fn jobs_on_the_way(v: RunView, replies: Seq<ReplyView>) -> Seq<JobView>
    decreases replies.len(),
{
    if replies.len() == 0 {
        jobs_of(v)
    } else {
        match after_reply(v, replies[0]) {
            Ok(next) => jobs_of(v) + jobs_on_the_way(next, replies.drop_first()),
            Err(_) => jobs_of(v),
        }
    }
}

/// What a batch asks for on the way, the last state's step with it.
pub open spec fn steps_on_the_way(v: RunView, replies: Seq<ReplyView>) -> Seq<StepView>
    decreases replies.len(),
{
    let step = seq![crate::redis_backend::apply::step_of(v)];
    if replies.len() == 0 {
        step
    } else {
        match after_reply(v, replies[0]) {
            Ok(next) => step + steps_on_the_way(next, replies.drop_first()),
            Err(_) => step,
        }
    }
}

/// The keys that a request names.
pub open spec fn keys_named(command: CommandView) -> Seq<KeyView> {
    match command {
        CommandView::Invoke { script: _, keys, args: _ } => keys,
        CommandView::HashGet { key, field: _ } => seq![key],
        CommandView::SetScan { key, cursor: _, count: _ } => seq![key],
        CommandView::SetAdd { key, members: _ } => seq![key],
        CommandView::SetRemove { key, members: _ } => seq![key],
    }
}

/// Whether a step names no key but that of a worker's registry entry: none of a
/// placement, of a list of a worker's blocks or of hits.
pub open spec fn stays_with_the_registry(step: StepView, worker: Seq<char>) -> bool {
    match step {
        StepView::Run(command) => keys_named(command) == seq![KeyView::WorkerMeta(worker)],
        StepView::RunAll(jobs) => jobs.len() == 0,
        StepView::Answer(_) => true,
    }
}

/// Whether a reply is one that a store gives which, when it checks a batch,
/// keeps `last` as the worker's sequence number, negative where it keeps none: a
/// batch is new exactly where its number is higher, and once recorded the
/// number kept is the higher of the two. A refusal says nothing of the number.
pub open spec fn keeps_the_sequence(v: RunView, reply: ReplyView, last: i64) -> bool {
    match (v.phase, reply) {
        (PhaseView::CheckSeq, ReplyView::Pair { first, second }) => first >= 0 ==> {
            &&& second == last
            &&& first == 1 <==> v.batch.seq > last
        },
        (PhaseView::Commit, ReplyView::Pair { first, second }) => first >= 0 ==> second == if v.batch.seq
            > last {
            v.batch.seq as int
        } else {
            last as int
        },
        _ => true,
    }
}

/// Whether replies fit a batch on its way and come from a store that keeps
/// `last` as the worker's sequence number when it checks the batch.
pub open spec fn store_keeps(v: RunView, replies: Seq<ReplyView>, last: i64) -> bool
    decreases replies.len(),
{
    replies.len() > 0 ==> {
        &&& fits(v.phase, replies[0])
        &&& keeps_the_sequence(v, replies[0], last)
        &&& after_reply(v, replies[0]) matches Ok(next) ==> store_keeps(
            next,
            replies.drop_first(),
            last,
        )
    }
}

/// An answered batch with actions leaves a sequence number behind that is no
/// lower than its own, and answers with it.
pub proof fn answer_names_the_sequence_kept(
    v: RunView,
    replies: Seq<ReplyView>,
    last: i64,
    response: ApplyExternalKvBatchResponse,
)
    requires
        v.batch.actions.len() > 0,
        !(v.phase is Finished),
        !(v.phase is ReadSeq),
        crate::redis_backend::apply::run_is_valid(v),
        store_keeps(v, replies, last),
        led_to(v, replies) matches Ok(end) && end.phase == (PhaseView::Finished { response }),
    ensures
        response.has_applied_seq,
        response.last_applied_seq >= v.batch.seq,
        response.last_applied_seq <= i64::MAX,
        response.last_applied_seq >= last,
    decreases replies.len(),
{
    let next = after_reply(v, replies[0])->Ok_0;
    lemma_reply_keeps_the_batch(v, replies[0]);
    if next.phase is Finished {
        lemma_finished_takes_no_reply(next, replies.drop_first(), last);
        assert(led_to(v, replies) == Ok::<RunView, StatusView>(next));
    } else {
        answer_names_the_sequence_kept(next, replies.drop_first(), last, response);
    }
}

/// A reply keeps the batch, and a batch with actions is answered only by the
/// check or by its commit.
proof fn lemma_reply_keeps_the_batch(v: RunView, reply: ReplyView)
    requires
        fits(v.phase, reply),
        crate::redis_backend::apply::run_is_valid(v),
    ensures
        after_reply(v, reply) matches Ok(next) ==> {
            &&& next.batch == v.batch
            &&& crate::redis_backend::apply::run_is_valid(next)
            &&& v.batch.actions.len() > 0 && !(v.phase is ReadSeq) ==> !(next.phase is ReadSeq)
            &&& next.phase is Finished ==> v.phase is ReadSeq || v.phase is Commit || (
            v.phase is CheckSeq && reply->first != 1)
        },
{
    match v.phase {
        PhaseView::CheckSeq => {
            lemma_entered_action_is_valid(v, 0);
        },
        PhaseView::Act { index, hashes: _ } => {
            lemma_entered_action_is_valid(v, index + 1);
        },
        PhaseView::ClearScan { index, cursor: _ } => {
            lemma_entered_action_is_valid(v, index + 1);
        },
        PhaseView::ClearRevoke { index, next: _, hashes: _ } => {
            lemma_entered_action_is_valid(v, index + 1);
        },
        _ => {},
    }
}

proof fn lemma_entered_action_is_valid(v: RunView, index: nat)
    ensures
        crate::redis_backend::apply::enter_action(v, index) matches Ok(next) ==> next.batch
            == v.batch && crate::redis_backend::apply::run_is_valid(next) && is_applying(
            next.phase,
        ),
    decreases v.batch.actions.len() - index,
{
    if index < v.batch.actions.len() {
        lemma_entered_action_is_valid(v, index + 1);
    }
}

proof fn lemma_finished_takes_no_reply(v: RunView, replies: Seq<ReplyView>, last: i64)
    requires
        v.phase is Finished,
        store_keeps(v, replies, last),
    ensures
        replies.len() == 0,
        led_to(v, replies) == Ok::<RunView, StatusView>(v),
{
}

/// What was applied is not applied again. Where the store keeps a sequence
/// number no lower than that of a batch, the batch gives out no job that
/// changes a placement, never comes to be applied, and is answered, if at all,
/// as a duplicate with the number that the store keeps.
pub proof fn old_batch_changes_nothing(v: RunView, replies: Seq<ReplyView>, last: i64)
    requires
        v.batch.actions.len() > 0,
        !is_applying(v.phase),
        !(v.phase is Finished),
        !(v.phase is ReadSeq),
        v.batch.seq <= last,
        crate::redis_backend::apply::run_is_valid(v),
        store_keeps(v, replies, last),
    ensures
        forall|i: int|
            0 <= i < jobs_on_the_way(v, replies).len() ==> !changes_placements(
                #[trigger] jobs_on_the_way(v, replies)[i],
            ),
        led_to(v, replies) matches Ok(end) ==> !is_applying(end.phase) && (
        end.phase matches PhaseView::Finished { response } ==> response
            == crate::redis_backend::apply::seq_response(last, true)),
    decreases replies.len(),
{
    if replies.len() > 0 {
        lemma_reply_keeps_the_batch(v, replies[0]);
        if let Ok(next) = after_reply(v, replies[0]) {
            let rest = replies.drop_first();
            let later = jobs_on_the_way(next, rest);
            assert(!is_applying(next.phase));
            if next.phase is Finished {
                lemma_finished_takes_no_reply(next, rest, last);
                assert(led_to(v, replies) == Ok::<RunView, StatusView>(next));
                assert(later =~= Seq::<JobView>::empty());
            } else {
                old_batch_changes_nothing(next, rest, last);
            }
            assert forall|i: int|
                0 <= i < jobs_on_the_way(v, replies).len() implies !changes_placements(
                #[trigger] jobs_on_the_way(v, replies)[i],
            ) by {
                if i >= jobs_of(v).len() {
                    assert(jobs_on_the_way(v, replies)[i] == later[i - jobs_of(v).len()]);
                }
            }
        }
    }
}

/// A verbatim replay is a no-op. A batch with actions was answered, and nothing
/// else touched its worker before it is sent again. Whatever replies the second
/// run meets, it changes no placement; and if the store takes the worker for
/// the one that it knows, with no reset due and no other generation, the second
/// run gives out no job at all, names no key but that of the worker's registry
/// entry and is answered as a duplicate with the sequence number of the first
/// answer.
pub proof fn replay_is_a_no_op(
    first: RunView,
    replies: Seq<ReplyView>,
    before: i64,
    response: ApplyExternalKvBatchResponse,
    kept: i64,
    second: RunView,
    replayed: Seq<ReplyView>,
    generation: i64,
)
    requires
        first.phase is Touch,
        second.phase is Touch,
        first.batch == second.batch,
        first.batch.actions.len() > 0,
        store_keeps(first, replies, before),
        led_to(first, replies) matches Ok(end) && end.phase == (PhaseView::Finished { response }),
        kept == response.last_applied_seq,
        store_keeps(second, replayed, kept),
    ensures
        forall|i: int|
            0 <= i < jobs_on_the_way(second, replayed).len() ==> !changes_placements(
                #[trigger] jobs_on_the_way(second, replayed)[i],
            ),
        led_to(second, replayed) matches Ok(end) ==> (end.phase matches PhaseView::Finished {
            response: again,
        } ==> again.duplicate && again.has_applied_seq && again.last_applied_seq
            == response.last_applied_seq),
        replayed.len() == 2 && replayed[0] == (ReplyView::Pair { first: 0, second: generation })
            && (replayed[1] matches ReplyView::Pair { first: status, second: _ } && status >= 0)
            ==> {
            &&& jobs_on_the_way(second, replayed).len() == 0
            &&& forall|i: int|
                0 <= i < steps_on_the_way(second, replayed).len() ==> stays_with_the_registry(
                    #[trigger] steps_on_the_way(second, replayed)[i],
                    second.batch.worker,
                )
            &&& led_to(second, replayed) matches Ok(end) && end.phase is Finished
        },
{
    answer_names_the_sequence_kept(first, replies, before, response);
    old_batch_changes_nothing(second, replayed, kept);
    if replayed.len() == 2 && replayed[0] == (ReplyView::Pair { first: 0, second: generation })
        && (replayed[1] matches ReplyView::Pair { first: status, second: _ } && status >= 0) {
        let touched = after_reply(second, replayed[0])->Ok_0;
        let rest = replayed.drop_first();
        assert(rest[0] == replayed[1]);
        assert(touched.phase is CheckSeq);
        assert(store_keeps(touched, rest, kept));
        let checked = after_reply(touched, rest[0])->Ok_0;
        assert(checked.phase is Finished);
        assert(rest.drop_first().len() == 0);
        assert(led_to(checked, rest.drop_first()) == Ok::<RunView, StatusView>(checked));
        assert(led_to(touched, rest) == Ok::<RunView, StatusView>(checked));
        assert(jobs_on_the_way(checked, rest.drop_first()) =~= Seq::<JobView>::empty());
        assert(jobs_on_the_way(touched, rest) =~= Seq::<JobView>::empty());
        assert(jobs_on_the_way(second, replayed) =~= Seq::<JobView>::empty());
        assert(steps_on_the_way(checked, rest.drop_first()) =~= seq![
            crate::redis_backend::apply::step_of(checked),
        ]);
        assert(steps_on_the_way(touched, rest) =~= seq![
            crate::redis_backend::apply::step_of(touched),
            crate::redis_backend::apply::step_of(checked),
        ]);
        assert(steps_on_the_way(second, replayed) =~= seq![
            crate::redis_backend::apply::step_of(second),
            crate::redis_backend::apply::step_of(touched),
            crate::redis_backend::apply::step_of(checked),
        ]);
    }
}

} // verus!
