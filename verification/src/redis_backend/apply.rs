//! The course of one batch.
//!
//! A batch first proves that its worker is alive and learns the generation that
//! fences it, clearing what an older generation left behind where that is
//! still due. A batch without actions ends there. Any other one meets a
//! check that skips what was already applied, applies its actions in order, and is
//! recorded as applied last: a crash in between leaves it to be repeated.

use vstd::prelude::*;
use vstd::string::StringExecFns;

use crate::pb::{
    ActionView, ApplyExternalKvBatchRequest, ApplyExternalKvBatchResponse, ExternalKvActionType,
};
use crate::redis_backend::codec::{ReverseMember, ReverseMemberView};
use crate::redis_backend::commands::{
    Command, CommandView, Job, JobKind, JobView, Key, KeyView, Script,
};
use crate::redis_backend::scan::REDIS_FANOUT_CHUNK;
use crate::status::{Code, RpcStatus, StatusView};

verus! {

/// What a batch says, with the defaults that it leaves to the indexer.
pub struct BatchView {
    pub worker: Seq<char>,
    pub address: Seq<char>,
    pub seq: u64,
    pub incarnation: Seq<char>,
    /// Stored form of the hash spec, empty when the batch states none.
    pub spec: Seq<char>,
    pub dp_rank: u32,
    pub actions: Seq<ActionView>,
}

/// The token of a publisher that names no incarnation. It takes part in fencing
/// as one that never changes.
pub open spec fn incarnation_token(incarnation: Seq<char>) -> Seq<char> {
    if incarnation.len() == 0 {
        "__legacy__"@
    } else {
        incarnation
    }
}

/// The stored form of a hash spec; a batch that states none leaves what is
/// stored alone.
pub open spec fn stored_spec(spec: Option<crate::pb::HashSpecView>) -> Seq<char> {
    match crate::redis_backend::codec::checked_spec(spec) {
        Some(text) => text,
        None => Seq::empty(),
    }
}

/// What a batch request says.
pub open spec fn batch_of(request: ApplyExternalKvBatchRequest) -> BatchView {
    BatchView {
        worker: request.worker_id@,
        address: request.worker_address@,
        seq: request.seq,
        incarnation: incarnation_token(request.incarnation@),
        spec: stored_spec(crate::redis_backend::codec::optional_spec(request.hash_spec)),
        dp_rank: request.dp_rank,
        actions: crate::validate::action_views(request.actions@),
    }
}

/// Where a batch stands.
#[derive(Debug)]
pub enum Phase {
    /// Proving liveness.
    Touch,
    /// Reading the worker's blocks to find those of older generations.
    ResetScan { cursor: u64 },
    /// Clearing blocks of older generations before the next page is read.
    ResetClear { next: u64, stale: Vec<ReverseMember> },
    /// Opening the generation.
    ResetFinish,
    /// Reading the stored sequence number for a batch without actions.
    ReadSeq,
    /// Comparing the batch with the last one applied.
    CheckSeq,
    /// Placing or taking the blocks of an action that are left.
    Act { index: usize, hashes: Vec<String> },
    /// Reading the worker's blocks to find those that an action clears.
    ClearScan { index: usize, cursor: u64 },
    /// Taking cleared blocks before the next page is read.
    ClearRevoke { index: usize, next: u64, hashes: Vec<String> },
    /// Recording the batch as applied.
    Commit,
    /// Done.
    Finished { response: ApplyExternalKvBatchResponse },
}

/// The model of a [`Phase`].
pub enum PhaseView {
    Touch,
    ResetScan { cursor: u64 },
    ResetClear { next: u64, stale: Seq<ReverseMemberView> },
    ResetFinish,
    ReadSeq,
    CheckSeq,
    Act { index: nat, hashes: Seq<Seq<char>> },
    ClearScan { index: nat, cursor: u64 },
    ClearRevoke { index: nat, next: u64, hashes: Seq<Seq<char>> },
    Commit,
    Finished { response: ApplyExternalKvBatchResponse },
}

impl View for Phase {
    type V = PhaseView;

    open spec fn view(&self) -> PhaseView {
        match self {
            Phase::Touch => PhaseView::Touch,
            Phase::ResetScan { cursor } => PhaseView::ResetScan { cursor: *cursor },
            Phase::ResetClear { next, stale } => PhaseView::ResetClear {
                next: *next,
                stale: crate::redis_backend::replies::member_views(stale@),
            },
            Phase::ResetFinish => PhaseView::ResetFinish,
            Phase::ReadSeq => PhaseView::ReadSeq,
            Phase::CheckSeq => PhaseView::CheckSeq,
            Phase::Act { index, hashes } => PhaseView::Act {
                index: *index as nat,
                hashes: crate::text::texts(hashes@),
            },
            Phase::ClearScan { index, cursor } => PhaseView::ClearScan {
                index: *index as nat,
                cursor: *cursor,
            },
            Phase::ClearRevoke { index, next, hashes } => PhaseView::ClearRevoke {
                index: *index as nat,
                next: *next,
                hashes: crate::text::texts(hashes@),
            },
            Phase::Commit => PhaseView::Commit,
            Phase::Finished { response } => PhaseView::Finished { response: *response },
        }
    }
}

/// The state of a batch under way.
pub struct RunView {
    pub batch: BatchView,
    pub now_ms: i64,
    pub ttl_ms: u64,
    /// The worker's generation, known once it was touched.
    pub generation: i64,
    pub phase: PhaseView,
}

/// Whether a phase points into the batch.
pub open spec fn run_is_valid(v: RunView) -> bool {
    match v.phase {
        PhaseView::Act { index, hashes } => index < v.batch.actions.len() && hashes.len() > 0 && (
        is_report(v.batch.actions[index as int]) || is_revoke(v.batch.actions[index as int])),
        PhaseView::ClearScan { index, cursor: _ } => index < v.batch.actions.len(),
        PhaseView::ClearRevoke { index, next: _, hashes } => index < v.batch.actions.len()
            && hashes.len() > 0,
        PhaseView::ResetClear { next: _, stale } => stale.len() > 0,
        _ => true,
    }
}

/// Whether an action places blocks.
pub open spec fn is_report(action: ActionView) -> bool {
    crate::pb::action_with_number(action.kind) == Some(ExternalKvActionType::ActionReport)
}

/// Whether an action takes blocks.
pub open spec fn is_revoke(action: ActionView) -> bool {
    crate::pb::action_with_number(action.kind) == Some(ExternalKvActionType::ActionRevoke)
}

/// Whether an action takes every block of a tier.
pub open spec fn is_clear(action: ActionView) -> bool {
    crate::pb::action_with_number(action.kind) == Some(ExternalKvActionType::ActionClearAllAtTier)
}

/// The answer about the sequence number that is stored, none when negative.
pub open spec fn seq_response(stored: i64, duplicate: bool) -> ApplyExternalKvBatchResponse {
    ApplyExternalKvBatchResponse {
        last_applied_seq: if stored > 0 {
            stored as u64
        } else {
            0
        },
        duplicate,
        has_applied_seq: stored >= 0,
    }
}

/// Where a batch stands at the beginning of an action; `None` when the action
/// is of no supported type.
pub open spec fn at_action(actions: Seq<ActionView>, index: nat) -> Option<PhaseView>
    decreases actions.len() - index,
{
    if index >= actions.len() {
        Some(PhaseView::Commit)
    } else {
        let action = actions[index as int];
        if is_report(action) || is_revoke(action) {
            if action.hashes.len() == 0 {
                at_action(actions, index + 1)
            } else {
                Some(PhaseView::Act { index, hashes: action.hashes })
            }
        } else if is_clear(action) {
            Some(PhaseView::ClearScan { index, cursor: 0 })
        } else {
            None
        }
    }
}

/// The refusal of an action of no supported type.
pub open spec fn unsupported_action() -> StatusView {
    crate::status::status(Code::InvalidArgument, "unsupported action type"@)
}

/// The refusal of a batch whose worker moved on.
pub open spec fn incarnation_changed() -> StatusView {
    crate::status::status(
        Code::FailedPrecondition,
        "worker incarnation changed while applying batch"@,
    )
}

/// The state at the beginning of an action, or the refusal of that action.
pub open spec fn enter_action(v: RunView, index: nat) -> Result<RunView, StatusView> {
    match at_action(v.batch.actions, index) {
        Some(phase) => Ok(RunView { phase, ..v }),
        None => Err(unsupported_action()),
    }
}

/// Where a batch stands once its generation is open.
pub open spec fn opened(v: RunView) -> RunView {
    RunView {
        phase: if v.batch.actions.len() == 0 {
            PhaseView::ReadSeq
        } else {
            PhaseView::CheckSeq
        },
        ..v
    }
}

/// The state after the touch script answered.
pub open spec fn after_touch(v: RunView, status: i64, generation: i64) -> Result<
    RunView,
    StatusView,
> {
    if status < 0 {
        Err(
            crate::status::status(
                Code::FailedPrecondition,
                "worker incarnation has been retired: "@ + v.batch.incarnation,
            ),
        )
    } else if status == 1 {
        Ok(RunView { generation, phase: PhaseView::ResetScan { cursor: 0 }, ..v })
    } else {
        Ok(opened(RunView { generation, ..v }))
    }
}

/// The entries of older generations.
pub open spec fn stale_members(s: Seq<ReverseMemberView>, generation: i64) -> Seq<
    ReverseMemberView,
>
    decreases s.len(),
{
    if s.len() == 0 {
        Seq::empty()
    } else if s.last().generation < generation {
        stale_members(s.drop_last(), generation).push(s.last())
    } else {
        stale_members(s.drop_last(), generation)
    }
}

/// The blocks of the given generation.
pub open spec fn member_hashes(s: Seq<ReverseMemberView>, generation: i64) -> Seq<Seq<char>>
    decreases s.len(),
{
    if s.len() == 0 {
        Seq::empty()
    } else if s.last().generation == generation {
        member_hashes(s.drop_last(), generation).push(s.last().hash)
    } else {
        member_hashes(s.drop_last(), generation)
    }
}

/// Where a reset stands once a page is cleared.
pub open spec fn reset_cursor(v: RunView, next: u64) -> RunView {
    RunView {
        phase: if next == 0 {
            PhaseView::ResetFinish
        } else {
            PhaseView::ResetScan { cursor: next }
        },
        ..v
    }
}

/// The state after a page was read for a reset: what is left of older
/// generations is cleared first.
pub open spec fn after_reset_page(v: RunView, next: u64, members: Seq<ReverseMemberView>) -> RunView {
    let stale = stale_members(members, v.generation);
    if stale.len() > 0 {
        RunView { phase: PhaseView::ResetClear { next, stale }, ..v }
    } else {
        reset_cursor(v, next)
    }
}

/// The state after the script that opens the generation answered.
pub open spec fn after_reset_finish(v: RunView, status: i64) -> Result<RunView, StatusView> {
    if status < 0 {
        Err(
            crate::status::status(
                Code::FailedPrecondition,
                "worker generation changed while resetting"@,
            ),
        )
    } else {
        Ok(opened(v))
    }
}

/// The state after the stored sequence number was read.
pub open spec fn after_seq(v: RunView, stored: i64) -> RunView {
    RunView { phase: PhaseView::Finished { response: seq_response(stored, false) }, ..v }
}

/// The state after the sequence check answered: only a status of 1 lets the batch pass.
pub open spec fn after_check(v: RunView, status: i64, last: i64) -> Result<RunView, StatusView> {
    if status < 0 {
        Err(incarnation_changed())
    } else if status == 1 {
        enter_action(v, 0)
    } else {
        Ok(RunView { phase: PhaseView::Finished { response: seq_response(last, true) }, ..v })
    }
}

/// Where a clearing action stands once a page is cleared.
pub open spec fn clear_cursor(v: RunView, index: nat, next: u64) -> Result<RunView, StatusView> {
    if next == 0 {
        enter_action(v, index + 1)
    } else {
        Ok(RunView { phase: PhaseView::ClearScan { index, cursor: next }, ..v })
    }
}

/// The state after a page was read for a clearing action.
pub open spec fn after_clear_page(
    v: RunView,
    index: nat,
    next: u64,
    members: Seq<ReverseMemberView>,
) -> Result<RunView, StatusView> {
    let hashes = crate::text::distinct(member_hashes(members, v.generation));
    if hashes.len() > 0 {
        Ok(RunView { phase: PhaseView::ClearRevoke { index, next, hashes }, ..v })
    } else {
        clear_cursor(v, index, next)
    }
}

/// The state after the batch was recorded as applied.
pub open spec fn after_commit(v: RunView, status: i64, committed: i64) -> Result<
    RunView,
    StatusView,
> {
    if status < 0 {
        Err(incarnation_changed())
    } else {
        Ok(RunView { phase: PhaseView::Finished { response: seq_response(committed, false) }, ..v })
    }
}

/// What is left behind the parts of one step.
pub open spec fn left_over<A>(s: Seq<A>) -> Seq<A> {
    if s.len() <= REDIS_FANOUT_CHUNK {
        Seq::empty()
    } else {
        s.skip(REDIS_FANOUT_CHUNK as int)
    }
}

/// The parts of one step.
pub open spec fn at_once<A>(s: Seq<A>) -> Seq<A> {
    if s.len() <= REDIS_FANOUT_CHUNK {
        s
    } else {
        s.take(REDIS_FANOUT_CHUNK as int)
    }
}

/// The state after all jobs of the step were done.
pub open spec fn after_jobs(v: RunView) -> Result<RunView, StatusView> {
    match v.phase {
        PhaseView::ResetClear { next, stale } => {
            let rest = left_over(stale);
            if rest.len() > 0 {
                Ok(RunView { phase: PhaseView::ResetClear { next, stale: rest }, ..v })
            } else {
                Ok(reset_cursor(v, next))
            }
        },
        PhaseView::Act { index, hashes } => {
            let rest = left_over(hashes);
            if rest.len() > 0 {
                Ok(RunView { phase: PhaseView::Act { index, hashes: rest }, ..v })
            } else {
                enter_action(v, index + 1)
            }
        },
        PhaseView::ClearRevoke { index, next, hashes } => {
            let rest = left_over(hashes);
            if rest.len() > 0 {
                Ok(RunView { phase: PhaseView::ClearRevoke { index, next, hashes: rest }, ..v })
            } else {
                clear_cursor(v, index, next)
            }
        },
        _ => Ok(v),
    }
}

/// What is to be done next.
#[derive(Debug)]
pub enum Step {
    /// This request, whose reply decides how the batch goes on.
    Run(Command),
    /// These jobs, in any order or at once.
    RunAll(Vec<Job>),
    /// Nothing: the batch is answered.
    Answer(ApplyExternalKvBatchResponse),
}

/// The model of a [`Step`].
pub enum StepView {
    Run(CommandView),
    RunAll(Seq<JobView>),
    Answer(ApplyExternalKvBatchResponse),
}

/// The models of several jobs.
pub open spec fn job_views(jobs: Seq<Job>) -> Seq<JobView> {
    jobs.map_values(|j: Job| j@)
}

impl View for Step {
    type V = StepView;

    open spec fn view(&self) -> StepView {
        match self {
            Step::Run(command) => StepView::Run(command@),
            Step::RunAll(jobs) => StepView::RunAll(job_views(jobs@)),
            Step::Answer(response) => StepView::Answer(*response),
        }
    }
}

/// A script over the worker's registry entry.
pub open spec fn on_meta(v: RunView, script: Script, args: Seq<Seq<char>>) -> CommandView {
    CommandView::Invoke { script, keys: seq![KeyView::WorkerMeta(v.batch.worker)], args }
}

/// The sequence number and the generation of the batch.
pub open spec fn seq_arguments(v: RunView) -> Seq<Seq<char>> {
    seq![
        crate::text::decimal(v.batch.seq as int),
        crate::text::decimal(v.generation as int),
    ]
}

/// What the touch script is told.
pub open spec fn touch_arguments(v: RunView) -> Seq<Seq<char>> {
    seq![
        crate::text::decimal(v.now_ms as int),
        crate::text::decimal(v.ttl_ms as int),
        v.batch.address,
        v.batch.incarnation,
        v.batch.spec,
        crate::text::decimal(v.batch.dp_rank as int),
    ]
}

/// The job for a block of an action.
pub open spec fn action_job(v: RunView, action: ActionView, hash: Seq<char>) -> JobView {
    let bit = crate::redis_backend::codec::bit_of(action.tier);
    if is_report(action) {
        JobView::Report { worker: v.batch.worker, hash, bit, generation: v.generation }
    } else {
        JobView::Revoke { worker: v.batch.worker, hash, bit, generation: v.generation }
    }
}

/// The jobs for blocks of an action.
pub open spec fn action_jobs(v: RunView, action: ActionView, hashes: Seq<Seq<char>>) -> Seq<
    JobView,
> {
    hashes.map_values(|h: Seq<char>| action_job(v, action, h))
}

/// The jobs that clear what an older generation left.
pub open spec fn forget_jobs(v: RunView, stale: Seq<ReverseMemberView>) -> Seq<JobView> {
    stale.map_values(
        |m: ReverseMemberView|
            JobView::Forget {
                worker: v.batch.worker,
                hash: m.hash,
                member: m.encoded,
                generation: v.generation,
            },
    )
}

/// What is to be done in a state.
pub open spec fn step_of(v: RunView) -> StepView {
    match v.phase {
        PhaseView::Touch => StepView::Run(on_meta(v, Script::TouchMeta, touch_arguments(v))),
        PhaseView::ResetScan { cursor } => StepView::Run(
            crate::redis_backend::commands::page_command(v.batch.worker, cursor),
        ),
        PhaseView::ResetClear { next: _, stale } => StepView::RunAll(
            forget_jobs(v, at_once(stale)),
        ),
        PhaseView::ResetFinish => StepView::Run(
            on_meta(
                v,
                Script::ResetFinish,
                seq![crate::text::decimal(v.generation as int)],
            ),
        ),
        PhaseView::ReadSeq => StepView::Run(
            CommandView::HashGet { key: KeyView::WorkerMeta(v.batch.worker), field: "seq"@ },
        ),
        PhaseView::CheckSeq => StepView::Run(on_meta(v, Script::SeqCheck, seq_arguments(v))),
        PhaseView::Act { index, hashes } => StepView::RunAll(
            action_jobs(v, v.batch.actions[index as int], at_once(hashes)),
        ),
        PhaseView::ClearScan { index: _, cursor } => StepView::Run(
            crate::redis_backend::commands::page_command(v.batch.worker, cursor),
        ),
        PhaseView::ClearRevoke { index, next: _, hashes } => StepView::RunAll(
            action_jobs(v, v.batch.actions[index as int], at_once(hashes)),
        ),
        PhaseView::Commit => StepView::Run(on_meta(v, Script::SeqCommit, seq_arguments(v))),
        PhaseView::Finished { response } => StepView::Answer(response),
    }
}

/// Whether a transition went as expected. A refused one leaves the state as it
/// was.
pub open spec fn moved(
    r: Result<(), RpcStatus>,
    before: RunView,
    after: RunView,
    expected: Result<RunView, StatusView>,
) -> bool {
    match expected {
        Ok(next) => r is Ok && after == next,
        Err(status) => r matches Err(e) && e@ == status && after == before,
    }
}

/// Whether a phase waits for a pair of numbers.
pub open spec fn awaits_pair(phase: PhaseView) -> bool {
    phase is Touch || phase is CheckSeq || phase is Commit
}

/// The state after a script answered with a pair.
pub open spec fn after_pair(v: RunView, first: i64, second: i64) -> Result<RunView, StatusView> {
    match v.phase {
        PhaseView::Touch => after_touch(v, first, second),
        PhaseView::CheckSeq => after_check(v, first, second),
        _ => after_commit(v, first, second),
    }
}

/// Whether a phase waits for a page.
pub open spec fn awaits_page(phase: PhaseView) -> bool {
    phase is ResetScan || phase is ClearScan
}

/// The state after a page was read.
pub open spec fn after_page(v: RunView, next: u64, members: Seq<ReverseMemberView>) -> Result<
    RunView,
    StatusView,
> {
    match v.phase {
        PhaseView::ClearScan { index, cursor: _ } => after_clear_page(v, index, next, members),
        _ => Ok(after_reset_page(v, next, members)),
    }
}

/// Whether a phase waits for jobs.
pub open spec fn awaits_jobs(phase: PhaseView) -> bool {
    phase is ResetClear || phase is Act || phase is ClearRevoke
}

/// Whether a phase waits for a reply.
pub open spec fn awaits_reply(phase: PhaseView) -> bool {
    !awaits_jobs(phase) && !(phase is Finished)
}

/// A batch under way.
#[derive(Debug)]
pub struct ApplyRun {
    request: ApplyExternalKvBatchRequest,
    incarnation: String,
    spec: String,
    now_ms: i64,
    ttl_ms: u64,
    generation: i64,
    phase: Phase,
}

impl View for ApplyRun {
    type V = RunView;

    closed spec fn view(&self) -> RunView {
        RunView {
            batch: BatchView {
                worker: self.request.worker_id@,
                address: self.request.worker_address@,
                seq: self.request.seq,
                incarnation: self.incarnation@,
                spec: self.spec@,
                dp_rank: self.request.dp_rank,
                actions: crate::validate::action_views(self.request.actions@),
            },
            now_ms: self.now_ms,
            ttl_ms: self.ttl_ms,
            generation: self.generation,
            phase: self.phase@,
        }
    }
}

/// The answer about the sequence number that is stored.
pub fn seq_answer(stored: i64, duplicate: bool) -> (r: ApplyExternalKvBatchResponse)
    ensures
        r == seq_response(stored, duplicate),
{
    ApplyExternalKvBatchResponse {
        last_applied_seq: if stored > 0 {
            stored as u64
        } else {
            0
        },
        duplicate,
        has_applied_seq: stored >= 0,
    }
}

/// The texts behind those of one step.
fn texts_left(s: &Vec<String>) -> (r: Vec<String>)
    ensures
        crate::text::texts(r@) == left_over(crate::text::texts(s@)),
{
    let mut r: Vec<String> = Vec::new();
    let mut i: usize = REDIS_FANOUT_CHUNK;
    while i < s.len()
        invariant
            REDIS_FANOUT_CHUNK <= i,
            i <= s@.len() || i == REDIS_FANOUT_CHUNK,
            r@.len() == i - REDIS_FANOUT_CHUNK,
            forall|k: int| 0 <= k < r@.len() ==> #[trigger] r@[k] == s@[k + REDIS_FANOUT_CHUNK],
        decreases s@.len() - i,
    {
        r.push(s[i].clone());
        i = i + 1;
    }
    assert(crate::text::texts(r@) =~= left_over(crate::text::texts(s@)));
    r
}

/// The entries behind those of one step.
fn members_left(s: &Vec<ReverseMember>) -> (r: Vec<ReverseMember>)
    ensures
        crate::redis_backend::replies::member_views(r@) == left_over(
            crate::redis_backend::replies::member_views(s@),
        ),
{
    let mut r: Vec<ReverseMember> = Vec::new();
    let mut i: usize = REDIS_FANOUT_CHUNK;
    while i < s.len()
        invariant
            REDIS_FANOUT_CHUNK <= i,
            i <= s@.len() || i == REDIS_FANOUT_CHUNK,
            r@.len() == i - REDIS_FANOUT_CHUNK,
            forall|k: int|
                0 <= k < r@.len() ==> (#[trigger] r@[k])@ == s@[k + REDIS_FANOUT_CHUNK]@,
        decreases s@.len() - i,
    {
        r.push(s[i].copy());
        i = i + 1;
    }
    assert(crate::redis_backend::replies::member_views(r@) =~= left_over(
        crate::redis_backend::replies::member_views(s@),
    ));
    r
}

/// The entries of older generations.
fn stale_of(members: Vec<ReverseMember>, generation: i64) -> (r: Vec<ReverseMember>)
    ensures
        crate::redis_backend::replies::member_views(r@) == stale_members(
            crate::redis_backend::replies::member_views(members@),
            generation,
        ),
{
    let ghost input = members@;
    let ghost all = crate::redis_backend::replies::member_views(input);
    let mut r: Vec<ReverseMember> = Vec::new();
    assert(crate::redis_backend::replies::member_views(r@) =~= stale_members(
        all.take(0),
        generation,
    ));
    for member in it: members
        invariant
            it.seq() == input,
            all == crate::redis_backend::replies::member_views(input),
            crate::redis_backend::replies::member_views(r@) == stale_members(
                all.take(it.index() as int),
                generation,
            ),
    {
        let ghost n = it.index() as int;
        let ghost before = r@;
        assert(all.take(n + 1).drop_last() =~= all.take(n));
        assert(all.take(n + 1).last() == member@);
        if member.generation < generation {
            r.push(member);
            assert(crate::redis_backend::replies::member_views(r@)
                =~= crate::redis_backend::replies::member_views(before).push(member@));
        }
    }
    assert(all.take(input.len() as int) =~= all);
    r
}

/// The blocks of the given generation, each once.
fn current_hashes(members: &Vec<ReverseMember>, generation: i64) -> (r: Vec<String>)
    ensures
        crate::text::texts(r@) == crate::text::distinct(
            member_hashes(crate::redis_backend::replies::member_views(members@), generation),
        ),
{
    let ghost all = crate::redis_backend::replies::member_views(members@);
    let mut hashes: Vec<String> = Vec::new();
    let mut i: usize = 0;
    assert(crate::text::texts(hashes@) =~= member_hashes(all.take(0), generation));
    while i < members.len()
        invariant
            i <= members@.len(),
            all == crate::redis_backend::replies::member_views(members@),
            crate::text::texts(hashes@) == member_hashes(all.take(i as int), generation),
        decreases members@.len() - i,
    {
        let ghost before = hashes@;
        assert(all.take(i + 1).drop_last() =~= all.take(i as int));
        assert(all.take(i + 1).last() == members@[i as int]@);
        if members[i].generation == generation {
            hashes.push(members[i].hash.clone());
            assert(crate::text::texts(hashes@) =~= crate::text::texts(before).push(
                members@[i as int].hash@,
            ));
        }
        i = i + 1;
    }
    assert(all.take(i as int) =~= all);
    crate::text::dedup_preserve_order(hashes.as_slice())
}

impl ApplyRun {
    /// Begins a batch. `ttl_ms` is how long the worker stays alive without a
    /// sign of life, 0 for ever.
    pub fn start(request: ApplyExternalKvBatchRequest, now_ms: i64, ttl_ms: u64) -> (r: ApplyRun)
        ensures
            run_is_valid(r@),
            r@ == (RunView {
                batch: batch_of(request),
                now_ms,
                ttl_ms,
                generation: 0,
                phase: PhaseView::Touch,
            }),
    {
        let incarnation = if request.incarnation.as_str().is_empty() {
            "__legacy__".to_owned()
        } else {
            request.incarnation.clone()
        };
        let spec = match crate::redis_backend::codec::encode_checked_spec(&request.hash_spec) {
            Some(spec) => spec,
            None => String::new(),
        };
        assert(spec@ =~= batch_of(request).spec);
        ApplyRun { request, incarnation, spec, now_ms, ttl_ms, generation: 0, phase: Phase::Touch }
    }

    /// A script over the worker's registry entry.
    fn invoke(&self, script: Script, args: Vec<String>) -> (r: Step)
        ensures
            r@ == StepView::Run(on_meta(self@, script, crate::text::texts(args@))),
    {
        Step::Run(
            crate::redis_backend::commands::invoke_one(
                script,
                Key::WorkerMeta(self.request.worker_id.clone()),
                args,
            ),
        )
    }

    /// The sequence number and the generation of the batch.
    fn seq_args(&self) -> (r: Vec<String>)
        ensures
            crate::text::texts(r@) == seq_arguments(self@),
    {
        let mut args: Vec<String> = Vec::new();
        args.push(crate::text::decimal_text(self.request.seq as u128));
        args.push(crate::text::signed_decimal_text(self.generation));
        assert(crate::text::texts(args@) =~= seq_arguments(self@));
        args
    }

    /// The jobs of one step for blocks of an action.
    fn jobs_for(&self, index: usize, hashes: &Vec<String>) -> (r: Step)
        requires
            index < self@.batch.actions.len(),
        ensures
            r@ == StepView::RunAll(
                action_jobs(
                    self@,
                    self@.batch.actions[index as int],
                    at_once(crate::text::texts(hashes@)),
                ),
            ),
    {
        let action = &self.request.actions[index];
        let ghost v = self@;
        let ghost parts = at_once(crate::text::texts(hashes@));
        assert(v.batch.actions[index as int] == action@);
        let bit: i64 = crate::redis_backend::codec::tier_bit(action.tier);
        let report = match ExternalKvActionType::from_number(action.kind) {
            Some(ExternalKvActionType::ActionReport) => true,
            _ => false,
        };
        let n: usize = if hashes.len() <= REDIS_FANOUT_CHUNK {
            hashes.len()
        } else {
            REDIS_FANOUT_CHUNK
        };
        let mut jobs: Vec<Job> = Vec::new();
        let mut i: usize = 0;
        while i < n
            invariant
                i <= n <= hashes@.len(),
                n == parts.len(),
                v == self@,
                forall|k: int| 0 <= k < n ==> #[trigger] parts[k] == hashes@[k]@,
                bit == crate::redis_backend::codec::bit_of(action@.tier),
                report == is_report(action@),
                jobs@.len() == i,
                forall|k: int|
                    0 <= k < i ==> (#[trigger] jobs@[k])@ == action_job(v, action@, parts[k]),
            decreases n - i,
        {
            let hash = hashes[i].clone();
            assert(parts[i as int] == hash@);
            jobs.push(
                Job {
                    worker: self.request.worker_id.clone(),
                    generation: self.generation,
                    kind: if report {
                        JobKind::Report { hash, bit }
                    } else {
                        JobKind::Revoke { hash, bit }
                    },
                },
            );
            i = i + 1;
        }
        assert(job_views(jobs@) =~= action_jobs(v, action@, parts));
        Step::RunAll(jobs)
    }

    /// The jobs of one step for what an older generation left.
    fn jobs_to_forget(&self, stale: &Vec<ReverseMember>) -> (r: Step)
        ensures
            r@ == StepView::RunAll(
                forget_jobs(
                    self@,
                    at_once(crate::redis_backend::replies::member_views(stale@)),
                ),
            ),
    {
        let ghost v = self@;
        let ghost parts = at_once(crate::redis_backend::replies::member_views(stale@));
        let n: usize = if stale.len() <= REDIS_FANOUT_CHUNK {
            stale.len()
        } else {
            REDIS_FANOUT_CHUNK
        };
        let mut jobs: Vec<Job> = Vec::new();
        let mut i: usize = 0;
        while i < n
            invariant
                i <= n <= stale@.len(),
                n == parts.len(),
                v == self@,
                forall|k: int| 0 <= k < n ==> #[trigger] parts[k] == stale@[k]@,
                jobs@.len() == i,
                forall|k: int|
                    0 <= k < i ==> (#[trigger] jobs@[k])@ == forget_jobs(v, parts)[k],
            decreases n - i,
        {
            assert(parts[i as int] == stale@[i as int]@);
            jobs.push(
                Job {
                    worker: self.request.worker_id.clone(),
                    generation: self.generation,
                    kind: JobKind::Forget {
                        hash: stale[i].hash.clone(),
                        member: stale[i].encoded.clone(),
                    },
                },
            );
            i = i + 1;
        }
        assert(job_views(jobs@) =~= forget_jobs(v, parts));
        Step::RunAll(jobs)
    }

    /// What is to be done next.
    pub fn step(&self) -> (r: Step)
        requires
            run_is_valid(self@),
        ensures
            r@ == step_of(self@),
    {
        match &self.phase {
            Phase::Touch => {
                let mut args: Vec<String> = Vec::new();
                args.push(crate::text::signed_decimal_text(self.now_ms));
                args.push(crate::text::decimal_text(self.ttl_ms as u128));
                args.push(self.request.worker_address.clone());
                args.push(self.incarnation.clone());
                args.push(self.spec.clone());
                args.push(crate::text::decimal_text(self.request.dp_rank as u128));
                assert(crate::text::texts(args@) =~= touch_arguments(self@));
                self.invoke(Script::TouchMeta, args)
            },
            Phase::ResetScan { cursor } => Step::Run(
                crate::redis_backend::commands::read_page(
                    self.request.worker_id.as_str(),
                    *cursor,
                ),
            ),
            Phase::ResetClear { next: _, stale } => self.jobs_to_forget(stale),
            Phase::ResetFinish => {
                let mut args: Vec<String> = Vec::new();
                args.push(crate::text::signed_decimal_text(self.generation));
                assert(crate::text::texts(args@) =~= seq![
                    crate::text::decimal(self@.generation as int),
                ]);
                self.invoke(Script::ResetFinish, args)
            },
            Phase::ReadSeq => Step::Run(
                crate::redis_backend::commands::read_seq(self.request.worker_id.as_str()),
            ),
            Phase::CheckSeq => self.invoke(Script::SeqCheck, self.seq_args()),
            Phase::Act { index, hashes } => self.jobs_for(*index, hashes),
            Phase::ClearScan { index: _, cursor } => Step::Run(
                crate::redis_backend::commands::read_page(
                    self.request.worker_id.as_str(),
                    *cursor,
                ),
            ),
            Phase::ClearRevoke { index, next: _, hashes } => self.jobs_for(*index, hashes),
            Phase::Commit => self.invoke(Script::SeqCommit, self.seq_args()),
            Phase::Finished { response } => Step::Answer(*response),
        }
    }

    /// Goes to the beginning of an action, or of the next one that has anything
    /// to do.
    fn begin_action(&mut self, index: usize) -> (r: Result<(), RpcStatus>)
        requires
            index <= old(self)@.batch.actions.len(),
        ensures
            moved(r, old(self)@, final(self)@, enter_action(old(self)@, index as nat)),
            r is Ok ==> run_is_valid(final(self)@),
    {
        let ghost start = self@;
        let mut at: usize = index;
        while at < self.request.actions.len()
            invariant
                self@ == start,
                start == old(self)@,
                at <= start.batch.actions.len(),
                at_action(start.batch.actions, index as nat) == at_action(
                    start.batch.actions,
                    at as nat,
                ),
            decreases start.batch.actions.len() - at,
        {
            let action = &self.request.actions[at];
            assert(start.batch.actions[at as int] == action@);
            match ExternalKvActionType::from_number(action.kind) {
                Some(ExternalKvActionType::ActionReport)
                | Some(ExternalKvActionType::ActionRevoke) => {
                    if action.hashes.len() > 0 {
                        let hashes = crate::text::first_texts(
                            action.hashes.as_slice(),
                            action.hashes.len(),
                        );
                        assert(hashes@ =~= action.hashes@);
                        self.phase = Phase::Act { index: at, hashes };
                        return Ok(());
                    }
                },
                Some(ExternalKvActionType::ActionClearAllAtTier) => {
                    self.phase = Phase::ClearScan { index: at, cursor: 0 };
                    return Ok(());
                },
                _ => {
                    return Err(RpcStatus::invalid_argument("unsupported action type"));
                },
            }
            at = at + 1;
        }
        self.phase = Phase::Commit;
        Ok(())
    }

    /// Goes on once the generation is open.
    fn open(&mut self)
        ensures
            final(self)@ == opened(old(self)@),
            run_is_valid(final(self)@),
    {
        if self.request.actions.len() == 0 {
            self.phase = Phase::ReadSeq;
        } else {
            self.phase = Phase::CheckSeq;
        }
    }

    /// Takes in the pair that a script answered with.
    pub fn took_pair(&mut self, first: i64, second: i64) -> (r: Result<(), RpcStatus>)
        requires
            run_is_valid(old(self)@),
            awaits_pair(old(self)@.phase),
        ensures
            moved(r, old(self)@, final(self)@, after_pair(old(self)@, first, second)),
            run_is_valid(final(self)@),
    {
        match &self.phase {
            Phase::Touch => {
                if first < 0 {
                    let mut message = "worker incarnation has been retired: ".to_owned();
                    message.append(self.incarnation.as_str());
                    return Err(RpcStatus::failed_precondition(message));
                }
                self.generation = second;
                if first == 1 {
                    self.phase = Phase::ResetScan { cursor: 0 };
                } else {
                    self.open();
                }
                Ok(())
            },
            Phase::CheckSeq => {
                match crate::redis_backend::replies::require_current(
                    first,
                    "worker incarnation changed while applying batch",
                ) {
                    Ok(()) => {},
                    Err(e) => {
                        return Err(e);
                    },
                }
                if first == 1 {
                    self.begin_action(0)
                } else {
                    self.phase = Phase::Finished { response: seq_answer(second, true) };
                    Ok(())
                }
            },
            _ => {
                match crate::redis_backend::replies::require_current(
                    first,
                    "worker incarnation changed while applying batch",
                ) {
                    Ok(()) => {},
                    Err(e) => {
                        return Err(e);
                    },
                }
                self.phase = Phase::Finished { response: seq_answer(second, false) };
                Ok(())
            },
        }
    }

    /// Takes in the status of the script that opens the generation.
    pub fn took_status(&mut self, status: i64) -> (r: Result<(), RpcStatus>)
        requires
            run_is_valid(old(self)@),
            old(self)@.phase is ResetFinish,
        ensures
            moved(r, old(self)@, final(self)@, after_reset_finish(old(self)@, status)),
            run_is_valid(final(self)@),
    {
        match crate::redis_backend::replies::require_current(
            status,
            "worker generation changed while resetting",
        ) {
            Ok(()) => {
                self.open();
                Ok(())
            },
            Err(e) => Err(e),
        }
    }

    /// Takes in the stored sequence number, `-1` where there is none.
    pub fn took_seq(&mut self, stored: i64)
        requires
            run_is_valid(old(self)@),
            old(self)@.phase is ReadSeq,
        ensures
            final(self)@ == after_seq(old(self)@, stored),
            run_is_valid(final(self)@),
    {
        self.phase = Phase::Finished { response: seq_answer(stored, false) };
    }

    /// Goes on once a page is cleared for a reset.
    fn move_reset_cursor(&mut self, next: u64)
        ensures
            final(self)@ == reset_cursor(old(self)@, next),
            run_is_valid(final(self)@),
    {
        if next == 0 {
            self.phase = Phase::ResetFinish;
        } else {
            self.phase = Phase::ResetScan { cursor: next };
        }
    }

    /// Goes on once a page is cleared for a clearing action.
    fn move_clear_cursor(&mut self, index: usize, next: u64) -> (r: Result<(), RpcStatus>)
        requires
            index < old(self)@.batch.actions.len(),
        ensures
            moved(r, old(self)@, final(self)@, clear_cursor(old(self)@, index as nat, next)),
            r is Ok ==> run_is_valid(final(self)@),
    {
        if next == 0 {
            assert(index < self.request.actions.len());
            self.begin_action(index + 1)
        } else {
            self.phase = Phase::ClearScan { index, cursor: next };
            Ok(())
        }
    }

    /// Takes in a page of the worker's blocks.
    pub fn took_page(&mut self, next: u64, members: Vec<ReverseMember>) -> (r: Result<
        (),
        RpcStatus,
    >)
        requires
            run_is_valid(old(self)@),
            awaits_page(old(self)@.phase),
        ensures
            moved(
                r,
                old(self)@,
                final(self)@,
                after_page(
                    old(self)@,
                    next,
                    crate::redis_backend::replies::member_views(members@),
                ),
            ),
            run_is_valid(final(self)@),
    {
        match &self.phase {
            Phase::ClearScan { index, cursor: _ } => {
                let index: usize = *index;
                let hashes = current_hashes(&members, self.generation);
                assert(crate::text::texts(hashes@).len() == hashes@.len());
                if hashes.len() > 0 {
                    self.phase = Phase::ClearRevoke { index, next, hashes };
                    Ok(())
                } else {
                    self.move_clear_cursor(index, next)
                }
            },
            _ => {
                let stale = stale_of(members, self.generation);
                assert(crate::redis_backend::replies::member_views(stale@).len() == stale@.len());
                if stale.len() > 0 {
                    self.phase = Phase::ResetClear { next, stale };
                } else {
                    self.move_reset_cursor(next);
                }
                Ok(())
            },
        }
    }

    /// Goes on once all jobs of the step are done.
    pub fn completed(&mut self) -> (r: Result<(), RpcStatus>)
        requires
            run_is_valid(old(self)@),
            awaits_jobs(old(self)@.phase),
        ensures
            moved(r, old(self)@, final(self)@, after_jobs(old(self)@)),
            run_is_valid(final(self)@),
    {
        match &self.phase {
            Phase::ResetClear { next, stale } => {
                let next: u64 = *next;
                let stale = members_left(stale);
                assert(crate::redis_backend::replies::member_views(stale@).len() == stale@.len());
                if stale.len() > 0 {
                    self.phase = Phase::ResetClear { next, stale };
                } else {
                    self.move_reset_cursor(next);
                }
                Ok(())
            },
            Phase::Act { index, hashes } => {
                let index: usize = *index;
                let hashes = texts_left(hashes);
                assert(crate::text::texts(hashes@).len() == hashes@.len());
                if hashes.len() > 0 {
                    self.phase = Phase::Act { index, hashes };
                    Ok(())
                } else {
                    assert(index < self.request.actions.len());
                    self.begin_action(index + 1)
                }
            },
            Phase::ClearRevoke { index, next, hashes } => {
                let index: usize = *index;
                let next: u64 = *next;
                let hashes = texts_left(hashes);
                assert(crate::text::texts(hashes@).len() == hashes@.len());
                if hashes.len() > 0 {
                    self.phase = Phase::ClearRevoke { index, next, hashes };
                    Ok(())
                } else {
                    self.move_clear_cursor(index, next)
                }
            },
            _ => Ok(()),
        }
    }

    /// Reads the reply to the request of the step and goes on.
    pub fn replied(&mut self, reply: &redis::Value) -> (r: Result<(), RpcStatus>)
        requires
            run_is_valid(old(self)@),
            awaits_reply(old(self)@.phase),
        ensures
            run_is_valid(final(self)@),
            reply_moves(old(self)@, *reply, r, final(self)@),
    {
        let kind: u8 = match &self.phase {
            Phase::ResetScan { .. } => 0,
            Phase::ClearScan { .. } => 0,
            Phase::ResetFinish => 1,
            Phase::ReadSeq => 2,
            _ => 3,
        };
        if kind == 0 {
            match crate::redis_backend::replies::page_from_reply(reply) {
                Ok((next, members)) => self.took_page(next, members),
                Err(e) => Err(e),
            }
        } else if kind == 1 {
            match crate::redis_backend::replies::script_status(reply) {
                Ok(status) => self.took_status(status),
                Err(e) => Err(e),
            }
        } else if kind == 2 {
            match crate::redis_backend::replies::stored_seq(reply) {
                Ok(stored) => {
                    self.took_seq(stored);
                    Ok(())
                },
                Err(e) => Err(e),
            }
        } else {
            match crate::redis_backend::replies::script_pair(reply) {
                Ok((first, second)) => self.took_pair(first, second),
                Err(e) => Err(e),
            }
        }
    }
}

/// Whether a reply that could not be read left the state as it was.
pub open spec fn unread(before: RunView, r: Result<(), RpcStatus>, after: RunView) -> bool {
    r matches Err(e) && crate::redis_backend::replies::is_store_failure(e) && after == before
}

/// What a reply leads to: it is read as what the phase waits for, and the state
/// moves by what was read.
pub open spec fn reply_moves(
    before: RunView,
    reply: redis::Value,
    r: Result<(), RpcStatus>,
    after: RunView,
) -> bool {
    if awaits_page(before.phase) {
        if crate::redis_backend::replies::reply_is_empty_map(
            crate::redis_backend::replies::reply_data(reply),
        ) {
            r matches Err(e) && e@ == crate::redis_backend::replies::no_page() && after == before
        } else {
            match crate::redis_backend::replies::reply_page(reply) {
                Some((next, page)) => moved(
                    r,
                    before,
                    after,
                    after_page(before, next, crate::redis_backend::replies::parsed_members(page)),
                ),
                None => unread(before, r, after),
            }
        }
    } else if before.phase is ResetFinish {
        match crate::redis_backend::replies::reply_integer(reply) {
            Some(status) => moved(r, before, after, after_reset_finish(before, status)),
            None => unread(before, r, after),
        }
    } else if before.phase is ReadSeq {
        match crate::redis_backend::replies::reply_optional_integer(reply) {
            Some(Some(stored)) => r is Ok && after == after_seq(before, stored),
            Some(None) => r is Ok && after == after_seq(before, (-1) as i64),
            None => unread(before, r, after),
        }
    } else {
        match crate::redis_backend::replies::reply_integers(reply) {
            Some(values) => match crate::redis_backend::replies::pair_of(values) {
                Some((first, second)) => moved(
                    r,
                    before,
                    after,
                    after_pair(before, first, second),
                ),
                None => r matches Err(e) && e@ == crate::status::status(
                    Code::Internal,
                    "invalid Redis script response"@,
                ) && after == before,
            },
            None => unread(before, r, after),
        }
    }
}

} // verus!
