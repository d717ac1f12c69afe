//! What the store is asked to do.

use vstd::prelude::*;

use crate::redis_backend::codec::REVERSE_SCAN_PAGE;
use crate::redis_backend::hits::HitBump;
use crate::status::{Code, RpcStatus, StatusView};

verus! {

/// The scripts that run inside the store.
#[derive(Debug, Clone, Copy, PartialEq, Eq, Structural)]
pub enum Script {
    /// Refreshes a worker's liveness and records what it reports of itself.
    TouchMeta,
    /// Compares a batch with the last one applied.
    SeqCheck,
    /// Records a batch as applied.
    SeqCommit,
    /// Opens a worker's generation once the older one is cleared.
    ResetFinish,
    /// Places a block on a worker at a tier.
    PlacementSet,
    /// Takes a block from a worker at a tier.
    PlacementClear,
    /// Takes a block from an older generation of a worker.
    PlacementClearWorker,
    /// Reads a block's placement.
    MatchHash,
    /// Reads a worker's registry entry.
    WorkerView,
    /// Counts a hit of a block.
    HitBump,
}

/// What is stored under a key.
#[derive(Debug, PartialEq, Eq)]
pub enum Key {
    /// The registry entry of a worker.
    WorkerMeta(String),
    /// The blocks of a worker.
    WorkerBlocks(String),
    /// The placement of a block.
    Placement(String),
    /// The hits of a block.
    Hits(String),
}

/// The model of a [`Key`].
pub enum KeyView {
    WorkerMeta(Seq<char>),
    WorkerBlocks(Seq<char>),
    Placement(Seq<char>),
    Hits(Seq<char>),
}

impl View for Key {
    type V = KeyView;

    open spec fn view(&self) -> KeyView {
        match self {
            Key::WorkerMeta(worker) => KeyView::WorkerMeta(worker@),
            Key::WorkerBlocks(worker) => KeyView::WorkerBlocks(worker@),
            Key::Placement(hash) => KeyView::Placement(hash@),
            Key::Hits(hash) => KeyView::Hits(hash@),
        }
    }
}

/// One request to the store.
#[derive(Debug, PartialEq, Eq)]
pub enum Command {
    Invoke { script: Script, keys: Vec<Key>, args: Vec<String> },
    HashGet { key: Key, field: String },
    SetScan { key: Key, cursor: u64, count: usize },
    SetAdd { key: Key, members: Vec<String> },
    SetRemove { key: Key, members: Vec<String> },
}

/// The model of a [`Command`].
pub enum CommandView {
    Invoke { script: Script, keys: Seq<KeyView>, args: Seq<Seq<char>> },
    HashGet { key: KeyView, field: Seq<char> },
    SetScan { key: KeyView, cursor: u64, count: usize },
    SetAdd { key: KeyView, members: Seq<Seq<char>> },
    SetRemove { key: KeyView, members: Seq<Seq<char>> },
}

/// The models of several keys.
pub open spec fn key_views(keys: Seq<Key>) -> Seq<KeyView> {
    keys.map_values(|k: Key| k@)
}

impl View for Command {
    type V = CommandView;

    open spec fn view(&self) -> CommandView {
        match self {
            Command::Invoke { script, keys, args } => CommandView::Invoke {
                script: *script,
                keys: key_views(keys@),
                args: crate::text::texts(args@),
            },
            Command::HashGet { key, field } => CommandView::HashGet {
                key: key@,
                field: field@,
            },
            Command::SetScan { key, cursor, count } => CommandView::SetScan {
                key: key@,
                cursor: *cursor,
                count: *count,
            },
            Command::SetAdd { key, members } => CommandView::SetAdd {
                key: key@,
                members: crate::text::texts(members@),
            },
            Command::SetRemove { key, members } => CommandView::SetRemove {
                key: key@,
                members: crate::text::texts(members@),
            },
        }
    }
}

/// A script over one key.
pub(crate) fn invoke_one(script: Script, key: Key, args: Vec<String>) -> (r: Command)
    ensures
        r@ == (CommandView::Invoke {
            script,
            keys: seq![key@],
            args: crate::text::texts(args@),
        }),
{
    let mut keys: Vec<Key> = Vec::new();
    keys.push(key);
    assert(key_views(keys@) =~= seq![key@]);
    Command::Invoke { script, keys, args }
}

/// A script over the placement and the hits of a block.
pub(crate) fn invoke_on_block(script: Script, hash: &str, args: Vec<String>) -> (r: Command)
    ensures
        r@ == (CommandView::Invoke {
            script,
            keys: seq![KeyView::Placement(hash@), KeyView::Hits(hash@)],
            args: crate::text::texts(args@),
        }),
{
    let mut keys: Vec<Key> = Vec::new();
    keys.push(Key::Placement(hash.to_owned()));
    keys.push(Key::Hits(hash.to_owned()));
    assert(key_views(keys@) =~= seq![KeyView::Placement(hash@), KeyView::Hits(hash@)]);
    Command::Invoke { script, keys, args }
}

/// Reads a page of a worker's blocks.
pub open spec fn page_command(worker: Seq<char>, cursor: u64) -> CommandView {
    CommandView::SetScan {
        key: KeyView::WorkerBlocks(worker),
        cursor,
        count: REVERSE_SCAN_PAGE,
    }
}

/// Reads a page of a worker's blocks.
pub fn read_page(worker: &str, cursor: u64) -> (r: Command)
    ensures
        r@ == page_command(worker@, cursor),
{
    Command::SetScan {
        key: Key::WorkerBlocks(worker.to_owned()),
        cursor,
        count: REVERSE_SCAN_PAGE,
    }
}

/// Reads a worker's stored sequence number.
pub fn read_seq(worker: &str) -> (r: Command)
    ensures
        r@ == (CommandView::HashGet { key: KeyView::WorkerMeta(worker@), field: "seq"@ }),
{
    Command::HashGet { key: Key::WorkerMeta(worker.to_owned()), field: "seq".to_owned() }
}

/// Reads a block's placement.
pub fn read_placement(hash: &str) -> (r: Command)
    ensures
        r@ == (CommandView::Invoke {
            script: Script::MatchHash,
            keys: seq![KeyView::Placement(hash@)],
            args: Seq::empty(),
        }),
{
    let args: Vec<String> = Vec::new();
    assert(crate::text::texts(args@) =~= Seq::<Seq<char>>::empty());
    invoke_one(Script::MatchHash, Key::Placement(hash.to_owned()), args)
}

/// Reads a worker's registry entry. The liveness deadline counts only where
/// workers expire.
pub fn read_worker(worker: &str, now_ms: i64, workers_expire: bool) -> (r: Command)
    ensures
        r@ == (CommandView::Invoke {
            script: Script::WorkerView,
            keys: seq![KeyView::WorkerMeta(worker@)],
            args: seq![
                crate::text::decimal(now_ms as int),
                if workers_expire {
                    "1"@
                } else {
                    "0"@
                },
            ],
        }),
{
    let mut args: Vec<String> = Vec::new();
    args.push(crate::text::signed_decimal_text(now_ms));
    args.push(
        if workers_expire {
            "1".to_owned()
        } else {
            "0".to_owned()
        },
    );
    assert(crate::text::texts(args@) =~= seq![
        crate::text::decimal(now_ms as int),
        if workers_expire {
            "1"@
        } else {
            "0"@
        },
    ]);
    invoke_one(Script::WorkerView, Key::WorkerMeta(worker.to_owned()), args)
}

/// Reads a block's hit counter.
pub fn read_hits(hash: &str) -> (r: Command)
    ensures
        r@ == (CommandView::HashGet { key: KeyView::Hits(hash@), field: "c"@ }),
{
    Command::HashGet { key: Key::Hits(hash.to_owned()), field: "c".to_owned() }
}

/// Counts a hit of a block for the workers that hold it.
pub fn count_hit(now_ms: i64, bump: &HitBump) -> (r: Command)
    ensures
        r@ == (CommandView::Invoke {
            script: Script::HitBump,
            keys: seq![KeyView::Placement(bump@.hash), KeyView::Hits(bump@.hash)],
            args: crate::redis_backend::hits::bump_arguments(now_ms, bump@.owners),
        }),
{
    invoke_on_block(
        Script::HitBump,
        bump.hash.as_str(),
        crate::redis_backend::hits::hit_bump_args(now_ms, bump),
    )
}

/// One block's part in a batch. The parts of a step do not depend on each
/// other.
#[derive(Debug, PartialEq, Eq)]
pub struct Job {
    pub worker: String,
    pub generation: i64,
    pub kind: JobKind,
}

/// What a [`Job`] does to its block.
#[derive(Debug, PartialEq, Eq)]
pub enum JobKind {
    /// Places it at the tier with the given bit.
    Report { hash: String, bit: i64 },
    /// Takes it from the tier with the given bit.
    Revoke { hash: String, bit: i64 },
    /// Takes what an older generation left of it, under the given entry.
    Forget { hash: String, member: String },
}

/// The model of a [`Job`].
pub enum JobView {
    Report { worker: Seq<char>, hash: Seq<char>, bit: i64, generation: i64 },
    Revoke { worker: Seq<char>, hash: Seq<char>, bit: i64, generation: i64 },
    Forget { worker: Seq<char>, hash: Seq<char>, member: Seq<char>, generation: i64 },
}

impl View for Job {
    type V = JobView;

    open spec fn view(&self) -> JobView {
        match self.kind {
            JobKind::Report { hash, bit } => JobView::Report {
                worker: self.worker@,
                hash: hash@,
                bit,
                generation: self.generation,
            },
            JobKind::Revoke { hash, bit } => JobView::Revoke {
                worker: self.worker@,
                hash: hash@,
                bit,
                generation: self.generation,
            },
            JobKind::Forget { hash, member } => JobView::Forget {
                worker: self.worker@,
                hash: hash@,
                member: member@,
                generation: self.generation,
            },
        }
    }
}

/// The request that opens a job.
pub open spec fn opening(job: JobView) -> CommandView {
    match job {
        JobView::Report { worker, hash, bit, generation } => CommandView::Invoke {
            script: Script::PlacementSet,
            keys: seq![KeyView::Placement(hash)],
            args: seq![
                worker,
                crate::text::decimal(bit as int),
                crate::text::decimal(generation as int),
            ],
        },
        JobView::Revoke { worker, hash, bit, generation } => CommandView::Invoke {
            script: Script::PlacementClear,
            keys: seq![KeyView::Placement(hash), KeyView::Hits(hash)],
            args: seq![
                worker,
                crate::text::decimal(bit as int),
                crate::text::decimal(generation as int),
            ],
        },
        JobView::Forget { worker, hash, member: _, generation } => CommandView::Invoke {
            script: Script::PlacementClearWorker,
            keys: seq![KeyView::Placement(hash), KeyView::Hits(hash)],
            args: seq![worker, crate::text::decimal(generation as int)],
        },
    }
}

/// What the script status of an opened job leads to: a closing request, nothing
/// more to do, or a refusal because a newer generation owns the block.
///
/// A reported block is always entered among the worker's blocks, so that a
/// repeated batch repairs an entry that was lost. A revoked one leaves them once
/// the worker holds it at no tier; that of generation zero may be entered under
/// its bare hash.
pub open spec fn closing(job: JobView, status: i64) -> Result<Option<CommandView>, StatusView> {
    match job {
        JobView::Report { worker, hash, bit: _, generation } => if status < 0 {
            Err(newer_owner())
        } else {
            Ok(
                Some(
                    CommandView::SetAdd {
                        key: KeyView::WorkerBlocks(worker),
                        members: seq![crate::redis_backend::codec::reverse_text(generation, hash)],
                    },
                ),
            )
        },
        JobView::Revoke { worker, hash, bit: _, generation } => if status < 0 {
            Err(newer_owner())
        } else if status == 1 {
            Ok(
                Some(
                    CommandView::SetRemove {
                        key: KeyView::WorkerBlocks(worker),
                        members: if generation == 0 {
                            seq![crate::redis_backend::codec::reverse_text(generation, hash), hash]
                        } else {
                            seq![crate::redis_backend::codec::reverse_text(generation, hash)]
                        },
                    },
                ),
            )
        } else {
            Ok(None)
        },
        JobView::Forget { worker, hash: _, member, generation: _ } => Ok(
            Some(
                CommandView::SetRemove {
                    key: KeyView::WorkerBlocks(worker),
                    members: seq![member],
                },
            ),
        ),
    }
}

/// The refusal of a job because a newer generation owns the block.
pub open spec fn newer_owner() -> StatusView {
    crate::status::status(
        Code::FailedPrecondition,
        "newer worker generation already owns placement"@,
    )
}

/// Whether a result carries what is expected, in its model.
pub open spec fn closes(
    r: Result<Option<Command>, RpcStatus>,
    expected: Result<Option<CommandView>, StatusView>,
) -> bool {
    match expected {
        Ok(Some(command)) => r matches Ok(Some(c)) && c@ == command,
        Ok(None) => r matches Ok(None),
        Err(status) => r matches Err(e) && e@ == status,
    }
}

impl Job {
    /// The request that opens the job.
    pub fn open(&self) -> (r: Command)
        ensures
            r@ == opening(self@),
    {
        let mut args: Vec<String> = Vec::new();
        args.push(self.worker.clone());
        match &self.kind {
            JobKind::Report { hash, bit } => {
                args.push(crate::text::signed_decimal_text(*bit));
                args.push(crate::text::signed_decimal_text(self.generation));
                assert(crate::text::texts(args@) =~= opening(self@)->args);
                invoke_one(Script::PlacementSet, Key::Placement(hash.clone()), args)
            },
            JobKind::Revoke { hash, bit } => {
                args.push(crate::text::signed_decimal_text(*bit));
                args.push(crate::text::signed_decimal_text(self.generation));
                assert(crate::text::texts(args@) =~= opening(self@)->args);
                invoke_on_block(Script::PlacementClear, hash.as_str(), args)
            },
            JobKind::Forget { hash, member: _ } => {
                args.push(crate::text::signed_decimal_text(self.generation));
                assert(crate::text::texts(args@) =~= opening(self@)->args);
                invoke_on_block(Script::PlacementClearWorker, hash.as_str(), args)
            },
        }
    }

    /// What the script status of the opened job leads to.
    pub fn close_with(&self, status: i64) -> (r: Result<Option<Command>, RpcStatus>)
        ensures
            closes(r, closing(self@, status)),
    {
        let mut members: Vec<String> = Vec::new();
        match &self.kind {
            JobKind::Report { hash, bit: _ } => {
                match crate::redis_backend::replies::require_current(
                    status,
                    "newer worker generation already owns placement",
                ) {
                    Ok(()) => {},
                    Err(e) => {
                        return Err(e);
                    },
                }
                members.push(
                    crate::redis_backend::codec::reverse_member(self.generation, hash.as_str()),
                );
                assert(crate::text::texts(members@) =~= seq![
                    crate::redis_backend::codec::reverse_text(self.generation, hash@),
                ]);
                Ok(
                    Some(
                        Command::SetAdd { key: Key::WorkerBlocks(self.worker.clone()), members },
                    ),
                )
            },
            JobKind::Revoke { hash, bit: _ } => {
                match crate::redis_backend::replies::require_current(
                    status,
                    "newer worker generation already owns placement",
                ) {
                    Ok(()) => {},
                    Err(e) => {
                        return Err(e);
                    },
                }
                if status != 1 {
                    return Ok(None);
                }
                members.push(
                    crate::redis_backend::codec::reverse_member(self.generation, hash.as_str()),
                );
                if self.generation == 0 {
                    members.push(hash.clone());
                }
                assert(crate::text::texts(members@) =~= closing(self@, status)->Ok_0->0->SetRemove_members);
                Ok(
                    Some(
                        Command::SetRemove { key: Key::WorkerBlocks(self.worker.clone()), members },
                    ),
                )
            },
            JobKind::Forget { hash: _, member } => {
                members.push(member.clone());
                assert(crate::text::texts(members@) =~= seq![member@]);
                Ok(
                    Some(
                        Command::SetRemove { key: Key::WorkerBlocks(self.worker.clone()), members },
                    ),
                )
            },
        }
    }

    /// Reads the reply to the opened job and says what it leads to.
    pub fn close(&self, reply: &redis::Value) -> (r: Result<Option<Command>, RpcStatus>)
        ensures
            match job_status(self@, *reply) {
                Some(status) => closes(r, closing(self@, status)),
                None => r matches Err(e) && if self@ is Revoke
                    && crate::redis_backend::replies::reply_integers(*reply) is Some {
                    e@ == crate::status::status(Code::Internal, "invalid Redis script response"@)
                } else {
                    crate::redis_backend::replies::is_store_failure(e)
                },
            },
    {
        let status = match &self.kind {
            JobKind::Revoke { .. } => match crate::redis_backend::replies::script_pair(reply) {
                Ok(pair) => pair.0,
                Err(e) => {
                    return Err(e);
                },
            },
            _ => match crate::redis_backend::replies::script_status(reply) {
                Ok(status) => status,
                Err(e) => {
                    return Err(e);
                },
            },
        };
        self.close_with(status)
    }
}

/// The script status in the reply to an opened job. A revocation answers with a
/// pair, the others with one number.
pub open spec fn job_status(job: JobView, reply: redis::Value) -> Option<i64> {
    match job {
        JobView::Revoke { .. } => match crate::redis_backend::replies::reply_integers(reply) {
            Some(values) => match crate::redis_backend::replies::pair_of(values) {
                Some(pair) => Some(pair.0),
                None => None,
            },
            None => None,
        },
        _ => crate::redis_backend::replies::reply_integer(reply),
    }
}

} // verus!
