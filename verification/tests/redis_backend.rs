//! The Redis rules, driven against a store in memory.

use std::collections::{BTreeMap, BTreeSet, HashMap, HashSet};

use redis::Value;
use sgl_kv_indexer::client::{hash_from_wire, hash_to_wire};
use sgl_kv_indexer::pb::{
    ApplyExternalKvBatchRequest, ApplyExternalKvBatchResponse, ExternalKvAction,
    ExternalKvActionType, GetExternalKvHitCountsRequest, GetExternalKvHitCountsResponse, HashSpec,
    MatchExternalKvPrefixRequest, MatchExternalKvPrefixResponse, MatchExternalKvRequest,
    MatchExternalKvResponse,
};
use sgl_kv_indexer::redis_backend::apply::{ApplyRun, Step};
use sgl_kv_indexer::redis_backend::codec::{
    encode_hash_spec, is_placed_at, parse_placement_value, parse_reverse_member, reverse_member,
    tier_bit, tiers_from_mask, ReverseMember,
};
use sgl_kv_indexer::redis_backend::commands::{
    count_hit, read_hits, read_placement, read_worker, Command, Job, JobKind, Key, Script,
};
use sgl_kv_indexer::redis_backend::hits::{hit_bump_args, hit_count_response, HitBump};
use sgl_kv_indexer::redis_backend::matching::{
    group_by_worker, group_workers, hits_to_record, match_workers,
};
use sgl_kv_indexer::redis_backend::replies::{
    first_pair, hit_count, page_from_reply, placement_from_reply, require_current, script_pair,
    script_status, stored_seq, to_status, worker_from_reply, PlacementOwner, WorkerView,
};
use sgl_kv_indexer::redis_backend::scan::{
    begin_scan, owner_workers, PrefixScan, ScanStart, PREFIX_HIT_MAX_BLOCKS,
    PREFIX_SCAN_MAX_BLOCKS, REDIS_FANOUT_CHUNK,
};
use sgl_kv_indexer::redis_backend::schema::key_name;
use sgl_kv_indexer::redis_backend::settings::{
    fan_out_end, lock_action, read_settings, Environment, LockAction, SettingsError, Target,
    WORKER_LOCKS_KEPT,
};
use sgl_kv_indexer::text::dedup_preserve_order;
use sgl_kv_indexer::{Code, KvIndexerBackend, RpcStatus};

// ---------------------------------------------------------------------------
// A store in memory
// ---------------------------------------------------------------------------

#[derive(Default)]
struct Meta {
    address: String,
    incarnation: Option<String>,
    retired: HashSet<String>,
    generation: i64,
    reset_pending: bool,
    spec: String,
    dp_rank: String,
    live_until: i64,
    seq: Option<i64>,
}

#[derive(Default)]
struct Store {
    placements: BTreeMap<String, BTreeMap<String, String>>,
    hits: BTreeMap<String, i64>,
    blocks: BTreeMap<String, BTreeSet<String>>,
    metas: BTreeMap<String, Meta>,
    /// Members left to return, by cursor.
    pages: HashMap<u64, Vec<String>>,
    /// Every command that was run.
    log: Vec<Command>,
    placements_read: usize,
    page_size: usize,
    /// Whether hits cannot be written.
    hits_refused: bool,
}

fn text(value: &str) -> Value {
    Value::BulkString(value.as_bytes().to_vec())
}

fn pair(a: i64, b: i64) -> Value {
    Value::Array(vec![Value::Int(a), Value::Int(b)])
}

fn number(value: &str) -> i64 {
    value.parse().expect("a number")
}

impl Store {
    fn new() -> Self {
        Store {
            page_size: 3,
            ..Default::default()
        }
    }

    fn key(key: &Key) -> String {
        match key {
            Key::WorkerMeta(w) | Key::WorkerBlocks(w) => w.clone(),
            Key::Placement(h) | Key::Hits(h) => h.clone(),
        }
    }

    fn run(&mut self, command: Command) -> Value {
        let reply = match &command {
            Command::Invoke { script, keys, args } => {
                self.invoke(*script, &Self::key(&keys[0]), args)
            }
            Command::HashGet { key, field } => match (key, field.as_str()) {
                (Key::WorkerMeta(w), "seq") => self
                    .metas
                    .get(w)
                    .and_then(|m| m.seq)
                    .map(|s| text(&s.to_string()))
                    .unwrap_or(Value::Nil),
                (Key::Hits(h), "c") => self
                    .hits
                    .get(h)
                    .map(|c| text(&c.to_string()))
                    .unwrap_or(Value::Nil),
                other => panic!("unexpected field {other:?}"),
            },
            Command::SetScan { key, cursor, count: _ } => {
                let mut left: Vec<String> = if *cursor == 0 {
                    self.blocks
                        .get(&Self::key(key))
                        .map(|b| b.iter().cloned().collect())
                        .unwrap_or_default()
                } else {
                    self.pages.remove(cursor).expect("a known cursor")
                };
                let rest = left.split_off(left.len().min(self.page_size));
                let next = if rest.is_empty() {
                    0
                } else {
                    let next = cursor + 1;
                    self.pages.insert(next, rest);
                    next
                };
                Value::Array(vec![
                    text(&next.to_string()),
                    Value::Array(left.iter().map(|m| text(m)).collect()),
                ])
            }
            Command::SetAdd { key, members } => {
                let set = self.blocks.entry(Self::key(key)).or_default();
                Value::Int(members.iter().filter(|m| set.insert(m.to_string())).count() as i64)
            }
            Command::SetRemove { key, members } => {
                let set = self.blocks.entry(Self::key(key)).or_default();
                Value::Int(members.iter().filter(|m| set.remove(*m)).count() as i64)
            }
        };
        self.log.push(command);
        reply
    }

    fn invoke(&mut self, script: Script, key: &str, args: &[String]) -> Value {
        match script {
            Script::TouchMeta => {
                let meta = self.metas.entry(key.to_string()).or_default();
                if meta.retired.contains(&args[3]) {
                    return pair(-1, meta.generation);
                }
                if meta.incarnation.as_ref() != Some(&args[3]) {
                    if let Some(old) = meta.incarnation.take() {
                        meta.retired.insert(old);
                    }
                    meta.incarnation = Some(args[3].clone());
                    meta.generation += 1;
                    meta.reset_pending = true;
                }
                meta.live_until = number(&args[0]) + number(&args[1]);
                meta.address = args[2].clone();
                if !args[4].is_empty() {
                    meta.spec = args[4].clone();
                }
                meta.dp_rank = args[5].clone();
                pair(meta.reset_pending as i64, meta.generation)
            }
            Script::SeqCheck => {
                let meta = &self.metas[key];
                let last = meta.seq.unwrap_or(-1);
                if number(&args[1]) != meta.generation {
                    pair(-1, last)
                } else {
                    pair((number(&args[0]) > last) as i64, last)
                }
            }
            Script::SeqCommit => {
                let meta = self.metas.get_mut(key).expect("a touched worker");
                if number(&args[1]) != meta.generation {
                    return pair(-1, meta.seq.unwrap_or(-1));
                }
                let seq = number(&args[0]).max(meta.seq.unwrap_or(-1));
                meta.seq = Some(seq);
                pair(1, seq)
            }
            Script::ResetFinish => {
                let meta = self.metas.get_mut(key).expect("a touched worker");
                if number(&args[0]) != meta.generation {
                    return Value::Int(-1);
                }
                if meta.reset_pending {
                    meta.reset_pending = false;
                    meta.seq = None;
                }
                Value::Int(1)
            }
            Script::PlacementSet => {
                let row = self.placements.entry(key.to_string()).or_default();
                let (stored, mask) = row
                    .get(&args[0])
                    .map(|v| parse_placement_value(v))
                    .unwrap_or((i64::MIN, 0));
                let generation = number(&args[2]);
                if stored > generation {
                    return Value::Int(-1);
                }
                let mask = if stored == generation { mask } else { 0 } | number(&args[1]);
                row.insert(args[0].clone(), format!("{generation}:{mask}"));
                Value::Int(1)
            }
            Script::PlacementClear => {
                let Some(row) = self.placements.get_mut(key) else {
                    return pair(1, 0);
                };
                let Some((stored, mask)) = row.get(&args[0]).map(|v| parse_placement_value(v)) else {
                    return pair(1, 0);
                };
                let generation = number(&args[2]);
                if stored > generation {
                    return pair(-1, 0);
                }
                let mask = mask & !number(&args[1]);
                if mask == 0 {
                    row.remove(&args[0]);
                    if row.is_empty() {
                        self.placements.remove(key);
                        self.hits.remove(key);
                    }
                    pair(1, 0)
                } else {
                    row.insert(args[0].clone(), format!("{generation}:{mask}"));
                    pair(0, mask)
                }
            }
            Script::PlacementClearWorker => {
                let generation = number(&args[1]);
                if let Some(row) = self.placements.get_mut(key) {
                    if let Some((stored, _)) = row.get(&args[0]).map(|v| parse_placement_value(v)) {
                        if stored < generation {
                            row.remove(&args[0]);
                        }
                    }
                    if row.is_empty() {
                        self.placements.remove(key);
                        self.hits.remove(key);
                    }
                }
                Value::Int(1)
            }
            Script::MatchHash => {
                self.placements_read += 1;
                Value::Array(
                    self.placements
                        .get(key)
                        .map(|row| row.iter().flat_map(|(w, v)| [text(w), text(v)]).collect())
                        .unwrap_or_default(),
                )
            }
            Script::WorkerView => {
                let meta = &self.metas[key];
                let alive = args[1] == "0" || meta.live_until >= number(&args[0]);
                Value::Array(vec![
                    text(&meta.address),
                    Value::Int(alive as i64),
                    Value::Int(meta.generation),
                    text(&meta.spec),
                    text(&meta.dp_rank),
                ])
            }
            Script::HitBump => {
                let owners: Vec<(&str, i64)> = args[1..]
                    .chunks(2)
                    .map(|c| (c[0].as_str(), number(&c[1])))
                    .collect();
                let held = self.placements.get(key).is_some_and(|row| {
                    owners.iter().any(|(w, g)| {
                        row.get(*w).is_some_and(|v| parse_placement_value(v).0 == *g)
                    })
                });
                if held {
                    *self.hits.entry(key.to_string()).or_default() += 1;
                }
                Value::Int(held as i64)
            }
        }
    }

    // --- the paths of the backend ---

    fn apply_at(
        &mut self,
        request: ApplyExternalKvBatchRequest,
        now: i64,
        ttl: u64,
    ) -> Result<ApplyExternalKvBatchResponse, RpcStatus> {
        let mut run = ApplyRun::start(request, now, ttl);
        loop {
            match run.step() {
                Step::Run(command) => {
                    let reply = self.run(command);
                    run.replied(&reply)?;
                }
                Step::RunAll(jobs) => {
                    assert!(!jobs.is_empty() && jobs.len() <= REDIS_FANOUT_CHUNK);
                    for job in jobs {
                        let reply = self.run(job.open());
                        if let Some(command) = job.close(&reply)? {
                            self.run(command);
                        }
                    }
                    run.completed()?;
                }
                Step::Answer(response) => return Ok(response),
            }
        }
    }

    fn apply(
        &mut self,
        request: ApplyExternalKvBatchRequest,
    ) -> Result<ApplyExternalKvBatchResponse, RpcStatus> {
        self.apply_at(request, 1_000, 0)
    }

    fn placement(&mut self, hash: &str) -> Vec<PlacementOwner> {
        let reply = self.run(read_placement(hash));
        placement_from_reply(&reply).expect("a placement")
    }

    fn views(&mut self, workers: &[String], now: i64, expire: bool) -> Vec<WorkerView> {
        workers
            .iter()
            .map(|w| {
                let reply = self.run(read_worker(w, now, expire));
                worker_from_reply(&reply).expect("a registry entry")
            })
            .collect()
    }

    fn scan_at(
        &mut self,
        request: &MatchExternalKvPrefixRequest,
        now: i64,
        expire: bool,
    ) -> MatchExternalKvPrefixResponse {
        let first = match begin_scan(request) {
            ScanStart::Answer(response) => return response,
            ScanStart::ReadFirst(hash) => hash,
        };
        let owners = self.placement(&first);
        let views = self.views(&owner_workers(&owners), now, expire);
        let mut scan = PrefixScan::start(request, owners, views);
        while let Some((start, end)) = scan.next_window() {
            assert!(end - start <= REDIS_FANOUT_CHUNK);
            let rows = request.hashes[start..end]
                .iter()
                .map(|hash| self.placement(hash))
                .collect();
            scan.absorb(&rows);
        }
        let recorded = self.record(&scan.hits_to_record(request), now);
        let lost = recorded.clone().err();
        let concluded = scan.conclude(request.top_k, recorded);
        assert_eq!(concluded.unrecorded, lost);
        concluded.outcome.expect("an answer")
    }

    fn record(&mut self, bumps: &[HitBump], now: i64) -> Result<(), RpcStatus> {
        if self.hits_refused && !bumps.is_empty() {
            return Err(RpcStatus::unavailable("no counter today".to_string()));
        }
        for bump in bumps {
            self.run(count_hit(now, bump));
        }
        Ok(())
    }

    fn scan(&mut self, request: &MatchExternalKvPrefixRequest) -> MatchExternalKvPrefixResponse {
        self.scan_at(request, 1_000, false)
    }

    fn find(&mut self, request: &MatchExternalKvRequest, now: i64) -> MatchExternalKvResponse {
        let hashes = dedup_preserve_order(&request.hashes);
        let rows: Vec<Vec<PlacementOwner>> = hashes.iter().map(|h| self.placement(h)).collect();
        let groups = group_by_worker(&hashes, &rows);
        let views = self.views(&group_workers(&groups), now, true);
        for bump in hits_to_record(request, &groups, &views) {
            self.run(count_hit(now, &bump));
        }
        match_workers(&groups, &views)
    }

    fn counts(&mut self, hashes: &[String]) -> GetExternalKvHitCountsResponse {
        let hashes = dedup_preserve_order(hashes);
        let counts = hashes
            .iter()
            .map(|h| {
                let reply = self.run(read_hits(h));
                hit_count(&reply).expect("a counter")
            })
            .collect();
        hit_count_response(&hashes, &counts)
    }
}

// ---------------------------------------------------------------------------
// Requests
// ---------------------------------------------------------------------------

const HBM: i32 = 1;
const DRAM: i32 = 2;

fn texts(items: &[&str]) -> Vec<String> {
    items.iter().map(|t| t.to_string()).collect()
}

fn act(kind: ExternalKvActionType, tier: i32, hashes: &[&str]) -> ExternalKvAction {
    ExternalKvAction {
        kind: kind as i32,
        tier,
        hashes: texts(hashes),
        component_masks: Vec::new(),
        block_sizes: Vec::new(),
    }
}

fn report(hashes: &[&str]) -> ExternalKvAction {
    act(ExternalKvActionType::ActionReport, HBM, hashes)
}

fn revoke(hashes: &[&str]) -> ExternalKvAction {
    act(ExternalKvActionType::ActionRevoke, HBM, hashes)
}

fn batch(worker: &str, seq: u64, actions: Vec<ExternalKvAction>) -> ApplyExternalKvBatchRequest {
    ApplyExternalKvBatchRequest {
        worker_id: worker.into(),
        worker_address: worker.into(),
        seq,
        incarnation: String::new(),
        hash_spec: None,
        dp_rank: 0,
        actions,
    }
}

fn prefix(hashes: &[&str]) -> MatchExternalKvPrefixRequest {
    MatchExternalKvPrefixRequest {
        hashes: texts(hashes),
        hash_spec: None,
        max_blocks: 0,
        top_k: 0,
        count_as_hit: false,
    }
}

fn prefix_pairs(resp: &MatchExternalKvPrefixResponse) -> Vec<(String, u32)> {
    resp.matches
        .iter()
        .map(|m| (m.worker_id.clone(), m.matched_prefix_blocks))
        .collect()
}

// ---------------------------------------------------------------------------
// Texts of the store
// ---------------------------------------------------------------------------

#[test]
fn dedup_preserves_first_seen_order() {
    let input = vec![
        "a".to_string(),
        "b".to_string(),
        "a".to_string(),
        "c".to_string(),
        "b".to_string(),
    ];
    assert_eq!(dedup_preserve_order(&input), vec!["a", "b", "c"]);
}

#[test]
fn placement_value_parser_is_backward_compatible() {
    assert_eq!(parse_placement_value("6"), (0, 6));
    assert_eq!(parse_placement_value("3:10"), (3, 10));
    assert_eq!(parse_placement_value("bad"), (0, 0));
}

#[test]
fn placement_values_read_back() {
    for (generation, mask) in [(0, 0), (3, 10), (-7, 2), (i64::MIN, i64::MAX)] {
        let value = format!("{generation}:{mask}");
        assert_eq!(parse_placement_value(&value), (generation, mask));
    }
    assert_eq!(parse_placement_value("3:"), (3, 0));
    assert_eq!(parse_placement_value(":4"), (0, 4));
    assert_eq!(parse_placement_value("3:4:5"), (3, 0));
}

#[test]
fn reverse_member_parser_is_backward_compatible() {
    assert_eq!(parse_reverse_member("hash-a"), (0, "hash-a"));
    assert_eq!(parse_reverse_member("legacy:hash"), (0, "legacy:hash"));
    assert_eq!(parse_reverse_member("3:hash-a"), (3, "hash-a"));
    assert_eq!(reverse_member(3, "hash-a"), "3:hash-a");
}

#[test]
fn reverse_members_read_back() {
    for (generation, hash) in [(0, "a"), (-4, "b:c"), (i64::MAX, ""), (7, "3:x")] {
        let member = reverse_member(generation, hash);
        assert_eq!(parse_reverse_member(&member), (generation, hash));
        let parsed = ReverseMember::parse(member.clone());
        assert_eq!(parsed.encoded, member);
        assert_eq!(parsed.generation, generation);
        assert_eq!(parsed.hash, hash);
    }
}

#[test]
fn tiers_have_bits() {
    assert_eq!(tier_bit(1), 2);
    assert_eq!(tier_bit(2), 4);
    assert_eq!(tier_bit(3), 8);
    assert_eq!(tier_bit(0), 0);
    assert_eq!(tier_bit(4), 0);
    assert_eq!(tiers_from_mask(0), Vec::<i32>::new());
    assert_eq!(tiers_from_mask(2 | 8), vec![1, 3]);
    assert_eq!(tiers_from_mask(-1), vec![1, 2, 3]);
    assert_eq!(tiers_from_mask(1 | 16), Vec::<i32>::new());
    assert!(is_placed_at(6, 2) && !is_placed_at(6, 3));
}

#[test]
fn hash_spaces_are_told_apart() {
    let spec = |namespace: &str| HashSpec {
        block_size: 64,
        algo: 1,
        version: 0,
        namespace: namespace.into(),
    };
    assert_eq!(encode_hash_spec(&spec("")), "64:1:0:");
    assert_eq!(encode_hash_spec(&spec("a:b")), "64:1:0:a:b");
    let mut negative = spec("x");
    negative.algo = -3;
    assert_eq!(encode_hash_spec(&negative), "64:-3:0:x");
}

// ---------------------------------------------------------------------------
// Replies
// ---------------------------------------------------------------------------

#[test]
fn a_script_pair_is_the_first_two_numbers() {
    assert_eq!(script_pair(&pair(1, 7)), Ok((1, 7)));
    let three = Value::Array(vec![Value::Int(1), Value::Int(2), Value::Int(3)]);
    assert_eq!(script_pair(&three), Ok((1, 2)));
    let short = script_pair(&Value::Array(vec![Value::Int(1)])).unwrap_err();
    assert_eq!(short.code(), Code::Internal);
    assert_eq!(short.message(), "invalid Redis script response");
    let odd = script_pair(&Value::Array(vec![text("x"), text("y")])).unwrap_err();
    assert_eq!(odd.code(), Code::Unavailable);
    assert!(odd.message().starts_with("redis backend error: "));
    assert_eq!(first_pair(&vec![4, 5]), Ok((4, 5)));
    assert!(first_pair(&vec![4]).is_err());
}

#[test]
fn one_number_is_read_from_several_forms() {
    assert_eq!(script_status(&Value::Int(-1)), Ok(-1));
    assert_eq!(script_status(&text("12")), Ok(12));
    assert_eq!(script_status(&text("x")).unwrap_err().code(), Code::Unavailable);
    assert_eq!(stored_seq(&Value::Nil), Ok(-1));
    assert_eq!(stored_seq(&text("9")), Ok(9));
    assert_eq!(hit_count(&Value::Nil), Ok(None));
    assert_eq!(hit_count(&Value::Int(3)), Ok(Some(3)));
    assert!(hit_count(&text("many")).is_err());
}

#[test]
fn a_negative_status_is_refused_in_the_given_words() {
    assert_eq!(require_current(0, "moved on"), Ok(()));
    let refused = require_current(-1, "moved on").unwrap_err();
    assert_eq!(refused.code(), Code::FailedPrecondition);
    assert_eq!(refused.message(), "moved on");
}

#[test]
fn a_placement_is_read_from_pairs() {
    let reply = Value::Array(vec![text("w1"), text("3:6"), text("w2"), text("2"), text("odd")]);
    let owners = placement_from_reply(&reply).unwrap();
    let read: Vec<(&str, i64, i64)> = owners
        .iter()
        .map(|o| (o.worker.as_str(), o.generation, o.mask))
        .collect();
    assert_eq!(read, vec![("w1", 3, 6), ("w2", 0, 2)]);
    assert!(placement_from_reply(&Value::Nil).unwrap().is_empty());
    assert!(placement_from_reply(&Value::Array(vec![pair(1, 2)])).is_err());
}

#[test]
fn a_registry_entry_is_read_field_by_field() {
    let reply = Value::Array(vec![
        text("http://w"),
        Value::Int(1),
        Value::Int(4),
        text("64:1:0:"),
        text("2"),
    ]);
    let view = worker_from_reply(&reply).unwrap();
    assert_eq!(view.address, "http://w");
    assert!(view.alive);
    assert_eq!(view.generation, 4);
    assert_eq!(view.spec, "64:1:0:");
    assert_eq!(view.dp_rank, 2);
    assert!(worker_from_reply(&Value::Array(vec![text("short")])).is_err());
    assert!(worker_from_reply(&Value::Map(Vec::new())).is_err());
}

#[test]
fn a_page_is_a_cursor_and_members() {
    let page = |cursor: &str, members: &[&str]| {
        Value::Array(vec![
            text(cursor),
            Value::Array(members.iter().map(|m| text(m)).collect()),
        ])
    };
    let (next, members) = page_from_reply(&page("17", &["3:a", "b"])).unwrap();
    assert_eq!(next, 17);
    assert_eq!(members.len(), 2);
    assert_eq!((members[0].generation, members[0].hash.as_str()), (3, "a"));
    assert_eq!((members[1].generation, members[1].hash.as_str()), (0, "b"));
    assert!(page_from_reply(&Value::Int(3)).is_err());
    assert!(page_from_reply(&Value::Array(Vec::new())).is_err());
    let tagged = Value::Attribute {
        data: Box::new(page("0", &[])),
        attributes: Vec::new(),
    };
    assert_eq!(page_from_reply(&tagged).unwrap().0, 0);
    // One entry of a map reads as a pair as well.
    let map = Value::Map(vec![(text("5"), Value::Array(Vec::new()))]);
    assert_eq!(page_from_reply(&map).unwrap().0, 5);
}

#[test]
fn a_map_without_entries_is_no_page() {
    let empty = Value::Map(Vec::new());
    assert_eq!(page_from_reply(&empty).unwrap_err().code(), Code::Unavailable);
    let tagged = Value::Attribute {
        data: Box::new(Value::Map(Vec::new())),
        attributes: Vec::new(),
    };
    assert_eq!(page_from_reply(&tagged).unwrap_err().code(), Code::Unavailable);
}

#[test]
fn a_store_failure_carries_its_text() {
    let error = redis::RedisError::from((redis::ErrorKind::ResponseError, "gone fishing"));
    let expected = format!("redis backend error: {error}");
    let status = to_status(error);
    assert_eq!(status.code(), Code::Unavailable);
    assert_eq!(status.message(), expected);
}

// ---------------------------------------------------------------------------
// Batches
// ---------------------------------------------------------------------------

#[test]
fn a_batch_places_and_takes_blocks() {
    let mut store = Store::new();
    let response = store
        .apply(batch("w", 1, vec![report(&["a", "b"]), revoke(&["b"])]))
        .unwrap();
    assert_eq!(
        response,
        ApplyExternalKvBatchResponse {
            last_applied_seq: 1,
            duplicate: false,
            has_applied_seq: true,
        }
    );
    assert_eq!(store.placements["a"]["w"], "1:2");
    assert!(!store.placements.contains_key("b"));
    assert_eq!(store.blocks["w"], BTreeSet::from(["1:a".to_string()]));
}

#[test]
fn a_repeated_batch_is_skipped_as_a_duplicate() {
    let mut store = Store::new();
    store.apply(batch("w", 5, vec![report(&["a"])])).unwrap();
    let before = store.placements.clone();
    let commands = store.log.len();
    let response = store.apply(batch("w", 5, vec![revoke(&["a"])])).unwrap();
    assert!(response.duplicate);
    assert_eq!(response.last_applied_seq, 5);
    assert_eq!(store.placements, before);
    assert_eq!(store.log.len(), commands + 2, "touch and check, nothing more");
}

#[test]
fn a_verbatim_replay_is_a_no_op() {
    let mut store = Store::new();
    let request = batch("w", 7, vec![report(&["a", "b"]), revoke(&["b"]), report(&["c"])]);
    let first = store.apply(request.clone()).unwrap();
    let mut counted = prefix(&["a"]);
    counted.count_as_hit = true;
    store.scan(&counted);
    let state = (store.placements.clone(), store.blocks.clone(), store.hits.clone());
    let again = store.apply(request).unwrap();
    assert!(!first.duplicate && again.duplicate);
    assert_eq!(again.last_applied_seq, first.last_applied_seq);
    assert_eq!(again.last_applied_seq, 7);
    assert_eq!(state, (store.placements, store.blocks, store.hits));
}

#[test]
fn a_heartbeat_reports_the_stored_sequence() {
    let mut store = Store::new();
    let fresh = store.apply(batch("w", 9, Vec::new())).unwrap();
    assert_eq!(
        fresh,
        ApplyExternalKvBatchResponse {
            last_applied_seq: 0,
            duplicate: false,
            has_applied_seq: false,
        }
    );
    store.apply(batch("w", 3, vec![report(&["a"])])).unwrap();
    let later = store.apply(batch("w", 9, Vec::new())).unwrap();
    assert_eq!(later.last_applied_seq, 3);
    assert!(later.has_applied_seq && !later.duplicate);
}

#[test]
fn clearing_a_tier_leaves_the_others() {
    let mut store = Store::new();
    let names: Vec<String> = (0..10).map(|i| format!("h{i}")).collect();
    let refs: Vec<&str> = names.iter().map(String::as_str).collect();
    store
        .apply(batch(
            "w",
            1,
            vec![
                report(&refs),
                act(ExternalKvActionType::ActionReport, DRAM, &["h0"]),
            ],
        ))
        .unwrap();
    store
        .apply(batch(
            "w",
            2,
            vec![act(ExternalKvActionType::ActionClearAllAtTier, HBM, &[])],
        ))
        .unwrap();
    assert_eq!(store.placements.len(), 1);
    assert_eq!(store.placements["h0"]["w"], "1:4");
    assert_eq!(store.blocks["w"], BTreeSet::from(["1:h0".to_string()]));
}

#[test]
fn a_new_incarnation_clears_what_the_old_one_left() {
    let mut store = Store::new();
    let names: Vec<String> = (0..8).map(|i| format!("h{i}")).collect();
    let refs: Vec<&str> = names.iter().map(String::as_str).collect();
    let mut first = batch("w", 1, vec![report(&refs)]);
    first.incarnation = "one".into();
    store.apply(first.clone()).unwrap();
    let mut second = batch("w", 1, vec![report(&["h0"])]);
    second.incarnation = "two".into();
    let response = store.apply(second).unwrap();
    assert!(!response.duplicate, "the sequence starts anew");
    assert_eq!(store.placements.len(), 1);
    assert_eq!(store.placements["h0"]["w"], "2:2");
    // The old incarnation is retired for good.
    let error = store.apply(first).unwrap_err();
    assert_eq!(error.code(), Code::FailedPrecondition);
    assert_eq!(error.message(), "worker incarnation has been retired: one");
}

#[test]
fn an_unnamed_incarnation_is_one_that_never_changes() {
    let mut store = Store::new();
    store.apply(batch("w", 1, vec![report(&["a"])])).unwrap();
    store.apply(batch("w", 2, vec![report(&["b"])])).unwrap();
    assert_eq!(store.metas["w"].incarnation.as_deref(), Some("__legacy__"));
    assert_eq!(store.metas["w"].generation, 1);
}

#[test]
fn a_batch_without_a_hash_space_keeps_the_recorded_one() {
    let mut store = Store::new();
    let mut named = batch("w", 1, Vec::new());
    named.hash_spec = Some(HashSpec::sglang(64, false));
    store.apply(named).unwrap();
    assert_eq!(store.metas["w"].spec, "64:1:0:");
    let mut blank = batch("w", 2, Vec::new());
    blank.hash_spec = Some(HashSpec::sglang(0, true));
    store.apply(blank).unwrap();
    store.apply(batch("w", 3, Vec::new())).unwrap();
    assert_eq!(store.metas["w"].spec, "64:1:0:");
}

#[test]
fn an_action_of_no_known_type_ends_the_batch() {
    let mut store = Store::new();
    let mut odd = report(&["b"]);
    odd.kind = 9;
    let error = store
        .apply(batch("w", 1, vec![report(&["a"]), odd]))
        .unwrap_err();
    assert_eq!(error.code(), Code::InvalidArgument);
    assert_eq!(error.message(), "unsupported action type");
    assert!(store.placements.contains_key("a"), "earlier actions stay applied");
    assert_eq!(store.metas["w"].seq, None, "the batch is not recorded as applied");
}

#[test]
fn a_large_action_is_worked_off_in_bounded_steps() {
    let mut store = Store::new();
    let names: Vec<String> = (0..600).map(|i| format!("h{i}")).collect();
    let refs: Vec<&str> = names.iter().map(String::as_str).collect();
    store.apply(batch("w", 1, vec![report(&refs)])).unwrap();
    assert_eq!(store.placements.len(), 600);
    let order: Vec<String> = store
        .log
        .iter()
        .filter_map(|c| match c {
            Command::Invoke { script: Script::PlacementSet, keys, .. } => Some(Store::key(&keys[0])),
            _ => None,
        })
        .collect();
    assert_eq!(order, names, "blocks are placed in order");
}

#[test]
fn the_commit_comes_last() {
    let mut store = Store::new();
    store
        .apply(batch("w", 1, vec![report(&["a"]), revoke(&["a"])]))
        .unwrap();
    assert!(matches!(
        store.log.last(),
        Some(Command::Invoke { script: Script::SeqCommit, .. })
    ));
    let check = store
        .log
        .iter()
        .position(|c| matches!(c, Command::Invoke { script: Script::SeqCheck, .. }));
    let first_change = store.log.iter().position(|c| {
        matches!(
            c,
            Command::Invoke { script: Script::PlacementSet | Script::PlacementClear, .. }
        )
    });
    assert!(check < first_change);
}

#[test]
fn a_worker_that_moves_on_stops_the_batch() {
    let mut run = ApplyRun::start(batch("w", 1, vec![report(&["a"])]), 5, 7);
    let Step::Run(Command::Invoke { script, args, .. }) = run.step() else {
        panic!("expected the touch");
    };
    assert_eq!(script, Script::TouchMeta);
    assert_eq!(args, vec!["5", "7", "w", "__legacy__", "", "0"]);
    run.replied(&pair(0, 4)).unwrap();
    let Step::Run(Command::Invoke { script, args, .. }) = run.step() else {
        panic!("expected the check");
    };
    assert_eq!(script, Script::SeqCheck);
    assert_eq!(args, vec!["1", "4"]);
    let error = run.replied(&pair(-1, 0)).unwrap_err();
    assert_eq!(error.code(), Code::FailedPrecondition);
    assert_eq!(
        error.message(),
        "worker incarnation changed while applying batch"
    );
    run.replied(&pair(1, 0)).unwrap();
    run.completed().unwrap();
    let error = run.took_pair(-1, 0).unwrap_err();
    assert_eq!(
        error.message(),
        "worker incarnation changed while applying batch"
    );
}

#[test]
fn a_reset_that_was_overtaken_is_refused() {
    let mut run = ApplyRun::start(batch("w", 1, Vec::new()), 0, 0);
    run.replied(&pair(1, 2)).unwrap();
    run.took_page(0, vec![ReverseMember::parse("2:a".to_string())])
        .unwrap();
    let error = run.replied(&Value::Int(-1)).unwrap_err();
    assert_eq!(error.message(), "worker generation changed while resetting");
    assert!(run.replied(&text("nonsense")).is_err());
    run.took_status(0).unwrap();
    run.took_seq(-1);
    assert!(matches!(run.step(), Step::Answer(r) if !r.has_applied_seq));
}

#[test]
fn a_newer_owner_refuses_a_job() {
    let job = |kind: JobKind| Job {
        worker: "w".into(),
        generation: 3,
        kind,
    };
    for kind in [
        JobKind::Report { hash: "a".into(), bit: 2 },
        JobKind::Revoke { hash: "a".into(), bit: 2 },
    ] {
        let error = job(kind).close_with(-1).unwrap_err();
        assert_eq!(error.code(), Code::FailedPrecondition);
        assert_eq!(
            error.message(),
            "newer worker generation already owns placement"
        );
    }
    // What an older generation left is cleared whatever the script says.
    let forget = job(JobKind::Forget { hash: "a".into(), member: "1:a".into() });
    assert_eq!(
        forget.close_with(-1),
        Ok(Some(Command::SetRemove {
            key: Key::WorkerBlocks("w".into()),
            members: vec!["1:a".into()],
        }))
    );
}

#[test]
fn a_revoked_block_leaves_the_worker_only_when_gone() {
    let job = |generation: i64| Job {
        worker: "w".into(),
        generation,
        kind: JobKind::Revoke { hash: "a".into(), bit: 4 },
    };
    assert_eq!(
        job(3).open(),
        Command::Invoke {
            script: Script::PlacementClear,
            keys: vec![Key::Placement("a".into()), Key::Hits("a".into())],
            args: texts(&["w", "4", "3"]),
        }
    );
    assert_eq!(job(3).close(&pair(0, 2)), Ok(None));
    assert_eq!(
        job(3).close(&pair(1, 0)),
        Ok(Some(Command::SetRemove {
            key: Key::WorkerBlocks("w".into()),
            members: vec!["3:a".into()],
        }))
    );
    // In generation zero the block may be entered under its bare hash.
    assert_eq!(
        job(0).close(&pair(1, 0)),
        Ok(Some(Command::SetRemove {
            key: Key::WorkerBlocks("w".into()),
            members: vec!["0:a".into(), "a".into()],
        }))
    );
    assert!(job(3).close(&Value::Int(1)).is_err());
}

// ---------------------------------------------------------------------------
// Matches and hits
// ---------------------------------------------------------------------------

#[test]
fn a_match_lists_blocks_by_worker_and_tier() {
    let mut store = Store::new();
    store
        .apply(batch(
            "w1",
            1,
            vec![
                report(&["a", "b"]),
                act(ExternalKvActionType::ActionReport, DRAM, &["b", "c"]),
            ],
        ))
        .unwrap();
    store.apply(batch("w2", 1, vec![report(&["b"])])).unwrap();
    let response = store.find(
        &MatchExternalKvRequest {
            hashes: texts(&["b", "a", "b", "z", "c"]),
            count_as_hit: true,
        },
        0,
    );
    assert_eq!(response.matches.len(), 2);
    let first = &response.matches[0];
    assert_eq!(first.worker_id, "w1");
    let tiers: Vec<(i32, Vec<String>)> = first
        .hashes_by_tier
        .iter()
        .map(|t| (t.tier, t.hashes.clone()))
        .collect();
    assert_eq!(
        tiers,
        vec![(HBM, texts(&["b", "a"])), (DRAM, texts(&["b", "c"]))]
    );
    assert_eq!(response.matches[1].worker_id, "w2");
    let counts = store.counts(&texts(&["a", "b", "c", "z", "a"]));
    let listed: Vec<(&str, u64)> = counts
        .entries
        .iter()
        .map(|e| (e.hash.as_str(), e.hit_count_total))
        .collect();
    assert_eq!(listed, vec![("a", 1), ("b", 1), ("c", 1)]);
}

#[test]
fn a_dead_worker_is_not_matched() {
    let mut store = Store::new();
    store
        .apply_at(batch("w", 1, vec![report(&["a"])]), 1_000, 500)
        .unwrap();
    let request = MatchExternalKvRequest {
        hashes: texts(&["a"]),
        count_as_hit: false,
    };
    assert_eq!(store.find(&request, 1_400).matches.len(), 1);
    assert!(store.find(&request, 1_600).matches.is_empty());
    assert_eq!(store.scan_at(&prefix(&["a"]), 1_400, true).matches.len(), 1);
    assert!(store.scan_at(&prefix(&["a"]), 1_600, true).matches.is_empty());
    assert_eq!(store.scan_at(&prefix(&["a"]), 1_600, false).matches.len(), 1);
}

#[test]
fn placements_of_an_older_generation_do_not_count() {
    let mut store = Store::new();
    store.apply(batch("w", 1, vec![report(&["a", "b"])])).unwrap();
    store
        .placements
        .get_mut("b")
        .unwrap()
        .insert("w".into(), "0:2".into());
    let response = store.find(
        &MatchExternalKvRequest {
            hashes: texts(&["a", "b"]),
            count_as_hit: false,
        },
        0,
    );
    assert_eq!(response.matches[0].hashes_by_tier[0].hashes, texts(&["a"]));
    assert_eq!(store.scan(&prefix(&["a", "b"])).best_prefix_blocks, 1);
}

#[test]
fn hit_arguments_name_the_time_and_the_workers() {
    let bump = HitBump {
        hash: "a".into(),
        owners: vec![("w1".into(), 3), ("w2".into(), -1)],
    };
    assert_eq!(
        hit_bump_args(77, &bump),
        texts(&["77", "w1", "3", "w2", "-1"])
    );
    assert_eq!(
        count_hit(77, &bump),
        Command::Invoke {
            script: Script::HitBump,
            keys: vec![Key::Placement("a".into()), Key::Hits("a".into())],
            args: texts(&["77", "w1", "3", "w2", "-1"]),
        }
    );
}

#[test]
fn only_stored_counters_are_listed() {
    let response = hit_count_response(
        &texts(&["a", "b", "c"]),
        &vec![Some(4), None, Some(-2)],
    );
    let listed: Vec<(&str, u64)> = response
        .entries
        .iter()
        .map(|e| (e.hash.as_str(), e.hit_count_total))
        .collect();
    assert_eq!(listed, vec![("a", 4), ("c", 0)]);
}

#[test]
fn a_counted_scan_credits_the_reusable_prefix() {
    let mut store = Store::new();
    store.apply(batch("w1", 1, vec![report(&["a", "b", "d"])])).unwrap();
    store.apply(batch("w2", 1, vec![report(&["a"])])).unwrap();
    let mut request = prefix(&["a", "b", "c", "d"]);
    request.count_as_hit = true;
    store.scan(&request);
    assert_eq!(store.hits.get("a"), Some(&1));
    assert_eq!(store.hits.get("b"), Some(&1));
    assert_eq!(store.hits.get("d"), None, "behind the gap nothing is reused");
}

#[test]
fn hits_that_cannot_be_written_cost_no_answer() {
    let mut store = Store::new();
    store.apply(batch("w1", 1, vec![report(&["a", "b"])])).unwrap();
    let plain = prefix(&["a", "b", "c"]);
    let mut counted = plain.clone();
    counted.count_as_hit = true;
    let uncounted = store.scan(&plain);
    assert!(store.hits.is_empty());
    let written = store.scan(&counted);
    assert_eq!(store.hits.get("a"), Some(&1));
    store.hits_refused = true;
    let unwritten = store.scan(&counted);
    assert_eq!(store.hits.get("a"), Some(&1));
    assert_eq!(written, uncounted);
    assert_eq!(unwritten, uncounted);
    assert_eq!(prefix_pairs(&unwritten), [("w1".to_string(), 2)]);
}

#[test]
fn a_counted_scan_credits_only_the_head_of_a_long_prefix() {
    let names: Vec<String> = (0..400).map(|i| format!("h{i}")).collect();
    let refs: Vec<&str> = names.iter().map(String::as_str).collect();
    let mut store = Store::new();
    store.apply(batch("w", 1, vec![report(&refs)])).unwrap();
    let mut request = prefix(&refs);
    request.count_as_hit = true;
    assert_eq!(store.scan(&request).best_prefix_blocks, 400);
    assert_eq!(store.hits.len(), PREFIX_HIT_MAX_BLOCKS);
    assert!(store.hits.contains_key("h255") && !store.hits.contains_key("h256"));
}

// ---------------------------------------------------------------------------
// Prefix scan
// ---------------------------------------------------------------------------

#[test]
fn a_scan_answers_an_empty_query() {
    let mut store = Store::new();
    let response = store.scan(&prefix(&[]));
    assert!(response.matches.is_empty());
    assert_eq!(response.queried_blocks, 0);
    assert_eq!(store.placements_read, 0);
}

#[test]
fn a_cold_first_block_costs_one_read() {
    let names: Vec<String> = (0..500).map(|i| format!("h{i}")).collect();
    let refs: Vec<&str> = names.iter().map(String::as_str).collect();
    let mut store = Store::new();
    let response = store.scan(&prefix(&refs));
    assert_eq!(response.queried_blocks, 1);
    assert_eq!(store.placements_read, 1);
}

#[test]
fn a_scan_reads_in_growing_windows() {
    let names: Vec<String> = (0..5000).map(|i| format!("h{i}")).collect();
    let refs: Vec<&str> = names.iter().map(String::as_str).collect();
    for (held, queried) in [(1, 33), (32, 33), (33, 97), (97, 225), (225, 481), (481, 737)] {
        let mut store = Store::new();
        store.apply(batch("w", 1, vec![report(&refs[..held])])).unwrap();
        let response = store.scan(&prefix(&refs));
        assert_eq!(response.best_prefix_blocks as usize, held);
        assert_eq!(response.queried_blocks, queried, "held {held}");
        assert_eq!(store.placements_read, queried as usize);
        assert!(queried as usize <= 2 * held + 31);
    }
}

#[test]
fn a_scan_stops_at_its_limit() {
    let names: Vec<String> = (0..3000).map(|i| format!("h{i}")).collect();
    let refs: Vec<&str> = names.iter().map(String::as_str).collect();
    let mut store = Store::new();
    store.apply(batch("w", 1, vec![report(&refs)])).unwrap();
    let response = store.scan(&prefix(&refs));
    assert_eq!(response.best_prefix_blocks as usize, PREFIX_SCAN_MAX_BLOCKS);
    assert_eq!(response.queried_blocks as usize, PREFIX_SCAN_MAX_BLOCKS);
    let mut limited = prefix(&refs);
    limited.max_blocks = 40;
    let response = store.scan(&limited);
    assert_eq!(response.best_prefix_blocks, 40);
    assert_eq!(response.queried_blocks, 40);
}

#[test]
fn a_scan_reports_the_tiers_of_the_prefix() {
    let mut store = Store::new();
    store
        .apply(batch(
            "w",
            1,
            vec![
                report(&["a", "d"]),
                act(ExternalKvActionType::ActionReport, DRAM, &["b"]),
                act(ExternalKvActionType::ActionReport, 3, &["d"]),
            ],
        ))
        .unwrap();
    let response = store.scan(&prefix(&["a", "b", "c", "d"]));
    assert_eq!(response.matches[0].tiers, vec![HBM, DRAM]);
}

#[test]
fn a_scan_counts_workers_of_another_hash_space() {
    let mut store = Store::new();
    for (worker, spec) in [
        ("same", Some(HashSpec::sglang(64, false))),
        ("other", Some(HashSpec::sglang(32, false))),
        ("silent", None),
    ] {
        let mut request = batch(worker, 1, vec![report(&["a"])]);
        request.hash_spec = spec;
        store.apply(request).unwrap();
    }
    let mut request = prefix(&["a"]);
    request.hash_spec = Some(HashSpec::sglang(64, false));
    let checked = store.scan(&request);
    assert_eq!(checked.spec_mismatched_workers, 1);
    assert_eq!(
        prefix_pairs(&checked),
        vec![("same".to_string(), 1), ("silent".to_string(), 1)]
    );
    assert_eq!(store.scan(&prefix(&["a"])).matches.len(), 3);
}

#[test]
fn a_worker_without_an_address_is_not_listed() {
    let mut store = Store::new();
    let mut request = batch("w", 1, vec![report(&["a"])]);
    request.worker_address = String::new();
    store.apply(request).unwrap();
    assert!(store.scan(&prefix(&["a"])).matches.is_empty());
}

#[test]
fn a_scan_lists_the_longest_first_and_then_by_worker() {
    let mut store = Store::new();
    for (worker, held) in [
        ("w3", &["a"][..]),
        ("w2", &["a", "b"]),
        ("w1", &["a"]),
        ("w4", &["a", "b"]),
    ] {
        store.apply(batch(worker, 1, vec![report(held)])).unwrap();
    }
    let mut request = prefix(&["a", "b"]);
    let expected: Vec<(String, u32)> = [("w2", 2), ("w4", 2), ("w1", 1), ("w3", 1)]
        .into_iter()
        .map(|(w, n)| (w.to_string(), n))
        .collect();
    assert_eq!(prefix_pairs(&store.scan(&request)), expected);
    request.top_k = 3;
    assert_eq!(prefix_pairs(&store.scan(&request)), expected[..3].to_vec());
}

// ---------------------------------------------------------------------------
// The router's point of view
// ---------------------------------------------------------------------------

/// Block hashes of a four-block chain.
const CHAIN: [i64; 4] = [
    978178666101069530,
    -895308556211281782,
    -8033692805846017938,
    835415944263129316,
];

#[derive(Debug, PartialEq, Eq)]
struct TreeMatch {
    matched_blocks: usize,
    /// Workers at the deepest matched node, by routing URL.
    workers: BTreeSet<String>,
}

/// A trie over block hashes where each node records the workers that reported
/// that block. Removing a worker from a node leaves the node in place while it
/// has children, so a walk passes straight through it.
#[derive(Default)]
struct ReferenceTree {
    /// Keyed by the full chain from the root.
    nodes: HashMap<Vec<i64>, BTreeSet<String>>,
}

impl ReferenceTree {
    fn insert(&mut self, worker: &str, chain: &[i64]) {
        for depth in 0..chain.len() {
            self.nodes
                .entry(chain[..=depth].to_vec())
                .or_default()
                .insert(worker.to_string());
        }
    }

    fn remove(&mut self, worker: &str, path: &[i64]) {
        if let Some(workers) = self.nodes.get_mut(path) {
            workers.remove(worker);
        }
    }

    fn match_prefix(&self, query: &[i64]) -> TreeMatch {
        let mut matched = 0usize;
        let mut deepest = BTreeSet::new();
        for depth in 0..query.len() {
            let Some(workers) = self.nodes.get(&query[..=depth]) else {
                break;
            };
            matched = depth + 1;
            deepest = workers.clone();
        }
        TreeMatch {
            matched_blocks: matched,
            workers: deepest,
        }
    }
}

fn tree_of(placements: &[(&str, Vec<i64>)]) -> ReferenceTree {
    let mut tree = ReferenceTree::default();
    for (worker, held) in placements {
        tree.insert(worker, held);
    }
    tree
}

fn wire(hashes: &[i64]) -> Vec<String> {
    hashes.iter().copied().map(hash_to_wire).collect()
}

fn chain_batch(
    worker: &str,
    seq: u64,
    kind: ExternalKvActionType,
    hashes: &[i64],
) -> ApplyExternalKvBatchRequest {
    let wire = wire(hashes);
    let refs: Vec<&str> = wire.iter().map(String::as_str).collect();
    batch(worker, seq, vec![act(kind, HBM, &refs)])
}

fn loaded(placements: &[(&str, Vec<i64>)]) -> Store {
    let mut store = Store::new();
    for (worker, held) in placements {
        store
            .apply(chain_batch(worker, 1, ExternalKvActionType::ActionReport, held))
            .expect("apply batch");
    }
    store
}

fn query(store: &mut Store, hashes: &[i64]) -> MatchExternalKvPrefixResponse {
    let wire = wire(hashes);
    let refs: Vec<&str> = wire.iter().map(String::as_str).collect();
    store.scan(&prefix(&refs))
}

fn as_tree_match(resp: &MatchExternalKvPrefixResponse) -> TreeMatch {
    TreeMatch {
        matched_blocks: resp.best_prefix_blocks as usize,
        workers: resp
            .matches
            .iter()
            .filter(|m| m.matched_prefix_blocks == resp.best_prefix_blocks)
            .map(|m| m.address.clone())
            .collect(),
    }
}

#[test]
fn agrees_with_the_tree_on_a_full_prefix_hit() {
    let placements = vec![("http://w1:30000", CHAIN.to_vec())];
    let resp = query(&mut loaded(&placements), &CHAIN);
    assert_eq!(
        as_tree_match(&resp),
        tree_of(&placements).match_prefix(&CHAIN)
    );
    assert_eq!(resp.best_prefix_blocks, 4);
}

#[test]
fn agrees_with_the_tree_on_a_partial_prefix_hit() {
    let placements = vec![("http://w1:30000", CHAIN[..2].to_vec())];
    let resp = query(&mut loaded(&placements), &CHAIN);
    assert_eq!(
        as_tree_match(&resp),
        tree_of(&placements).match_prefix(&CHAIN)
    );
    assert_eq!(resp.best_prefix_blocks, 2);
}

#[test]
fn agrees_with_the_tree_on_a_complete_miss() {
    // Holding only a later block is worth nothing.
    let placements = vec![("http://w1:30000", vec![CHAIN[3]])];
    let resp = query(&mut loaded(&placements), &CHAIN);
    assert_eq!(
        as_tree_match(&resp),
        tree_of(&placements).match_prefix(&CHAIN)
    );
    assert_eq!(resp.best_prefix_blocks, 0);
}

#[test]
fn agrees_with_the_tree_on_the_winning_worker_set() {
    let placements = vec![
        ("http://w1:30000", CHAIN.to_vec()),
        ("http://w2:30000", CHAIN.to_vec()),
        ("http://w3:30000", CHAIN[..1].to_vec()),
    ];
    let resp = query(&mut loaded(&placements), &CHAIN);
    assert_eq!(
        as_tree_match(&resp),
        tree_of(&placements).match_prefix(&CHAIN)
    );
    assert_eq!(
        as_tree_match(&resp).workers,
        BTreeSet::from(["http://w1:30000".to_string(), "http://w2:30000".to_string()]),
        "only the workers holding the deepest prefix are candidates"
    );
}

#[test]
fn never_reports_a_longer_prefix_than_the_tree() {
    let worker = "http://w1:30000";
    let mut store = loaded(&[(worker, CHAIN.to_vec())]);
    store
        .apply(chain_batch(worker, 2, ExternalKvActionType::ActionRevoke, &[CHAIN[1]]))
        .expect("apply batch");

    let mut tree = ReferenceTree::default();
    tree.insert(worker, &CHAIN);
    tree.remove(worker, &CHAIN[..2]);
    let expected = tree.match_prefix(&CHAIN);
    assert_eq!(
        expected.matched_blocks, 4,
        "the tree walks past a node it emptied, so this fixture must expose the divergence"
    );
    assert_eq!(expected.workers, BTreeSet::from([worker.to_string()]));

    let resp = query(&mut store, &CHAIN);
    assert_eq!(
        resp.best_prefix_blocks, 1,
        "the indexer must stop at the evicted block"
    );
    assert!(
        (resp.best_prefix_blocks as usize) < expected.matched_blocks,
        "the indexer must never claim more reusable blocks than the tree"
    );
}

#[test]
fn returns_the_worker_url_the_router_registered() {
    let url = "http://sglang-worker-0.default.svc:30000";
    let resp = query(&mut loaded(&[(url, CHAIN.to_vec())]), &CHAIN);
    assert_eq!(resp.matches.len(), 1);
    assert_eq!(resp.matches[0].address, url);
}

/// A backend that answers prefix queries the long way.
struct Memory {
    store: std::cell::RefCell<Store>,
}

impl KvIndexerBackend for Memory {
    fn apply_external_kv_batch(
        &self,
        request: ApplyExternalKvBatchRequest,
    ) -> Result<ApplyExternalKvBatchResponse, RpcStatus> {
        self.store.borrow_mut().apply(request)
    }

    fn match_external_kv(
        &self,
        request: MatchExternalKvRequest,
    ) -> Result<MatchExternalKvResponse, RpcStatus> {
        Ok(self.store.borrow_mut().find(&request, 0))
    }

    fn get_external_kv_hit_counts(
        &self,
        request: GetExternalKvHitCountsRequest,
    ) -> Result<GetExternalKvHitCountsResponse, RpcStatus> {
        Ok(self.store.borrow_mut().counts(&request.hashes))
    }
}

#[test]
fn redis_scan_agrees_with_the_reference_implementation() {
    let placements = vec![
        ("http://w1:30000", CHAIN.to_vec()),
        ("http://w2:30000", CHAIN[..2].to_vec()),
        ("http://w3:30000", CHAIN[..1].to_vec()),
    ];
    let backend = Memory {
        store: std::cell::RefCell::new(loaded(&placements)),
    };
    let wire = wire(&CHAIN);
    let refs: Vec<&str> = wire.iter().map(String::as_str).collect();
    let reference = backend.match_external_kv_prefix(prefix(&refs)).unwrap();
    let fast = query(&mut backend.store.borrow_mut(), &CHAIN);
    assert_eq!(fast.best_prefix_blocks, reference.best_prefix_blocks);
    assert_eq!(
        prefix_pairs(&fast),
        prefix_pairs(&reference),
        "the Redis scan and the reference implementation must agree per worker"
    );
    assert!(
        fast.queried_blocks <= reference.queried_blocks,
        "the fast path must not read more than the reference"
    );
}

#[test]
fn scan_and_definition_agree_on_many_placements() {
    let names: Vec<String> = (0..70).map(|i| format!("h{i}")).collect();
    let refs: Vec<&str> = names.iter().map(String::as_str).collect();
    for seed in 0u64..40 {
        let mut state = seed.wrapping_mul(0x9E37_79B9_7F4A_7C15) + 1;
        let mut next = || {
            state ^= state << 13;
            state ^= state >> 7;
            state ^= state << 17;
            state
        };
        let mut store = Store::new();
        for worker in 0..5 {
            let density = 1 + next() % 40;
            let held: Vec<&str> = refs
                .iter()
                .copied()
                .filter(|_| next() % 40 < density || next() % 3 == 0)
                .collect();
            let id = format!("http://w{worker}");
            store.apply(batch(&id, 1, vec![report(&held)])).unwrap();
        }
        let backend = Memory {
            store: std::cell::RefCell::new(store),
        };
        let slow = backend.match_external_kv_prefix(prefix(&refs)).unwrap();
        let fast = backend.store.borrow_mut().scan(&prefix(&refs));
        let sorted = |r: &MatchExternalKvPrefixResponse| {
            let mut pairs = prefix_pairs(r);
            pairs.sort();
            pairs
        };
        assert_eq!(sorted(&fast), sorted(&slow));
        assert_eq!(fast.best_prefix_blocks, slow.best_prefix_blocks);
        for (max_blocks, top_k) in [(1, 0), (3, 0), (3, 2), (40, 1), (100, 3), (0, 4)] {
            let request = MatchExternalKvPrefixRequest { max_blocks, top_k, ..prefix(&refs) };
            let slow = backend.match_external_kv_prefix(request.clone()).unwrap();
            let fast = backend.store.borrow_mut().scan(&request);
            let lengths = |r: &MatchExternalKvPrefixResponse| {
                r.matches.iter().map(|m| m.matched_prefix_blocks).collect::<Vec<u32>>()
            };
            assert_eq!(lengths(&fast), lengths(&slow));
            assert_eq!(fast.best_prefix_blocks, slow.best_prefix_blocks);
            assert!(fast.queried_blocks <= slow.queried_blocks);
            if top_k == 0 {
                assert_eq!(sorted(&fast), sorted(&slow));
            }
        }
    }
}

#[test]
fn oracle_walks_to_the_deepest_reachable_node() {
    let tree = tree_of(&[("http://w1:30000", CHAIN.to_vec())]);
    assert_eq!(
        tree.match_prefix(&CHAIN),
        TreeMatch {
            matched_blocks: 4,
            workers: BTreeSet::from(["http://w1:30000".to_string()]),
        }
    );
}

#[test]
fn oracle_returns_only_the_deepest_nodes_workers() {
    let tree = tree_of(&[
        ("http://w1:30000", CHAIN.to_vec()),
        ("http://w2:30000", CHAIN[..1].to_vec()),
    ]);
    let matched = tree.match_prefix(&CHAIN);
    assert_eq!(matched.matched_blocks, 4);
    assert_eq!(
        matched.workers,
        BTreeSet::from(["http://w1:30000".to_string()]),
        "a worker holding only the first block is not a candidate for a 4-block prefix"
    );
}

#[test]
fn oracle_stops_where_no_node_exists() {
    let tree = tree_of(&[("http://w1:30000", CHAIN[..2].to_vec())]);
    assert_eq!(tree.match_prefix(&CHAIN).matched_blocks, 2);
}

#[test]
fn oracle_walks_through_a_node_it_emptied() {
    let mut tree = ReferenceTree::default();
    tree.insert("http://w1:30000", &CHAIN);
    tree.remove("http://w1:30000", &CHAIN[..2]);
    let matched = tree.match_prefix(&CHAIN);
    assert_eq!(matched.matched_blocks, 4);
    assert_eq!(
        matched.workers,
        BTreeSet::from(["http://w1:30000".to_string()])
    );
}

#[test]
fn goldens_round_trip_through_the_wire_encoding() {
    assert!(
        CHAIN.iter().any(|hash| *hash < 0),
        "the fixture must exercise negative hashes, which SGLang routinely emits"
    );
    for hash in CHAIN {
        assert_eq!(hash_from_wire(&hash_to_wire(hash)), Some(hash));
    }
}

// ---------------------------------------------------------------------------
// Settings
// ---------------------------------------------------------------------------

fn environment() -> Environment {
    Environment {
        namespace: None,
        required: None,
        worker_ttl_secs: None,
        cluster_nodes: None,
        url: Some("redis://127.0.0.1:6379".into()),
    }
}

#[test]
fn settings_have_defaults() {
    let settings = read_settings(&environment()).unwrap();
    assert_eq!(settings.namespace, "kvidx");
    assert!(settings.required);
    assert_eq!(settings.worker_ttl_secs, Some(120));
    assert_eq!(
        settings.target,
        Target::Single("redis://127.0.0.1:6379".into())
    );
}

#[test]
fn cluster_nodes_take_precedence() {
    let mut env = environment();
    env.cluster_nodes = Some(" redis://a , ,redis://b,".into());
    env.namespace = Some("ns".into());
    env.required = Some("0".into());
    env.worker_ttl_secs = Some(" 0 ".into());
    let settings = read_settings(&env).unwrap();
    assert_eq!(settings.namespace, "ns");
    assert!(!settings.required);
    assert_eq!(settings.worker_ttl_secs, None);
    assert_eq!(
        settings.target,
        Target::Cluster(texts(&["redis://a", "redis://b"]))
    );
    env.required = Some("no".into());
    assert!(read_settings(&env).unwrap().required);
}

#[test]
fn bad_settings_are_told_apart() {
    let mut env = environment();
    env.cluster_nodes = Some(" , ".into());
    assert_eq!(read_settings(&env), Err(SettingsError::NoClusterNodes));
    env.cluster_nodes = None;
    env.url = None;
    assert_eq!(read_settings(&env), Err(SettingsError::NoTarget));
    env.worker_ttl_secs = Some("-5".into());
    assert_eq!(
        read_settings(&env),
        Err(SettingsError::BadWorkerTtl("-5".into()))
    );
    env.worker_ttl_secs = Some("soon".into());
    assert_eq!(
        read_settings(&env),
        Err(SettingsError::BadWorkerTtl("soon".into()))
    );
}

#[test]
fn locks_are_shared_while_held_and_pruned_when_many() {
    assert_eq!(lock_action(true, WORKER_LOCKS_KEPT + 5), LockAction::Share);
    assert_eq!(lock_action(false, WORKER_LOCKS_KEPT - 1), LockAction::Enter);
    assert_eq!(lock_action(false, WORKER_LOCKS_KEPT), LockAction::PruneAndEnter);
}

#[test]
fn work_is_handed_out_in_bounded_parts() {
    assert_eq!(fan_out_end(0, 10), 10);
    assert_eq!(fan_out_end(0, 600), 256);
    assert_eq!(fan_out_end(256, 600), 512);
    assert_eq!(fan_out_end(512, 600), 600);
    assert_eq!(fan_out_end(600, 600), 600);
}

#[test]
fn bad_settings_are_told_in_words() {
    assert_eq!(
        SettingsError::BadWorkerTtl("a \"b\"\n".to_string()).message(),
        "KV_INDEXER_WORKER_TTL_SECS must be a non-negative integer, got \"a \\\"b\\\"\\n\""
    );
    assert_eq!(
        SettingsError::NoClusterNodes.message(),
        "KV_INDEXER_REDIS_CLUSTER_NODES is empty"
    );
    assert_eq!(
        SettingsError::NoTarget.message(),
        "KV_INDEXER_REDIS_URL (or KV_INDEXER_REDIS_CLUSTER_NODES) is required for the redis backend"
    );
}

#[test]
fn keys_of_a_block_share_their_braces() {
    let name = |key: Key| key_name("kvidx", &key);
    assert_eq!(name(Key::WorkerMeta("w1".to_string())), "kvidx:{w:w1}:meta");
    assert_eq!(name(Key::WorkerBlocks("w1".to_string())), "kvidx:{w:w1}:blocks");
    let slot = |name: String| {
        let (_, behind) = name.split_once('{').expect("an opening brace");
        behind.split_once('}').expect("a closing brace").0.to_string()
    };
    assert_eq!(slot(name(Key::Placement("42".to_string()))), "h:42");
    assert_eq!(slot(name(Key::Hits("42".to_string()))), "h:42");
    assert_ne!(
        name(Key::Placement("42".to_string())),
        name(Key::Hits("42".to_string()))
    );
}

#[test]
fn a_match_counts_hits_only_where_asked() {
    let mut store = Store::new();
    store.apply_at(batch("w", 1, vec![report(&["a"])]), 0, 1_000).unwrap();
    let mut request = MatchExternalKvRequest { hashes: texts(&["a"]), count_as_hit: false };
    store.find(&request, 0);
    assert_eq!(store.hits.get("a"), None);
    request.count_as_hit = true;
    store.find(&request, 0);
    assert_eq!(store.hits.get("a"), Some(&1));
}
