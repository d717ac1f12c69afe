//! Checks on requests, the prefix rules and the service over a backend.

use sgl_kv_indexer::ingest::{normalize_batch, normalize_hash};
use sgl_kv_indexer::inputs::{
    assemble_prefix_response, compute_prefix_response, legacy_inputs_from_match, WorkerPrefixInput,
};
use sgl_kv_indexer::pb::{
    ApplyExternalKvBatchRequest, ApplyExternalKvBatchResponse, ExternalKvAction,
    ExternalKvActionType, ExternalKvNodeMatch, GetExternalKvHitCountsRequest,
    GetExternalKvHitCountsResponse, MatchExternalKvPrefixRequest, MatchExternalKvRequest,
    MatchExternalKvResponse, TierHashes, TierType, WorkerCacheSpec,
};
use sgl_kv_indexer::prefix::{
    component_bit, compute_worker_prefix, prefix_limit, tier_in_mask, BlockComponents,
    COMPONENT_FULL, COMPONENT_MAMBA, COMPONENT_SWA, SUPPORTED_SPEC_VERSION,
};
use sgl_kv_indexer::validate::{
    validate_actions, validate_hashes, validate_tier, validate_worker_id, MAX_ACTIONS_PER_BATCH,
};
use sgl_kv_indexer::{Code, KvIndexerBackend, KvIndexerService, RpcStatus, MAX_HASHES_PER_REQUEST};

fn hbm() -> i32 {
    TierType::TierHbm as i32
}

fn action(kind: ExternalKvActionType, tier: i32, hashes: &[&str]) -> ExternalKvAction {
    ExternalKvAction {
        kind: kind as i32,
        tier,
        hashes: hashes.iter().map(|h| h.to_string()).collect(),
        component_masks: Vec::new(),
        block_sizes: Vec::new(),
    }
}

#[test]
fn validate_actions_allows_empty_batch() {
    // A batch without actions changes nothing but is not an error.
    assert!(validate_actions(&[]).is_ok());
}

#[test]
fn validate_actions_rejects_unknown_type() {
    let actions = [action(ExternalKvActionType::ActionUnknown, hbm(), &["1"])];
    assert!(validate_actions(&actions).is_err());
}

#[test]
fn validate_actions_rejects_bad_tier() {
    let actions = [action(ExternalKvActionType::ActionReport, 0, &["1"])];
    assert!(validate_actions(&actions).is_err());
}

#[test]
fn validate_actions_requires_hashes_for_report_and_revoke() {
    assert!(validate_actions(&[action(ExternalKvActionType::ActionReport, hbm(), &[])]).is_err());
    assert!(validate_actions(&[action(ExternalKvActionType::ActionRevoke, hbm(), &[])]).is_err());
}

#[test]
fn validate_actions_allows_empty_hashes_for_clear_all_at_tier() {
    let actions = [action(
        ExternalKvActionType::ActionClearAllAtTier,
        hbm(),
        &[],
    )];
    assert!(validate_actions(&actions).is_ok());
}

#[test]
fn validate_hashes_rejects_oversized_query() {
    let hashes = vec!["1".to_string(); MAX_HASHES_PER_REQUEST + 1];
    let error = validate_hashes(&hashes).unwrap_err();
    assert_eq!(error.code(), Code::ResourceExhausted);
    assert_eq!(
        error.message(),
        "request contains 16385 hashes; maximum is 16384"
    );
    assert_eq!(error.to_grpc().code(), tonic::Code::ResourceExhausted);
}

#[test]
fn validate_actions_rejects_oversized_batch() {
    let hashes = vec!["1"; MAX_HASHES_PER_REQUEST / 2 + 1];
    let actions = [
        action(ExternalKvActionType::ActionReport, hbm(), &hashes),
        action(ExternalKvActionType::ActionReport, hbm(), &hashes),
    ];
    let error = validate_actions(&actions).unwrap_err();
    assert_eq!(error.code(), Code::ResourceExhausted);
    assert_eq!(
        error.message(),
        "batch contains 16386 hashes; maximum is 16384"
    );
}

#[test]
fn validate_actions_rejects_too_many_actions() {
    let clear = action(ExternalKvActionType::ActionClearAllAtTier, hbm(), &[]);
    let actions = vec![clear; MAX_ACTIONS_PER_BATCH + 1];
    let error = validate_actions(&actions).unwrap_err();
    assert_eq!(error.code(), Code::ResourceExhausted);
    assert_eq!(
        error.message(),
        "batch contains 257 actions; maximum is 256"
    );
}

#[test]
fn validate_worker_id_rejects_empty_value() {
    assert!(validate_worker_id("").is_err());
    assert!(validate_worker_id("worker-1").is_ok());
}

#[test]
fn refusals_say_what_is_wrong() {
    let texts = |items: &[&str]| items.iter().map(|t| t.to_string()).collect::<Vec<String>>();
    let refused = |r: Result<(), RpcStatus>| {
        let status = r.unwrap_err();
        assert_eq!(status.code(), Code::InvalidArgument);
        status.message().to_string()
    };
    assert_eq!(refused(validate_worker_id("")), "worker_id must not be empty");
    assert_eq!(refused(validate_hashes(&[])), "hashes must not be empty");
    assert_eq!(
        refused(validate_hashes(&texts(&["1", "", "2"]))),
        "hashes must not contain empty values"
    );
    assert_eq!(refused(validate_tier(0)), "tier must not be TIER_UNKNOWN");
    assert_eq!(refused(validate_tier(4)), "tier is not supported");
    assert_eq!(refused(validate_tier(-1)), "tier is not supported");
    assert_eq!(
        refused(validate_actions(&[action(
            ExternalKvActionType::ActionUnknown,
            hbm(),
            &["1"]
        )])),
        "action type is not supported"
    );
    let mut odd = action(ExternalKvActionType::ActionReport, hbm(), &["1"]);
    odd.kind = 9;
    assert_eq!(refused(validate_actions(&[odd])), "action type is not supported");
}

#[test]
fn the_first_bad_action_is_reported() {
    let actions = [
        action(ExternalKvActionType::ActionReport, hbm(), &["1"]),
        action(ExternalKvActionType::ActionReport, 7, &["1"]),
        action(ExternalKvActionType::ActionUnknown, hbm(), &["1"]),
    ];
    assert_eq!(
        validate_actions(&actions).unwrap_err().message(),
        "tier is not supported"
    );
}

#[test]
fn the_largest_allowed_request_passes() {
    let hashes = vec!["1".to_string(); MAX_HASHES_PER_REQUEST];
    assert!(validate_hashes(&hashes).is_ok());
    for tier in 1..=3 {
        assert!(validate_tier(tier).is_ok());
    }
}

#[test]
fn a_status_reaches_a_peer_unchanged() {
    let status = RpcStatus::failed_precondition("worker moved on".to_string()).to_grpc();
    assert_eq!(status.code(), tonic::Code::FailedPrecondition);
    assert_eq!(status.message(), "worker moved on");
    for number in 0..17 {
        let code = Code::from_number(number);
        assert_eq!(code.number(), number);
        let sent = RpcStatus::new(code, "text".to_string()).to_grpc();
        assert_eq!(sent.code() as i32, number);
    }
    assert_eq!(Code::from_number(99), Code::Unknown);
}

// --- prefix rules ---

fn dram() -> i32 {
    TierType::TierDram as i32
}
fn ssd() -> i32 {
    TierType::TierSsd as i32
}

/// The tiers as a `1 << tier` bitmask.
fn tmask(tiers: &[i32]) -> u32 {
    tiers.iter().fold(0, |m, t| m | (1u32 << t))
}

/// A held block with `(tier, component bitmask)` placements and a token count.
fn blk(tiers: &[(i32, u32)], token_count: u32) -> Option<BlockComponents> {
    Some(BlockComponents {
        token_count,
        tier_masks: tiers.to_vec(),
    })
}

/// A whole-block placement (mask 0) at HBM.
fn legacy_blk() -> Option<BlockComponents> {
    blk(&[(hbm(), 0)], 0)
}

fn spec(
    components: u32,
    swa_window_tokens: u32,
    full_tiers: &[i32],
    swa_tiers: &[i32],
    mamba_tiers: &[i32],
) -> WorkerCacheSpec {
    WorkerCacheSpec {
        version: 1,
        components,
        swa_window_tokens,
        full_tier_mask: tmask(full_tiers),
        swa_tier_mask: tmask(swa_tiers),
        mamba_tier_mask: tmask(mamba_tiers),
    }
}

#[test]
fn legacy_no_spec_is_contiguous() {
    let blocks = vec![legacy_blk(), legacy_blk(), legacy_blk(), None, legacy_blk()];
    assert_eq!(compute_worker_prefix(None, &blocks), 3);
}

#[test]
fn component_report_without_spec_is_excluded() {
    // A worker that reports components but declared none cannot be interpreted
    // safely, so it contributes nothing.
    let blocks = vec![
        blk(&[(hbm(), COMPONENT_FULL)], 16),
        blk(&[(hbm(), COMPONENT_FULL)], 16),
    ];
    assert_eq!(compute_worker_prefix(None, &blocks), 0);
}

#[test]
fn contiguous_full_stops_at_first_gap() {
    let s = spec(COMPONENT_FULL, 0, &[hbm(), dram()], &[], &[]);
    let blocks = vec![
        blk(&[(hbm(), COMPONENT_FULL)], 16),
        blk(&[(dram(), COMPONENT_FULL)], 16), // full may live on a different servable tier
        blk(&[(hbm(), COMPONENT_SWA)], 16),   // no full here, so the prefix stops
        blk(&[(hbm(), COMPONENT_FULL)], 16),
    ];
    assert_eq!(compute_worker_prefix(Some(&s), &blocks), 2);
}

#[test]
fn ssd_only_is_not_servable_in_v1() {
    let s = spec(COMPONENT_FULL, 0, &[hbm(), dram()], &[], &[]);
    let blocks = vec![blk(&[(ssd(), COMPONENT_FULL)], 16)];
    assert_eq!(compute_worker_prefix(Some(&s), &blocks), 0);
}

#[test]
fn trailing_window_requires_unbroken_window_before_boundary() {
    // A window of 100 tokens, 50 tokens per block: two contiguous swa blocks
    // cover a window. full is present on every block.
    let s = spec(COMPONENT_FULL | COMPONENT_SWA, 100, &[hbm()], &[hbm()], &[]);
    let with_swa = || blk(&[(hbm(), COMPONENT_FULL | COMPONENT_SWA)], 50);
    let no_swa = || blk(&[(hbm(), COMPONENT_FULL)], 50);
    // swa everywhere: the full length is reusable.
    let blocks = vec![with_swa(), with_swa(), with_swa(), with_swa(), with_swa()];
    assert_eq!(compute_worker_prefix(Some(&s), &blocks), 5);
    // swa missing at index 3: the largest boundary whose trailing 100-token
    // window is unbroken is 3 (blocks 1 and 2 cover 100 tokens).
    let holed = vec![with_swa(), with_swa(), with_swa(), no_swa(), with_swa()];
    assert_eq!(compute_worker_prefix(Some(&s), &holed), 3);
}

#[test]
fn trailing_window_head_is_always_valid() {
    // Fewer tokens than a window, but an unbroken run from the head is valid.
    let s = spec(
        COMPONENT_FULL | COMPONENT_SWA,
        1000,
        &[hbm()],
        &[hbm()],
        &[],
    );
    let blocks = vec![blk(&[(hbm(), COMPONENT_FULL | COMPONENT_SWA)], 16); 2];
    assert_eq!(compute_worker_prefix(Some(&s), &blocks), 2);
}

#[test]
fn swa_without_window_excludes_the_worker() {
    // swa without a window is an unusable spec and fails closed.
    let s = spec(COMPONENT_FULL | COMPONENT_SWA, 0, &[hbm()], &[hbm()], &[]);
    let blocks = vec![blk(&[(hbm(), COMPONENT_FULL | COMPONENT_SWA)], 16)];
    assert_eq!(compute_worker_prefix(Some(&s), &blocks), 0);
}

#[test]
fn exact_boundary_only_matches_at_a_checkpoint() {
    // mamba lives only on the 4th block (a leaf checkpoint). full is on all.
    let s = spec(
        COMPONENT_FULL | COMPONENT_MAMBA,
        0,
        &[hbm(), dram()],
        &[],
        &[hbm(), dram()],
    );
    let blocks = vec![
        blk(&[(hbm(), COMPONENT_FULL)], 16),
        blk(&[(hbm(), COMPONENT_FULL)], 16),
        blk(&[(hbm(), COMPONENT_FULL)], 16),
        blk(&[(hbm(), COMPONENT_FULL | COMPONENT_MAMBA)], 16),
    ];
    assert_eq!(compute_worker_prefix(Some(&s), &blocks), 4);
    // A shorter request that never reaches the checkpoint cannot reuse it.
    assert_eq!(compute_worker_prefix(Some(&s), &blocks[..2]), 0);
}

#[test]
fn unsupported_spec_version_excludes_the_worker() {
    let mut s = spec(COMPONENT_FULL, 0, &[hbm()], &[], &[]);
    s.version = SUPPORTED_SPEC_VERSION + 1; // one that this build cannot read
    let blocks = vec![blk(&[(hbm(), COMPONENT_FULL)], 16)];
    assert_eq!(compute_worker_prefix(Some(&s), &blocks), 0);
}

#[test]
fn empty_declared_spec_excludes_the_worker() {
    // A full-only worker declares no spec; one that declares a spec without
    // components is misconfigured and fails closed.
    let s = spec(0, 0, &[hbm()], &[], &[]);
    let blocks = vec![blk(&[(hbm(), COMPONENT_FULL)], 16)];
    assert_eq!(compute_worker_prefix(Some(&s), &blocks), 0);
}

#[test]
fn missing_component_data_under_spec_excludes() {
    // The spec needs full and swa, but the worker reported whole blocks: full
    // itself cannot be confirmed.
    let s = spec(COMPONENT_FULL | COMPONENT_SWA, 100, &[hbm()], &[hbm()], &[]);
    let blocks = vec![legacy_blk(), legacy_blk()];
    assert_eq!(compute_worker_prefix(Some(&s), &blocks), 0);
}

#[test]
fn a_longer_request_never_shortens_the_prefix() {
    let s = spec(COMPONENT_FULL | COMPONENT_SWA, 100, &[hbm()], &[hbm()], &[]);
    let with_swa = || blk(&[(hbm(), COMPONENT_FULL | COMPONENT_SWA)], 50);
    let no_swa = || blk(&[(hbm(), COMPONENT_FULL)], 50);
    let blocks = vec![with_swa(), no_swa(), with_swa(), with_swa(), no_swa(), None, with_swa()];
    let prefixes: Vec<u32> = (0..=blocks.len())
        .map(|n| compute_worker_prefix(Some(&s), &blocks[..n]))
        .collect();
    assert_eq!(prefixes, vec![0, 1, 1, 1, 4, 4, 4, 4]);
}

#[test]
fn losing_placements_never_lengthens_the_prefix() {
    let s = spec(COMPONENT_FULL | COMPONENT_SWA, 32, &[hbm()], &[hbm()], &[]);
    let whole: Vec<_> = (0..8)
        .map(|_| blk(&[(hbm(), COMPONENT_FULL | COMPONENT_SWA)], 16))
        .collect();
    let longest = compute_worker_prefix(Some(&s), &whole);
    assert_eq!(longest, 8);
    for lost in 0..8 {
        let mut less = whole.clone();
        less[lost] = None;
        assert_eq!(compute_worker_prefix(Some(&s), &less), lost as u32);
        less[lost] = blk(&[(hbm(), COMPONENT_FULL)], 16);
        assert!(compute_worker_prefix(Some(&s), &less) <= longest);
    }
}

#[test]
fn component_names_have_their_bits() {
    assert_eq!(component_bit("full"), Some(1));
    assert_eq!(component_bit("swa"), Some(2));
    assert_eq!(component_bit("mamba"), Some(4));
    assert_eq!(component_bit("Full"), None);
    assert_eq!(component_bit(""), None);
}

#[test]
fn only_tiers_in_range_are_in_a_mask() {
    assert!(tier_in_mask(0b110, 1));
    assert!(tier_in_mask(0b110, 2));
    assert!(!tier_in_mask(0b110, 3));
    assert!(!tier_in_mask(u32::MAX, -1));
    assert!(tier_in_mask(u32::MAX, 31));
}

#[test]
fn a_caller_can_limit_the_blocks() {
    assert_eq!(prefix_limit(10, 0), 10);
    assert_eq!(prefix_limit(10, 4), 4);
    assert_eq!(prefix_limit(10, 40), 10);
}

// --- inputs and answers ---

fn node(worker: &str, address: &str, tiers: &[(i32, &[&str])]) -> ExternalKvNodeMatch {
    ExternalKvNodeMatch {
        worker_id: worker.into(),
        address: address.into(),
        hashes_by_tier: tiers
            .iter()
            .map(|(tier, hashes)| TierHashes {
                tier: *tier,
                hashes: hashes.iter().map(|h| h.to_string()).collect(),
            })
            .collect(),
        dp_rank: 0,
    }
}

fn texts(items: &[&str]) -> Vec<String> {
    items.iter().map(|t| t.to_string()).collect()
}

#[test]
fn a_placement_match_becomes_whole_blocks() {
    let matched = MatchExternalKvResponse {
        matches: vec![node("w", "http://w", &[(1, &["a", "c"]), (2, &["a"])])],
    };
    let inputs = legacy_inputs_from_match(&texts(&["a", "b", "c"]), &matched);
    assert_eq!(inputs.len(), 1);
    assert_eq!(inputs[0].worker_id, "w");
    assert_eq!(inputs[0].address, "http://w");
    assert!(inputs[0].spec.is_none());
    let masks: Vec<Option<Vec<(i32, u32)>>> = inputs[0]
        .blocks
        .iter()
        .map(|b| b.as_ref().map(|b| b.tier_masks.clone()))
        .collect();
    assert_eq!(
        masks,
        vec![Some(vec![(1, 0), (2, 0)]), None, Some(vec![(1, 0)])]
    );
}

fn input(worker: &str, address: &str, held: &[bool]) -> WorkerPrefixInput {
    WorkerPrefixInput {
        worker_id: worker.into(),
        address: address.into(),
        spec: None,
        blocks: held
            .iter()
            .map(|held| if *held { legacy_blk() } else { None })
            .collect(),
    }
}

#[test]
fn an_answer_lists_routable_workers_longest_first() {
    let inputs = vec![
        input("one", "http://one", &[true, false, true]),
        input("none", "http://none", &[false, true, true]),
        input("hidden", "", &[true, true, true]),
        input("three", "http://three", &[true, true, true]),
        input("uno", "http://uno", &[true, false, false]),
    ];
    let response = compute_prefix_response(&inputs, 3);
    let listed: Vec<(&str, u32)> = response
        .matches
        .iter()
        .map(|m| (m.worker_id.as_str(), m.matched_prefix_blocks))
        .collect();
    assert_eq!(listed, vec![("three", 3), ("one", 1), ("uno", 1)]);
    assert_eq!(response.best_prefix_blocks, 3);
    assert_eq!(response.queried_blocks, 3);
    assert_eq!(response.spec_mismatched_workers, 0);
}

#[test]
fn equally_long_entries_keep_their_order() {
    let entry = |w: &str, n: u32| (w.to_string(), format!("http://{w}"), n);
    let response = assemble_prefix_response(
        vec![entry("z", 2), entry("b", 5), entry("a", 2), entry("c", 5)],
        9,
    );
    let order: Vec<&str> = response.matches.iter().map(|m| m.worker_id.as_str()).collect();
    assert_eq!(order, vec!["b", "c", "z", "a"]);
    assert_eq!(response.best_prefix_blocks, 5);
    assert_eq!(response.queried_blocks, 9);
    assert_eq!(assemble_prefix_response(Vec::new(), 0).best_prefix_blocks, 0);
}

// --- service ---

struct Canned {
    matched: Result<MatchExternalKvResponse, RpcStatus>,
}

impl KvIndexerBackend for Canned {
    fn apply_external_kv_batch(
        &self,
        request: ApplyExternalKvBatchRequest,
    ) -> Result<ApplyExternalKvBatchResponse, RpcStatus> {
        Ok(ApplyExternalKvBatchResponse {
            last_applied_seq: request.seq,
            duplicate: false,
            has_applied_seq: true,
        })
    }

    fn match_external_kv(
        &self,
        _request: MatchExternalKvRequest,
    ) -> Result<MatchExternalKvResponse, RpcStatus> {
        self.matched.clone()
    }

    fn get_external_kv_hit_counts(
        &self,
        _request: GetExternalKvHitCountsRequest,
    ) -> Result<GetExternalKvHitCountsResponse, RpcStatus> {
        Ok(GetExternalKvHitCountsResponse { entries: Vec::new() })
    }
}

fn canned() -> KvIndexerService<Canned> {
    KvIndexerService::new(Canned {
        matched: Ok(MatchExternalKvResponse {
            matches: vec![
                node("w1", "http://w1", &[(1, &["a"])]),
                node("w2", "http://w2", &[(1, &["a", "b"]), (2, &["c"])]),
                node("w3", "http://w3", &[(1, &["b", "c"])]),
            ],
        }),
    })
}

fn prefix_request(hashes: &[&str]) -> MatchExternalKvPrefixRequest {
    MatchExternalKvPrefixRequest {
        hashes: texts(hashes),
        hash_spec: None,
        max_blocks: 0,
        top_k: 0,
        count_as_hit: false,
    }
}

#[test]
fn a_prefix_query_is_answered_from_a_placement_match() {
    let service = canned();
    let response = service
        .match_external_kv_prefix(prefix_request(&["a", "b", "c", "d"]))
        .unwrap();
    let listed: Vec<(&str, u32)> = response
        .matches
        .iter()
        .map(|m| (m.address.as_str(), m.matched_prefix_blocks))
        .collect();
    assert_eq!(listed, vec![("http://w2", 3), ("http://w1", 1)]);
    assert_eq!(response.queried_blocks, 4);
}

#[test]
fn a_prefix_query_honours_its_limits() {
    let service = canned();
    let mut request = prefix_request(&["a", "b", "c", "d"]);
    request.max_blocks = 2;
    request.top_k = 1;
    let response = service.match_external_kv_prefix(request).unwrap();
    assert_eq!(response.matches.len(), 1);
    assert_eq!(response.matches[0].worker_id, "w2");
    assert_eq!(response.best_prefix_blocks, 2);
    assert_eq!(response.queried_blocks, 2);
}

#[test]
fn a_backend_failure_is_passed_on() {
    let service = KvIndexerService::new(Canned {
        matched: Err(RpcStatus::unavailable("down".to_string())),
    });
    let error = service
        .match_external_kv_prefix(prefix_request(&["a"]))
        .unwrap_err();
    assert_eq!(error.code(), Code::Unavailable);
    assert_eq!(error.message(), "down");
}

#[test]
fn a_refused_request_does_not_reach_the_backend() {
    let service = KvIndexerService::new(Canned {
        matched: Err(RpcStatus::internal("the backend was reached")),
    });
    let empty = service.match_external_kv_prefix(prefix_request(&[]));
    assert_eq!(empty.unwrap_err().code(), Code::InvalidArgument);
    let blank = service.match_external_kv(MatchExternalKvRequest {
        hashes: texts(&["a", ""]),
        count_as_hit: true,
    });
    assert_eq!(
        blank.unwrap_err().message(),
        "hashes must not contain empty values"
    );
    let counts = service.get_external_kv_hit_counts(GetExternalKvHitCountsRequest {
        hashes: Vec::new(),
    });
    assert_eq!(counts.unwrap_err().message(), "hashes must not be empty");
}

#[test]
fn a_batch_is_checked_before_it_is_applied() {
    let service = canned();
    let batch = |worker: &str, actions: Vec<ExternalKvAction>| ApplyExternalKvBatchRequest {
        worker_id: worker.into(),
        worker_address: "http://w".into(),
        seq: 7,
        incarnation: String::new(),
        hash_spec: None,
        dp_rank: 0,
        actions,
    };
    let applied = service
        .apply_external_kv_batch(batch("w", Vec::new()))
        .unwrap();
    assert_eq!(applied.last_applied_seq, 7);
    let nameless = service.apply_external_kv_batch(batch("", Vec::new()));
    assert_eq!(
        nameless.unwrap_err().message(),
        "worker_id must not be empty"
    );
    let bad = service.apply_external_kv_batch(batch(
        "w",
        vec![action(ExternalKvActionType::ActionReport, 0, &["1"])],
    ));
    assert_eq!(
        bad.unwrap_err().message(),
        "tier must not be TIER_UNKNOWN"
    );
}

#[test]
fn an_empty_prefix_query_is_answered_by_the_backend_itself() {
    let backend = Canned {
        matched: Err(RpcStatus::internal("not asked")),
    };
    let response = backend.match_external_kv_prefix(prefix_request(&[])).unwrap();
    assert!(response.matches.is_empty());
    assert_eq!(response.queried_blocks, 0);
}

#[test]
fn a_batch_reaches_the_backend_with_stored_hashes() {
    assert_eq!(normalize_hash("18446744073709551615"), "-1");
    assert_eq!(normalize_hash("9223372036854775808"), "-9223372036854775808");
    assert_eq!(normalize_hash("9223372036854775807"), "9223372036854775807");
    assert_eq!(normalize_hash("-895308556211281782"), "-895308556211281782");
    assert_eq!(normalize_hash("17551435517498269834"), "-895308556211281782");
    assert_eq!(normalize_hash("+007"), "7");
    assert_eq!(normalize_hash("18446744073709551616"), "18446744073709551616");
    assert_eq!(normalize_hash("hash-a"), "hash-a");
    assert_eq!(normalize_hash(""), "");

    let mut sent = action(
        ExternalKvActionType::ActionReport,
        hbm(),
        &["18446744073709551615", "x"],
    );
    sent.component_masks = vec![1, 2];
    sent.block_sizes = vec![16, 16];
    let stored = normalize_batch(ApplyExternalKvBatchRequest {
        worker_id: "w".into(),
        worker_address: "http://w".into(),
        seq: 3,
        incarnation: "i".into(),
        hash_spec: None,
        dp_rank: 1,
        actions: vec![sent.clone()],
    });
    assert_eq!(stored.worker_id, "w");
    assert_eq!(stored.incarnation, "i");
    assert_eq!(stored.seq, 3);
    assert_eq!(stored.actions.len(), 1);
    assert_eq!(stored.actions[0].hashes, texts(&["-1", "x"]));
    assert_eq!(stored.actions[0].component_masks, sent.component_masks);
    assert_eq!(stored.actions[0].block_sizes, sent.block_sizes);
}
