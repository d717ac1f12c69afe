//! The routing side: hashes, queries, outcomes, breaker and log throttle.

use std::time::{Duration, Instant};

use sgl_kv_indexer::breaker::{Breaker, LogThrottle};
use sgl_kv_indexer::client::{
    build_request, classify_code, classify_status, hash_from_wire, hash_to_wire, is_index_outage,
    read_response,
};
use sgl_kv_indexer::pb::{
    ExternalKvPrefixMatch, HashAlgorithm, HashSpec, MatchExternalKvPrefixResponse, TierType,
};
use sgl_kv_indexer::query::{QueryReply, QueryStart, QueryState};
use sgl_kv_indexer::{
    Code, NoSignalReason, PrefixIndexConfig, PrefixIndexOutcome, PrefixMatch, PrefixQuery,
    MAX_HASHES_PER_REQUEST,
};
use tonic::Status;

fn spec() -> HashSpec {
    HashSpec::sglang(64, false)
}

fn wait(duration: Duration) {
    let started = Instant::now();
    while started.elapsed() < duration {}
}

fn found(worker: &str, blocks: u32) -> PrefixMatch {
    PrefixMatch {
        worker_id: worker.into(),
        address: format!("http://{worker}"),
        dp_rank: 0,
        matched_prefix_blocks: blocks,
        tiers: vec![TierType::TierHbm],
    }
}

#[test]
fn hash_round_trips_through_the_wire_form() {
    for hash in [0_i64, 1, -1, i64::MAX, i64::MIN, -1905904552702706914] {
        assert_eq!(hash_from_wire(&hash_to_wire(hash)), Some(hash));
    }
}

#[test]
fn wire_form_is_plain_decimal() {
    assert_eq!(hash_to_wire(0), "0");
    assert_eq!(hash_to_wire(-1905904552702706914), "-1905904552702706914");
    assert_eq!(hash_to_wire(i64::MIN), i64::MIN.to_string());
    assert_eq!(hash_to_wire(i64::MAX), i64::MAX.to_string());
}

#[test]
fn non_numeric_wire_hash_is_not_an_sglang_hash() {
    assert_eq!(hash_from_wire("prefix"), None);
    assert_eq!(hash_from_wire(""), None);
    // Above i64::MAX: the unsigned form, which no router writes.
    assert_eq!(hash_from_wire("18446744073709551615"), None);
}

#[test]
fn only_the_written_form_of_a_hash_is_read() {
    for text in [
        "-0", "+5", "+7", "+0", "007", "00", "-01", "+", "-", "--1", "+-1", " 1", "1 ", "1_000",
        "1e3", "9223372036854775808", "-9223372036854775809",
    ] {
        assert_eq!(hash_from_wire(text), None, "{text:?}");
    }
    assert_eq!(hash_from_wire("0"), Some(0));
    assert_eq!(hash_from_wire("-7"), Some(-7));
    assert_eq!(hash_from_wire("9223372036854775807"), Some(i64::MAX));
    assert_eq!(hash_from_wire("-9223372036854775808"), Some(i64::MIN));
}

#[test]
fn sglang_spec_selects_the_hashing_mode() {
    assert_eq!(
        HashSpec::sglang(64, false).algo,
        HashAlgorithm::HashAlgoSha256ChainUnigram as i32
    );
    assert_eq!(
        HashSpec::sglang(64, true).algo,
        HashAlgorithm::HashAlgoSha256ChainBigram as i32
    );
    assert_eq!(HashSpec::sglang(64, true).block_size, 64);
}

#[test]
fn best_matches_returns_only_the_tied_longest() {
    let outcome = PrefixIndexOutcome::Matched {
        matches: vec![
            PrefixMatch {
                worker_id: "a".into(),
                address: "http://a".into(),
                dp_rank: 0,
                matched_prefix_blocks: 4,
                tiers: vec![TierType::TierHbm],
            },
            PrefixMatch {
                worker_id: "b".into(),
                address: "http://b".into(),
                dp_rank: 0,
                matched_prefix_blocks: 4,
                tiers: vec![TierType::TierHbm],
            },
            PrefixMatch {
                worker_id: "c".into(),
                address: "http://c".into(),
                dp_rank: 0,
                matched_prefix_blocks: 1,
                tiers: vec![TierType::TierHbm],
            },
        ],
        best_prefix_blocks: 4,
    };
    let best: Vec<&str> = outcome
        .best_matches()
        .iter()
        .map(|m| m.worker_id.as_str())
        .collect();
    assert_eq!(best, vec!["a", "b"]);
    assert_eq!(outcome.best_prefix_blocks(), 4);
}

#[test]
fn no_signal_has_no_matches_and_no_prefix() {
    let outcome = PrefixIndexOutcome::NoSignal(NoSignalReason::Unavailable);
    assert!(outcome.best_matches().is_empty());
    assert_eq!(outcome.best_prefix_blocks(), 0);
}

#[test]
fn status_codes_map_to_fallback_reasons() {
    assert_eq!(
        classify_status(&Status::deadline_exceeded("slow")),
        NoSignalReason::Timeout
    );
    assert_eq!(
        classify_status(&Status::unavailable("down")),
        NoSignalReason::Unavailable
    );
    // A server too old to know the query describes the index, not the query.
    assert_eq!(
        classify_status(&Status::unimplemented("old server")),
        NoSignalReason::Unsupported
    );
    assert_eq!(
        classify_status(&Status::invalid_argument("bad query")),
        NoSignalReason::Rejected
    );
    assert_eq!(
        classify_status(&Status::resource_exhausted("too many hashes")),
        NoSignalReason::Rejected
    );
}

#[test]
fn every_code_has_one_reason() {
    for number in 0..17 {
        let expected = match number {
            1 | 4 => NoSignalReason::Timeout,
            2 | 10 | 13 | 14 => NoSignalReason::Unavailable,
            12 => NoSignalReason::Unsupported,
            _ => NoSignalReason::Rejected,
        };
        assert_eq!(classify_code(Code::from_number(number)), expected);
        let status = Status::new(tonic::Code::from_i32(number), "text");
        assert_eq!(classify_status(&status), expected, "code {number}");
    }
}

/// The breaker exists to skip a failing index, so only trouble with the index
/// may open it.
#[test]
fn only_index_level_trouble_opens_the_breaker() {
    assert!(is_index_outage(NoSignalReason::Unavailable));
    assert!(is_index_outage(NoSignalReason::Timeout));
    assert!(is_index_outage(NoSignalReason::Unsupported));
    assert!(!is_index_outage(NoSignalReason::Rejected));
    assert!(!is_index_outage(NoSignalReason::Empty));
    assert!(!is_index_outage(NoSignalReason::SpecMismatch));
}

#[test]
fn breaker_deadline_is_monotonic() {
    let mut breaker = Breaker::new(1, Duration::from_millis(1));
    breaker.record_failure();
    assert!(breaker.is_open());
    wait(Duration::from_millis(5));
    assert!(
        !breaker.is_open(),
        "the breaker must reopen for business once the cooldown elapses"
    );
}

/// A query that is too long is cut instead of sent and refused.
#[test]
fn oversized_query_is_capped_rather_than_rejected() {
    let hashes: Vec<i64> = (0..(MAX_HASHES_PER_REQUEST as i64 + 10)).collect();
    let request = build_request(&PrefixQuery::new(hashes, spec()));
    assert_eq!(request.hashes.len(), MAX_HASHES_PER_REQUEST);
    assert_eq!(
        request.hashes.first().map(String::as_str),
        Some("0"),
        "the cap must drop the tail, not the prefix the answer depends on"
    );
}

#[test]
fn request_carries_the_query_knobs() {
    let request = build_request(&PrefixQuery {
        max_blocks: 64,
        top_k: 4,
        count_as_hit: true,
        ..PrefixQuery::new(vec![1, -2], spec())
    });
    assert_eq!(request.hashes, vec!["1".to_string(), "-2".to_string()]);
    assert_eq!(request.max_blocks, 64);
    assert_eq!(request.top_k, 4);
    assert!(request.count_as_hit);
    assert_eq!(request.hash_spec, Some(spec()));
}

#[test]
fn breaker_opens_after_consecutive_failures_and_recovers_on_success() {
    let mut breaker = Breaker::new(3, Duration::from_secs(60));
    assert!(!breaker.is_open());
    breaker.record_failure();
    breaker.record_failure();
    assert!(
        !breaker.is_open(),
        "must tolerate a blip below the threshold"
    );
    breaker.record_failure();
    assert!(breaker.is_open());
    breaker.record_success();
    assert!(!breaker.is_open(), "one good answer closes the breaker");
}

#[test]
fn log_throttle_admits_one_message_per_interval() {
    let mut throttle = LogThrottle::new(Duration::from_millis(50));
    assert!(throttle.allow(), "the first report must always get through");
    assert!(!throttle.allow());
    assert!(!throttle.allow());
    wait(Duration::from_millis(60));
    assert!(
        throttle.allow(),
        "a condition still true after the interval must report again"
    );
}

#[test]
fn breaker_forgets_isolated_failures() {
    let mut breaker = Breaker::new(3, Duration::from_secs(60));
    for _ in 0..10 {
        breaker.record_failure();
        breaker.record_failure();
        breaker.record_success();
    }
    assert!(
        !breaker.is_open(),
        "failures separated by successes must not accumulate into an open breaker"
    );
}

#[test]
fn breaker_is_open_exactly_for_the_cooldown() {
    let mut breaker = Breaker::new(2, Duration::from_millis(100));
    breaker.record_failure_at(10);
    assert!(!breaker.is_open_at(10));
    breaker.record_failure_at(40);
    assert!(breaker.is_open_at(40));
    assert!(breaker.is_open_at(139));
    assert!(!breaker.is_open_at(140));
    // The count starts anew.
    breaker.record_failure_at(150);
    assert!(!breaker.is_open_at(150));
}

#[test]
fn breaker_without_cooldown_still_marks_itself_open() {
    let mut breaker = Breaker::new(1, Duration::from_millis(0));
    breaker.record_failure_at(0);
    assert!(breaker.is_open_at(0));
    assert!(!breaker.is_open_at(1));
}

#[test]
fn breaker_with_threshold_zero_never_opens() {
    let mut breaker = Breaker::new(0, Duration::from_secs(60));
    for _ in 0..20 {
        breaker.record_failure();
    }
    assert!(!breaker.is_open());
}

#[test]
fn breaker_deadline_saturates() {
    let mut breaker = Breaker::new(1, Duration::from_millis(u64::MAX));
    breaker.record_failure_at(5);
    assert!(breaker.is_open_at(u64::MAX - 1));
    assert!(!breaker.is_open_at(u64::MAX));
}

#[test]
fn log_throttle_counts_from_the_last_message() {
    let mut throttle = LogThrottle::new(Duration::from_millis(50));
    assert!(throttle.allow_at(7));
    assert!(!throttle.allow_at(56));
    assert!(throttle.allow_at(57));
    assert!(!throttle.allow_at(106));
}

#[test]
fn config_has_the_usual_settings() {
    let config = PrefixIndexConfig::new("http://127.0.0.1:50051".to_string());
    assert_eq!(config.endpoint, "http://127.0.0.1:50051");
    assert_eq!(config.query_timeout, Duration::from_millis(10));
    assert_eq!(config.connect_timeout, Duration::from_secs(1));
    assert_eq!(config.breaker_threshold, 5);
    assert_eq!(config.breaker_cooldown, Duration::from_secs(5));
}

fn state(threshold: u32) -> QueryState {
    let mut config = PrefixIndexConfig::new("http://127.0.0.1:1".to_string());
    config.breaker_threshold = threshold;
    QueryState::new(&config)
}

/// A query without blocks never reaches the wire.
#[test]
fn empty_query_short_circuits_without_a_server() {
    let start = state(5).begin(&PrefixQuery::new(Vec::new(), spec()));
    assert!(matches!(
        start,
        QueryStart::Answer(PrefixIndexOutcome::NoSignal(NoSignalReason::Empty))
    ));
}

/// An unreachable server yields a fallback signal, not an error.
#[test]
fn unreachable_index_yields_no_signal() {
    let mut state = state(5);
    let reason = classify_status(&Status::unavailable("connection refused"));
    let outcome = state.settle(QueryReply::Failed(reason)).outcome;
    assert!(
        matches!(outcome, PrefixIndexOutcome::NoSignal(_)),
        "an unreachable index must degrade, not fail: got {outcome:?}"
    );
    assert!(outcome.best_matches().is_empty());
}

#[test]
fn repeated_failures_open_the_breaker() {
    let mut state = state(2);
    for _ in 0..2 {
        let _ = state.settle(QueryReply::TimedOut);
    }
    assert!(
        state.breaker().is_open(),
        "two failed queries at threshold 2 must open the breaker"
    );
}

#[test]
fn an_open_breaker_answers_without_reaching_the_wire() {
    let mut state = state(5);
    for _ in 0..5 {
        let _ = state.settle(QueryReply::Failed(NoSignalReason::Unavailable));
    }
    assert!(state.breaker().is_open());
    let start = state.begin(&PrefixQuery::new(vec![1], spec()));
    assert!(matches!(
        start,
        QueryStart::Answer(PrefixIndexOutcome::NoSignal(NoSignalReason::Unavailable))
    ));
}

#[test]
fn a_closed_breaker_sends_the_query() {
    let start = state(5).begin(&PrefixQuery::new(vec![1, -2], spec()));
    let QueryStart::Send(request) = start else {
        panic!("expected a request");
    };
    assert_eq!(request.hashes, vec!["1", "-2"]);
}

#[test]
fn refused_queries_never_open_the_breaker() {
    let mut state = state(1);
    for _ in 0..10 {
        let settled = state.settle(QueryReply::Failed(NoSignalReason::Rejected));
        assert_eq!(
            settled.outcome,
            PrefixIndexOutcome::NoSignal(NoSignalReason::Rejected)
        );
    }
    assert!(!state.breaker().is_open());
}

fn response(matches: Vec<ExternalKvPrefixMatch>, mismatched: u32) -> MatchExternalKvPrefixResponse {
    MatchExternalKvPrefixResponse {
        best_prefix_blocks: matches.first().map(|m| m.matched_prefix_blocks).unwrap_or(0),
        matches,
        queried_blocks: 4,
        spec_mismatched_workers: mismatched,
    }
}

#[test]
fn a_disagreement_is_told_apart_from_a_cold_cache() {
    assert_eq!(
        read_response(response(Vec::new(), 0)),
        PrefixIndexOutcome::NoSignal(NoSignalReason::Empty)
    );
    assert_eq!(
        read_response(response(Vec::new(), 2)),
        PrefixIndexOutcome::NoSignal(NoSignalReason::SpecMismatch)
    );
}

#[test]
fn a_disagreement_is_reported_once_in_a_while() {
    let mut state = state(5);
    let reports: Vec<bool> = [100, 200, 60_099, 60_100]
        .into_iter()
        .map(|log_now| {
            let reply = QueryReply::Answered(response(Vec::new(), 1));
            state.settle_at(reply, 0, log_now).report_mismatch
        })
        .collect();
    assert_eq!(reports, vec![true, false, false, true]);
}

#[test]
fn a_match_is_read_with_the_tiers_that_are_known() {
    let outcome = read_response(response(
        vec![ExternalKvPrefixMatch {
            worker_id: "a".into(),
            address: "http://a".into(),
            dp_rank: 3,
            matched_prefix_blocks: 7,
            tiers: vec![1, 9, 3],
        }],
        0,
    ));
    let PrefixIndexOutcome::Matched { matches, best_prefix_blocks } = outcome else {
        panic!("expected a match");
    };
    assert_eq!(best_prefix_blocks, 7);
    assert_eq!(matches.len(), 1);
    assert_eq!(matches[0].dp_rank, 3);
    assert_eq!(matches[0].tiers, vec![TierType::TierHbm, TierType::TierSsd]);
}

#[test]
fn an_answer_closes_the_breaker() {
    let mut state = state(1);
    let _ = state.settle_at(QueryReply::TimedOut, 0, 0);
    assert!(state.breaker().is_open_at(0));
    let _ = state.settle_at(QueryReply::Answered(response(Vec::new(), 0)), 1, 1);
    assert!(!state.breaker().is_open_at(1));
}

#[test]
fn ties_are_counted_from_the_front() {
    let outcome = PrefixIndexOutcome::Matched {
        matches: vec![found("a", 2), found("b", 2), found("c", 2)],
        best_prefix_blocks: 2,
    };
    assert_eq!(outcome.best_matches().len(), 3);
}

#[test]
fn breaker_and_throttle_measure_the_time_since_they_were_made() {
    let before = Instant::now();
    let breaker = Breaker::new(1, Duration::from_secs(1));
    let throttle = LogThrottle::new(Duration::from_secs(1));
    wait(Duration::from_millis(20));
    let breaker_ms = breaker.elapsed_ms();
    let throttle_ms = throttle.elapsed_ms();
    let at_most = before.elapsed().as_millis() as u64;
    assert!(20 <= breaker_ms && breaker_ms <= at_most);
    assert!(20 <= throttle_ms && throttle_ms <= at_most);
}

#[test]
fn a_copied_config_keeps_its_settings() {
    let mut config = PrefixIndexConfig::new("http://127.0.0.1:50051".to_string());
    config.query_timeout = Duration::from_micros(1_500);
    config.connect_timeout = Duration::from_secs(7);
    config.breaker_threshold = 2;
    config.breaker_cooldown = Duration::from_nanos(3);
    let copy = config.clone();
    assert_eq!(copy.endpoint, "http://127.0.0.1:50051");
    assert_eq!(copy.query_timeout, Duration::from_micros(1_500));
    assert_eq!(copy.connect_timeout, Duration::from_secs(7));
    assert_eq!(copy.breaker_threshold, 2);
    assert_eq!(copy.breaker_cooldown, Duration::from_nanos(3));
}
