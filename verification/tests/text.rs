//! Texts agree with the standard library.

use std::time::{Duration, SystemTime, UNIX_EPOCH};

use sgl_kv_indexer::clock::{deadline_after, duration_ms, epoch_ms, expires, now_ms, ttl_ms};
use sgl_kv_indexer::grouping::group_by_text;
use sgl_kv_indexer::ranking::{rank, TieBreak};
use sgl_kv_indexer::pb::ExternalKvPrefixMatch;
use sgl_kv_indexer::text::{
    decimal_text, parse_i64, parse_u64, same_text, signed_decimal_text, split_list, split_once,
    text_at_most, trim, white_space,
};

const SAMPLES: [&str; 12] = [
    "", "a", "b", "ab", "aa", "\u{e9}", "\u{1F600}", "z\u{e9}", " ", "A", "worker-10", "worker-9",
];

#[test]
fn order_agrees_with_the_standard_library() {
    for a in SAMPLES {
        for b in SAMPLES {
            assert_eq!(text_at_most(a, b), a <= b, "{a:?} {b:?}");
            assert_eq!(same_text(a, b), a == b, "{a:?} {b:?}");
        }
    }
}

#[test]
fn white_space_agrees_with_the_standard_library() {
    for code in 0..=0x10FFFFu32 {
        if let Some(c) = char::from_u32(code) {
            assert_eq!(white_space(c), c.is_whitespace(), "U+{code:04X}");
        }
    }
}

#[test]
fn trimming_agrees_with_the_standard_library() {
    for text in ["", " ", " a ", "\t\u{2003}x y\n", "plain", "\u{e9} "] {
        assert_eq!(trim(text), text.trim(), "{text:?}");
    }
}

#[test]
fn splitting_agrees_with_the_standard_library() {
    for text in ["", ":", "a:b", "a:b:c", "abc", ":x", "x:", "\u{e9}:\u{1F600}"] {
        assert_eq!(split_once(text, ':'), text.split_once(':'), "{text:?}");
    }
    for text in ["", ",", "a,b", " a , ,b ,", "one", "\u{e9}, x"] {
        let expected: Vec<String> = text
            .split(',')
            .map(str::trim)
            .filter(|s| !s.is_empty())
            .map(String::from)
            .collect();
        assert_eq!(split_list(text, ','), expected, "{text:?}");
    }
}

#[test]
fn numbers_are_written_and_read_as_usual() {
    for n in [0u128, 7, 10, 99, u64::MAX as u128, u128::MAX] {
        assert_eq!(decimal_text(n), n.to_string());
    }
    for n in [0i64, -1, 10, i64::MIN, i64::MAX] {
        assert_eq!(signed_decimal_text(n), n.to_string());
        assert_eq!(parse_i64(&n.to_string()), Some(n));
    }
    for text in ["0", "+5", "-0", "-1", "", "+", "18446744073709551615", "18446744073709551616"] {
        assert_eq!(parse_u64(text), text.parse::<u64>().ok(), "{text:?}");
        assert_eq!(parse_i64(text), text.parse::<i64>().ok(), "{text:?}");
    }
}

#[test]
fn groups_keep_the_order_of_arrival() {
    let item = |k: &str, v: i32| (k.to_string(), v);
    let groups = group_by_text(vec![
        item("b", 1),
        item("a", 2),
        item("b", 3),
        item("c", 4),
        item("a", 5),
    ]);
    assert_eq!(
        groups,
        vec![
            ("b".to_string(), vec![1, 3]),
            ("a".to_string(), vec![2, 5]),
            ("c".to_string(), vec![4]),
        ]
    );
}

#[test]
fn ranking_breaks_ties_as_told() {
    let entry = |w: &str, n: u32| ExternalKvPrefixMatch {
        worker_id: w.into(),
        address: String::new(),
        dp_rank: 0,
        matched_prefix_blocks: n,
        tiers: Vec::new(),
    };
    let input = || vec![entry("d", 1), entry("c", 2), entry("b", 1), entry("a", 2)];
    let order = |v: Vec<ExternalKvPrefixMatch>| {
        v.into_iter().map(|m| m.worker_id).collect::<Vec<String>>()
    };
    assert_eq!(order(rank(input(), TieBreak::Arrival)), ["c", "a", "d", "b"]);
    assert_eq!(order(rank(input(), TieBreak::WorkerId)), ["a", "c", "b", "d"]);
}

#[test]
fn durations_are_counted_in_milliseconds() {
    assert_eq!(duration_ms(&Duration::from_micros(1_999)), 1);
    assert_eq!(duration_ms(&Duration::from_secs(120)), 120_000);
    assert_eq!(ttl_ms(&None), 0);
    assert_eq!(ttl_ms(&Some(Duration::from_secs(2))), 2_000);
    assert_eq!(epoch_ms(&None), 0);
    assert_eq!(epoch_ms(&Some(Duration::from_millis(1_700_000_000_123))), 1_700_000_000_123);
    assert_eq!(
        duration_ms(&Duration::from_secs(u64::MAX)),
        Duration::from_secs(u64::MAX).as_millis() as u64
    );
}

#[test]
fn a_time_to_live_of_zero_never_runs_out() {
    assert!(!expires(&None));
    assert!(!expires(&Some(Duration::ZERO)));
    assert!(expires(&Some(Duration::from_nanos(1))));
    assert!(expires(&Some(Duration::from_micros(500))));
    assert!(expires(&Some(Duration::from_millis(1))));
    assert!(expires(&Some(Duration::from_secs(120))));
}

#[test]
fn the_wall_clock_is_read_in_milliseconds() {
    let read = || SystemTime::now().duration_since(UNIX_EPOCH).unwrap().as_millis() as i64;
    let before = read();
    let now = now_ms();
    assert!(before <= now && now <= read());
}

#[test]
fn deadlines_never_fall_on_zero() {
    assert_eq!(deadline_after(0, 0), 1);
    assert_eq!(deadline_after(5, 10), 15);
    assert_eq!(deadline_after(u64::MAX, 1), u64::MAX);
}
