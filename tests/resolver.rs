use ccg::error::CheckpointError;
use ccg::resolver::{resolve_prefix, summary_text, CommitRecord, DEFAULT_CANDIDATE_CAP};

fn record(hash: &str, message: &str) -> CommitRecord {
    CommitRecord { hash: hash.to_string(), message: Some(message.to_string()), time: 0 }
}

fn history() -> Vec<CommitRecord> {
    vec![
        record("abc1234567890abcdef1234567890abcdef12345", "third\nbody"),
        record("abd9876543210fedcba9876543210fedcba98765", "second"),
        record("fff0000000000000000000000000000000000000", "first"),
    ]
}

#[test]
fn unique_prefix_resolves_to_its_commit() {
    let h = history();
    assert_eq!(resolve_prefix("abc", &h, DEFAULT_CANDIDATE_CAP).unwrap(), 0);
    assert_eq!(resolve_prefix("ff", &h, DEFAULT_CANDIDATE_CAP).unwrap(), 2);
    assert_eq!(resolve_prefix("abd98", &h, DEFAULT_CANDIDATE_CAP).unwrap(), 1);
}

#[test]
fn unknown_prefix_is_not_found() {
    let h = history();
    match resolve_prefix("123", &h, DEFAULT_CANDIDATE_CAP) {
        Err(CheckpointError::CheckpointNotFound(q)) => assert_eq!(q, "123"),
        other => panic!("unexpected {:?}", other),
    }
}

#[test]
fn shared_prefix_is_ambiguous_with_candidates() {
    let h = history();
    match resolve_prefix("ab", &h, DEFAULT_CANDIDATE_CAP) {
        Err(CheckpointError::AmbiguousHash { query, candidates, remaining }) => {
            assert_eq!(query, "ab");
            assert_eq!(candidates.len(), 2);
            assert_eq!(candidates[0].short_hash, "abc1234");
            assert_eq!(candidates[0].summary, "third");
            assert_eq!(candidates[1].short_hash, "abd9876");
            assert_eq!(candidates[1].summary, "second");
            assert_eq!(remaining, 0);
        }
        other => panic!("unexpected {:?}", other),
    }
}

#[test]
fn ambiguity_report_is_capped() {
    let mut h = Vec::new();
    for i in 0..7 {
        h.push(record(&format!("aa{}0000000000000000000000000000000000000", i), &format!("m{}", i)));
    }
    match resolve_prefix("aa", &h, 5) {
        Err(CheckpointError::AmbiguousHash { candidates, remaining, .. }) => {
            assert_eq!(candidates.len(), 5);
            assert_eq!(candidates[4].summary, "m4");
            assert_eq!(remaining, 2);
        }
        other => panic!("unexpected {:?}", other),
    }
}

#[test]
fn one_character_query_is_invalid() {
    let h = history();
    match resolve_prefix("a", &h, DEFAULT_CANDIDATE_CAP) {
        Err(CheckpointError::InvalidHash(q)) => assert_eq!(q, "a"),
        other => panic!("unexpected {:?}", other),
    }
    assert!(matches!(resolve_prefix("", &h, 5), Err(CheckpointError::InvalidHash(_))));
}

#[test]
fn full_length_query_is_not_a_prefix_search() {
    let h = history();
    let full = "abc1234567890abcdef1234567890abcdef12345";
    assert!(matches!(resolve_prefix(full, &h, 5), Err(CheckpointError::InvalidHash(_))));
    let longest_prefix = &full[..39];
    assert_eq!(resolve_prefix(longest_prefix, &h, 5).unwrap(), 0);
}

#[test]
fn length_is_counted_in_bytes() {
    let h = history();
    assert!(matches!(resolve_prefix("\u{e9}", &h, 5), Err(CheckpointError::CheckpointNotFound(_))));
}

#[test]
fn empty_history_finds_nothing() {
    let h: Vec<CommitRecord> = Vec::new();
    assert!(matches!(resolve_prefix("abcd", &h, 5), Err(CheckpointError::CheckpointNotFound(_))));
}

#[test]
fn summary_falls_back_without_message() {
    assert_eq!(summary_text(&None), "No message");
    assert_eq!(summary_text(&Some(String::new())), "No message");
    assert_eq!(summary_text(&Some("line one\r\nline two".to_string())), "line one");
    assert_eq!(summary_text(&Some("\nafter".to_string())), "");
}
