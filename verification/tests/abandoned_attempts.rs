use tavily_hikari::lines::{parse_marker_ids, render_marker_ids};
use tavily_hikari::markers::{
    AbandonedUsageAttempts, MarkerFileUpdate, abandoned_upstream_usage_marker_path,
    clear_abandoned_upstream_usage_attempt_memory_for_test, forget_abandoned_upstream_usage_attempts,
    peek_abandoned_upstream_usage_attempts, remember_abandoned_upstream_usage_attempt,
    take_abandoned_upstream_usage_attempts,
};

fn sorted(mut v: Vec<String>) -> Vec<String> {
    v.sort();
    v
}

#[test]
fn marker_path_appends_suffix() {
    assert_eq!(abandoned_upstream_usage_marker_path("data/db.sqlite"), "data/db.sqlite.abandoned-upstream-usage");
}

#[test]
fn marker_files_list_trimmed_nonblank_lines() {
    assert_eq!(parse_marker_ids("a\n  b \r\n\n\t c"), vec!["a", "b", "c"]);
    assert!(parse_marker_ids("").is_empty());
    assert!(parse_marker_ids(" \n \r\n").is_empty());
}

#[test]
fn written_marker_file_reads_back() {
    let ids = vec!["r-1".to_string(), "r 2".to_string(), "r3".to_string()];
    let text = render_marker_ids(&ids);
    assert_eq!(text, "r-1\nr 2\nr3\n");
    assert_eq!(parse_marker_ids(&text), ids);
}

#[test]
fn remembered_attempts_are_peeked_per_database() {
    let mut attempts = AbandonedUsageAttempts::new();
    let update = remember_abandoned_upstream_usage_attempt(&mut attempts, "", "db-a".to_string(), "r1".to_string());
    assert!(matches!(update, MarkerFileUpdate::Replace(ref t) if t == "r1\n"));
    let again = remember_abandoned_upstream_usage_attempt(&mut attempts, "", "db-a".to_string(), "r1".to_string());
    assert!(matches!(again, MarkerFileUpdate::Unchanged));
    remember_abandoned_upstream_usage_attempt(&mut attempts, "", "db-b".to_string(), "r2".to_string());
    assert_eq!(peek_abandoned_upstream_usage_attempts(&mut attempts, "", "db-a"), vec!["r1"]);
    assert_eq!(peek_abandoned_upstream_usage_attempts(&mut attempts, "", "db-b"), vec!["r2"]);
}

#[test]
fn persisted_attempts_are_merged_on_read() {
    let mut attempts = AbandonedUsageAttempts::new();
    let ids = peek_abandoned_upstream_usage_attempts(&mut attempts, "old-1\nold-2\n", "db");
    assert_eq!(sorted(ids), vec!["old-1", "old-2"]);
    assert!(attempts.contains("db", "old-1"));
    assert!(!attempts.contains("other", "old-1"));
}

#[test]
fn forgetting_removes_only_named_attempts_of_that_database() {
    let mut attempts = AbandonedUsageAttempts::new();
    for id in ["a", "b", "c"] {
        remember_abandoned_upstream_usage_attempt(&mut attempts, "", "db".to_string(), id.to_string());
    }
    remember_abandoned_upstream_usage_attempt(&mut attempts, "", "other".to_string(), "a".to_string());
    let update = forget_abandoned_upstream_usage_attempts(&mut attempts, "", "db", &vec!["a".to_string(), "c".to_string()]);
    assert!(matches!(update, MarkerFileUpdate::Replace(ref t) if t == "b\n"));
    assert_eq!(peek_abandoned_upstream_usage_attempts(&mut attempts, "", "db"), vec!["b"]);
    assert_eq!(peek_abandoned_upstream_usage_attempts(&mut attempts, "", "other"), vec!["a"]);
    let none = forget_abandoned_upstream_usage_attempts(&mut attempts, "", "db", &Vec::new());
    assert!(matches!(none, MarkerFileUpdate::Unchanged));
    let last = forget_abandoned_upstream_usage_attempts(&mut attempts, "", "db", &vec!["b".to_string()]);
    assert!(matches!(last, MarkerFileUpdate::Remove));
}

#[test]
fn taking_attempts_empties_the_database() {
    let mut attempts = AbandonedUsageAttempts::new();
    remember_abandoned_upstream_usage_attempt(&mut attempts, "", "db".to_string(), "x".to_string());
    let (ids, update) = take_abandoned_upstream_usage_attempts(&mut attempts, "y\n", "db");
    assert_eq!(sorted(ids), vec!["x", "y"]);
    assert!(matches!(update, MarkerFileUpdate::Remove));
    assert!(peek_abandoned_upstream_usage_attempts(&mut attempts, "", "db").is_empty());
}

#[test]
fn clearing_memory_forgets_one_database() {
    let mut attempts = AbandonedUsageAttempts::new();
    remember_abandoned_upstream_usage_attempt(&mut attempts, "", "db".to_string(), "x".to_string());
    remember_abandoned_upstream_usage_attempt(&mut attempts, "", "keep".to_string(), "y".to_string());
    clear_abandoned_upstream_usage_attempt_memory_for_test(&mut attempts, "db");
    assert!(!attempts.contains("db", "x"));
    assert!(attempts.contains("keep", "y"));
}

#[test]
fn remembering_twice_with_the_written_file_changes_nothing() {
    let mut attempts = AbandonedUsageAttempts::new();
    let first = remember_abandoned_upstream_usage_attempt(&mut attempts, "r0\n", "db-t".to_string(), "r1".to_string());
    let file = match first {
        MarkerFileUpdate::Replace(text) => text,
        other => panic!("unexpected {other:?}"),
    };
    let before = sorted(peek_abandoned_upstream_usage_attempts(&mut attempts, "", "db-t"));
    let second = remember_abandoned_upstream_usage_attempt(&mut attempts, &file, "db-t".to_string(), "r1".to_string());
    assert!(matches!(second, MarkerFileUpdate::Unchanged));
    assert_eq!(sorted(peek_abandoned_upstream_usage_attempts(&mut attempts, &file, "db-t")), before);
    assert_eq!(before, vec!["r0".to_string(), "r1".to_string()]);
}
