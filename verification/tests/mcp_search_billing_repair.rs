use tavily_hikari::billing_repair::{
    RepairCandidate, RepairLogRow, build_report, expected_search_credits_from_json,
    expected_search_credits_from_request_body,
    repair_candidates_from_rows, repaired_log_ids, validate_repair_window,
};

use tavily_hikari::json::{member, text_of, Json};

fn json_body(text: &str) -> Vec<u8> {
    let value: serde_json::Value = serde_json::from_str(text).expect("parse fixture");
    serde_json::to_vec(&value).expect("serialize body")
}

#[test]
fn parses_underscore_search_body() {
    let body = json_body(
        r#"{"method": "tools/call", "params": {"name": "tavily_search", "arguments": {"query": "smoke", "search_depth": "advanced"}}}"#,
    );

    assert_eq!(expected_search_credits_from_request_body(&body), Some(2));
}

#[test]
fn parses_hyphenated_search_body() {
    let body = json_body(
        r#"{"method": "tools/call", "params": {"name": "tavily-search", "arguments": {"query": "smoke"}}}"#,
    );

    assert_eq!(expected_search_credits_from_request_body(&body), Some(1));
}

#[test]
fn ignores_non_search_tool_calls() {
    let body = json_body(
        r#"{"method": "tools/call", "params": {"name": "tavily_extract", "arguments": {"urls": ["https://example.com"]}}}"#,
    );

    assert_eq!(expected_search_credits_from_request_body(&body), None);
}

#[test]
fn search_names_and_depths_ignore_case_and_padding() {
    let body = json_body(
        r#"{"method": "tools/call", "params": {"name": "  TAVILY_Search ", "arguments": {"search_depth": "ADVANCED"}}}"#,
    );
    assert_eq!(expected_search_credits_from_request_body(&body), Some(2));
    let basic = json_body(
        r#"{"method": "tools/call", "params": {"name": "tavily_search", "arguments": {"search_depth": "basic"}}}"#,
    );
    assert_eq!(expected_search_credits_from_request_body(&basic), Some(1));
}

#[test]
fn non_calls_and_non_json_owe_nothing() {
    assert_eq!(expected_search_credits_from_request_body(b"not json"), None);
    assert_eq!(
        expected_search_credits_from_request_body(&json_body(r#"{"method": "tools/list", "params": {"name": "tavily_search"}}"#)),
        None
    );
    assert_eq!(
        expected_search_credits_from_request_body(&json_body(r#"{"method": "tools/call"}"#)),
        None
    );
    assert_eq!(
        expected_search_credits_from_request_body(&json_body(r#"{"method": "tools/call", "params": {"name": 7}}"#)),
        None
    );
}

fn row(id: i64, token: &str, body: Vec<u8>) -> RepairLogRow {
    RepairLogRow { id, auth_token_id: token.to_string(), created_at: 100 + id, request_body: body }
}

#[test]
fn repair_keeps_only_billable_rows_and_reports_them() {
    let search = json_body(r#"{"method": "tools/call", "params": {"name": "tavily_search", "arguments": {"search_depth": "advanced"}}}"#);
    let basic = json_body(r#"{"method": "tools/call", "params": {"name": "tavily-search"}}"#);
    let extract = json_body(r#"{"method": "tools/call", "params": {"name": "tavily_extract"}}"#);
    let rows = vec![row(1, "t1", search), row(2, "t1", extract), row(3, "t2", basic.clone()), row(4, "t1", basic)];
    let candidates = repair_candidates_from_rows(&rows);
    assert_eq!(candidates.iter().map(|c| c.id).collect::<Vec<_>>(), vec![1, 3, 4]);
    assert_eq!(candidates.iter().map(|c| c.credits).collect::<Vec<_>>(), vec![2, 1, 1]);

    let repaired = repaired_log_ids(&candidates, &vec![1, 0, 1]);
    assert_eq!(repaired, vec![1, 4]);

    let report = build_report(false, 10, 20, Some("t1".to_string()), &candidates, repaired, None);
    assert_eq!(report.candidate_count, 3);
    assert_eq!(report.affected_token_count, 2);
    assert_eq!(report.total_credits, 4);
    assert_eq!(report.repaired_log_ids, vec![1, 4]);
    assert_eq!(report.token_id.as_deref(), Some("t1"));
    assert!(!report.dry_run);
}

#[test]
fn empty_repair_report_is_zero() {
    let candidates: Vec<RepairCandidate> = Vec::new();
    let report = build_report(true, 5, 5, None, &candidates, Vec::new(), None);
    assert_eq!(report.candidate_count, 0);
    assert_eq!(report.affected_token_count, 0);
    assert_eq!(report.total_credits, 0);
    assert!(report.dry_run);
}

#[test]
fn repair_window_must_not_end_before_it_starts() {
    assert!(validate_repair_window(1, 1).is_ok());
    assert_eq!(
        validate_repair_window(2, 1).unwrap_err(),
        "--from-ts must be less than or equal to --to-ts"
    );
}

#[test]
fn search_depth_counts_only_under_arguments() {
    let misplaced = json_body(
        r#"{"method": "tools/call", "params": {"name": "tavily_search", "search_depth": "advanced", "arguments": {}}}"#,
    );
    assert_eq!(expected_search_credits_from_request_body(&misplaced), Some(1));
    let numeric_method = json_body(r#"{"method": 5, "params": {"name": "tavily_search"}}"#);
    assert_eq!(expected_search_credits_from_request_body(&numeric_method), None);
}

#[test]
fn parsed_bodies_are_read_member_by_member() {
    let arguments = Json::Object(vec![("search_depth".to_string(), Json::Str("Advanced".to_string()))]);
    let params = Json::Object(vec![
        ("name".to_string(), Json::Str("tavily-search".to_string())),
        ("arguments".to_string(), arguments),
    ]);
    let body = Json::Object(vec![
        ("method".to_string(), Json::Str("tools/call".to_string())),
        ("id".to_string(), Json::Number),
        ("params".to_string(), params),
    ]);
    assert_eq!(text_of(member(Some(&body), "method")), Some("tools/call".to_string()));
    assert!(member(Some(&body), "missing").is_none());
    assert!(text_of(member(Some(&body), "id")).is_none());
    let parsed = Some(body);
    assert_eq!(expected_search_credits_from_json(&parsed), Some(2));
    assert_eq!(expected_search_credits_from_json(&None), None);
    let list = Some(Json::Array(vec![Json::Null, Json::Bool(true)]));
    assert_eq!(expected_search_credits_from_json(&list), None);
}
