use tavily_hikari::ha::{
    escape_sql_string_literal, ha_recovery_batch_claimed, ha_recovery_import_message, ha_restore_table_sql,
    ha_snapshot_attach_sql, quote_sqlite_identifier,
};

#[test]
fn identifiers_are_double_quoted_with_inner_quotes_doubled() {
    assert_eq!(quote_sqlite_identifier("users"), "\"users\"");
    assert_eq!(quote_sqlite_identifier("we\"ird"), "\"we\"\"ird\"");
    assert_eq!(quote_sqlite_identifier(""), "\"\"");
}

#[test]
fn snapshot_paths_are_single_quote_escaped() {
    assert_eq!(escape_sql_string_literal("/tmp/o'brien.db"), "/tmp/o''brien.db");
    assert_eq!(ha_snapshot_attach_sql("/tmp/o'brien.db"), "ATTACH DATABASE '/tmp/o''brien.db' AS ha_snapshot");
}

#[test]
fn table_restore_replaces_rows_from_the_snapshot() {
    let (delete, insert) = ha_restore_table_sql("api_keys");
    assert_eq!(delete, "DELETE FROM main.\"api_keys\"");
    assert_eq!(insert, "INSERT INTO main.\"api_keys\" SELECT * FROM ha_snapshot.\"api_keys\"");
}

#[test]
fn recovery_batches_are_claimed_once() {
    assert!(ha_recovery_batch_claimed(1));
    assert!(!ha_recovery_batch_claimed(0));
}

#[test]
fn recovery_import_message_defaults() {
    assert_eq!(ha_recovery_import_message(None, None, None), "recovery batch manual imported from unknown");
    assert_eq!(
        ha_recovery_import_message(Some("b7".to_string()), Some("node-2".to_string()), None),
        "recovery batch b7 imported from node-2"
    );
    assert_eq!(
        ha_recovery_import_message(Some("b7".to_string()), None, Some("custom".to_string())),
        "custom"
    );
}
