use velocity::engine::EngineKind;
use velocity::query_exec::{
    assemble_query_result, build_explain_sql, generate_error_hint, is_schema_change,
    safe_query_result, sqlite_plan_line, QueryResultData,
};
use velocity::values::JsonVal;

#[test]
fn explain_statement_per_engine() {
    assert_eq!(
        build_explain_sql(EngineKind::Postgres, "SELECT 1").unwrap(),
        "EXPLAIN ANALYZE SELECT 1"
    );
    assert_eq!(
        build_explain_sql(EngineKind::MySql, "SELECT 1").unwrap(),
        "EXPLAIN SELECT 1"
    );
    assert_eq!(
        build_explain_sql(EngineKind::Sqlite, "SELECT 1").unwrap(),
        "EXPLAIN QUERY PLAN SELECT 1"
    );
    let err = build_explain_sql(EngineKind::Redis, "SELECT 1").err().unwrap();
    assert_eq!(err.message(), "EXPLAIN not supported");
}

#[test]
fn sqlite_plan_rows_carry_the_parent() {
    assert_eq!(sqlite_plan_line(3, "SCAN users"), "parent:3 SCAN users");
}

#[test]
fn schema_change_detection_ignores_case_and_blanks() {
    assert!(is_schema_change("  create table t (id int)"));
    assert!(is_schema_change("DROP TABLE t"));
    assert!(is_schema_change("\n\talter table t add c int"));
    assert!(is_schema_change("truncate t"));
    assert!(!is_schema_change("SELECT * FROM t"));
    assert!(!is_schema_change("update t set a = 1"));
}

#[test]
fn error_hints_follow_the_message() {
    assert_eq!(
        generate_error_hint("ERROR: Syntax error at or near SELECT", "SELEC 1").unwrap(),
        "Check SQL syntax. Common issues: missing quotes, typos in keywords, or incorrect clause order."
    );
    assert_eq!(
        generate_error_hint("relation \"nope\" does not exist", "SELECT * FROM nope").unwrap(),
        "The table or view does not exist. Use get_database_schema to see available tables."
    );
    assert_eq!(
        generate_error_hint("duplicate key value", "INSERT ...").unwrap(),
        "Duplicate value violates a unique constraint. Try using different values or UPDATE instead."
    );
    assert!(generate_error_hint("something else entirely", "SELECT 1").is_none());
}

#[test]
fn timeout_hint_suggests_a_limit_for_unbounded_selects() {
    assert_eq!(
        generate_error_hint("statement timeout", "SELECT * FROM big").unwrap(),
        "Query timed out. Consider adding a LIMIT clause or optimizing the query."
    );
    assert_eq!(
        generate_error_hint("statement timeout", "SELECT * FROM big LIMIT 5").unwrap(),
        "Query timed out. The operation took too long to complete."
    );
}

#[test]
fn query_result_counts_its_rows() {
    let result = assemble_query_result(
        vec!["a".to_string()],
        vec![vec![JsonVal::Int(1)], vec![JsonVal::Int(2)]],
    );
    assert_eq!(result.row_count, 2);
}

#[test]
fn safe_result_folds_success_and_failure() {
    let ok = safe_query_result(
        Ok(QueryResultData {
            columns: vec!["a".to_string()],
            rows: vec![],
            row_count: 0,
        }),
        "SELECT 1",
    );
    assert!(ok.success);
    assert!(ok.error_message.is_none());
    assert!(ok.error_hint.is_none());

    let failed = safe_query_result(
        Err("permission denied for table users".to_string()),
        "SELECT * FROM users",
    );
    assert!(!failed.success);
    assert!(failed.columns.is_none());
    assert_eq!(
        failed.error_message.as_deref(),
        Some("permission denied for table users")
    );
    assert_eq!(
        failed.error_hint.as_deref(),
        Some("Access denied. The user may not have permission for this operation.")
    );
}
