//! Raw query execution support: EXPLAIN statement text, result shaping,
//! schema-change detection, and the error hints of the guarded executor.

use vstd::prelude::*;
use crate::VelocityError;
use crate::engine::EngineKind;
use crate::text::{trimmed, upper_of, lower_of, prefix_of, has_substring, to_upper, to_lower,
    trim_blanks, starts_with, str_contains, idec, i32_to_dec};
use crate::values::JsonVal;

verus! {

/// The result of a raw SQL query.
#[derive(Debug, Clone)]
pub struct QueryResultData {
    pub columns: Vec<String>,
    pub rows: Vec<Vec<JsonVal>>,
    pub row_count: i64,
}

/// A query execution plan, one line per plan row.
#[derive(Debug, Clone)]
pub struct ExplainResult {
    pub plan: Vec<String>,
}

/// A query outcome that never errors at the surface: failures come back
/// as a structured report with the message and a hint.
#[derive(Debug, Clone)]
pub struct SafeQueryResult {
    pub success: bool,
    pub columns: Option<Vec<String>>,
    pub rows: Option<Vec<Vec<JsonVal>>>,
    pub row_count: Option<i64>,
    pub error_message: Option<String>,
    pub error_hint: Option<String>,
}

/// Shape a fetched page into a raw query result; the row count is the
/// page length.
pub fn assemble_query_result(columns: Vec<String>, rows: Vec<Vec<JsonVal>>) -> (r: QueryResultData)
    ensures
        r.columns == columns,
        r.rows == rows,
        r.row_count == (if rows@.len() > i64::MAX as int {
            i64::MAX as int
        } else {
            rows@.len() as int
        }),
{
    let row_count: i64 = if rows.len() as u64 > i64::MAX as u64 {
        i64::MAX
    } else {
        rows.len() as i64
    };
    QueryResultData { columns, rows, row_count }
}

/// The EXPLAIN statement of an engine: `EXPLAIN ANALYZE` on Postgres,
/// `EXPLAIN` on MySQL, `EXPLAIN QUERY PLAN` on SQLite.
pub open spec fn explain_sql_text(engine: EngineKind, sql: Seq<char>) -> Option<Seq<char>> {
    match engine {
        EngineKind::Postgres => Some("EXPLAIN ANALYZE "@ + sql),
        EngineKind::MySql => Some("EXPLAIN "@ + sql),
        EngineKind::Sqlite => Some("EXPLAIN QUERY PLAN "@ + sql),
        _ => None,
    }
}

/// Build the EXPLAIN statement; engines without EXPLAIN support refuse.
pub fn build_explain_sql(engine: EngineKind, sql: &str) -> (r: Result<String, VelocityError>)
    ensures
        (match explain_sql_text(engine, sql@) {
            Some(t) => r matches Ok(e) && e@ == t,
            None => r matches Err(e) && e is Query && e.spec_message() == "EXPLAIN not supported"@,
        }),
{
    proof {
        reveal_strlit("EXPLAIN ANALYZE ");
        reveal_strlit("EXPLAIN ");
        reveal_strlit("EXPLAIN QUERY PLAN ");
    }
    match engine {
        EngineKind::Postgres => {
            let mut e = "EXPLAIN ANALYZE ".to_owned();
            e.append(sql);
            Ok(e)
        },
        EngineKind::MySql => {
            let mut e = "EXPLAIN ".to_owned();
            e.append(sql);
            Ok(e)
        },
        EngineKind::Sqlite => {
            let mut e = "EXPLAIN QUERY PLAN ".to_owned();
            e.append(sql);
            Ok(e)
        },
        _ => Err(VelocityError::Query("EXPLAIN not supported".to_owned())),
    }
}

/// One line of the SQLite plan: the parent id and the detail text.
pub fn sqlite_plan_line(parent: i32, detail: &str) -> (r: String)
    ensures
        r@ == "parent:"@ + idec(parent as int) + " "@ + detail@,
{
    proof {
        reveal_strlit("parent:");
        reveal_strlit(" ");
    }
    let mut r = "parent:".to_owned();
    let d = i32_to_dec(parent);
    r.append(d.as_str());
    r.append(" ");
    r.append(detail);
    proof {
        assert(r@ =~= "parent:"@ + idec(parent as int) + " "@ + detail@);
    }
    r
}

/// Whether a statement changes the schema: it starts (after leading
/// blanks, case-folded upward) with CREATE, DROP, ALTER or TRUNCATE.
/// After such a statement succeeds the caller broadcasts a
/// schema-changed event.
pub open spec fn schema_change_spec(sql: Seq<char>) -> bool {
    let u = upper_of(trimmed(sql));
    prefix_of("CREATE"@, u) || prefix_of("DROP"@, u) || prefix_of("ALTER"@, u) || prefix_of(
        "TRUNCATE"@,
        u,
    )
}

/// Test whether a statement changes the schema.
pub fn is_schema_change(sql: &str) -> (r: bool)
    ensures
        r == schema_change_spec(sql@),
{
    let t = trim_blanks(sql);
    let u = to_upper(t.as_str());
    starts_with(u.as_str(), "CREATE") || starts_with(u.as_str(), "DROP") || starts_with(
        u.as_str(),
        "ALTER",
    ) || starts_with(u.as_str(), "TRUNCATE")
}

/// The hint offered for a failed statement, by the case-folded error
/// text, with the timeout hint refined by the statement's own text.
pub open spec fn hint_spec(error: Seq<char>, sql: Seq<char>) -> Option<Seq<char>> {
    let e = lower_of(error);
    let q = lower_of(sql);
    if has_substring(e, "syntax error"@) {
        Some(
            "Check SQL syntax. Common issues: missing quotes, typos in keywords, or incorrect clause order."@,
        )
    } else if has_substring(e, "relation"@) && has_substring(e, "does not exist"@) {
        Some(
            "The table or view does not exist. Use get_database_schema to see available tables."@,
        )
    } else if has_substring(e, "column"@) && has_substring(e, "does not exist"@) {
        Some("Column not found. Use get_database_schema to check column names for this table."@)
    } else if has_substring(e, "permission denied"@) {
        Some("Access denied. The user may not have permission for this operation."@)
    } else if has_substring(e, "duplicate key"@) || has_substring(e, "unique constraint"@) {
        Some(
            "Duplicate value violates a unique constraint. Try using different values or UPDATE instead."@,
        )
    } else if has_substring(e, "foreign key"@) {
        Some("Foreign key constraint violation. The referenced record must exist first."@)
    } else if has_substring(e, "timeout"@) {
        if has_substring(q, "select"@) && !has_substring(q, "limit"@) {
            Some("Query timed out. Consider adding a LIMIT clause or optimizing the query."@)
        } else {
            Some("Query timed out. The operation took too long to complete."@)
        }
    } else {
        None
    }
}

/// Offer a hint for a failed statement's error message.
pub fn generate_error_hint(error: &str, sql: &str) -> (r: Option<String>)
    ensures
        (match (r, hint_spec(error@, sql@)) {
            (Some(h), Some(t)) => h@ == t,
            (None, None) => true,
            _ => false,
        }),
{
    let error_lower = to_lower(error);
    let sql_lower = to_lower(sql);
    let e = error_lower.as_str();
    if str_contains(e, "syntax error") {
        Some(
            "Check SQL syntax. Common issues: missing quotes, typos in keywords, or incorrect clause order.".to_owned(),
        )
    } else if str_contains(e, "relation") && str_contains(e, "does not exist") {
        Some(
            "The table or view does not exist. Use get_database_schema to see available tables.".to_owned(),
        )
    } else if str_contains(e, "column") && str_contains(e, "does not exist") {
        Some(
            "Column not found. Use get_database_schema to check column names for this table.".to_owned(),
        )
    } else if str_contains(e, "permission denied") {
        Some("Access denied. The user may not have permission for this operation.".to_owned())
    } else if str_contains(e, "duplicate key") || str_contains(e, "unique constraint") {
        Some(
            "Duplicate value violates a unique constraint. Try using different values or UPDATE instead.".to_owned(),
        )
    } else if str_contains(e, "foreign key") {
        Some(
            "Foreign key constraint violation. The referenced record must exist first.".to_owned(),
        )
    } else if str_contains(e, "timeout") {
        if str_contains(sql_lower.as_str(), "select") && !str_contains(
            sql_lower.as_str(),
            "limit",
        ) {
            Some(
                "Query timed out. Consider adding a LIMIT clause or optimizing the query.".to_owned(),
            )
        } else {
            Some("Query timed out. The operation took too long to complete.".to_owned())
        }
    } else {
        None
    }
}

/// Fold a raw query outcome into the structured safe result: a success
/// carries the page and its count, a failure the message and a hint.
pub fn safe_query_result(outcome: Result<QueryResultData, String>, sql: &str) -> (r:
    SafeQueryResult)
    ensures
        (match outcome {
            Ok(data) => {
                &&& r.success == true
                &&& r.columns == Some(data.columns)
                &&& r.rows == Some(data.rows)
                &&& r.row_count == Some(data.row_count)
                &&& r.error_message is None
                &&& r.error_hint is None
            },
            Err(msg) => {
                &&& r.success == false
                &&& r.columns is None
                &&& r.rows is None
                &&& r.row_count is None
                &&& (r.error_message matches Some(m) && m@ == msg@)
                &&& (match (r.error_hint, hint_spec(msg@, sql@)) {
                    (Some(h), Some(t)) => h@ == t,
                    (None, None) => true,
                    _ => false,
                })
            },
        }),
{
    match outcome {
        Ok(data) => SafeQueryResult {
            success: true,
            columns: Some(data.columns),
            rows: Some(data.rows),
            row_count: Some(data.row_count),
            error_message: None,
            error_hint: None,
        },
        Err(msg) => {
            let hint = generate_error_hint(msg.as_str(), sql);
            SafeQueryResult {
                success: false,
                columns: None,
                rows: None,
                row_count: None,
                error_message: Some(msg),
                error_hint: hint,
            }
        },
    }
}

} // verus!
