use velocity::catalog::ColumnInfo;
use velocity::filters::{
    ColumnFilter, CursorConfig, CursorDirection, FilterLogic, FilterOperator, QueryOptions,
};
use velocity::table_data::{
    assemble_table_response, build_count_query, build_simple_table_query, build_table_query,
    redis_table_data, resolve_selected_names,
};
use velocity::values::JsonVal;

fn status_filter() -> ColumnFilter {
    ColumnFilter {
        column: "status".to_string(),
        operator: FilterOperator::Equals,
        value: Some(JsonVal::Str("active".to_string())),
    }
}

#[test]
fn table_query_combines_all_fragments() {
    let options = QueryOptions {
        filters: vec![status_filter()],
        limit: 50,
        ..Default::default()
    };
    let (sql, params) = build_table_query("tasks", &options);
    assert_eq!(
        sql,
        "SELECT * FROM \"tasks\" WHERE \"status\" = $1 LIMIT 50 OFFSET 0"
    );
    assert_eq!(params, vec!["active"]);
}

#[test]
fn cursor_condition_is_appended_with_and() {
    let options = QueryOptions {
        filters: vec![status_filter()],
        limit: 10,
        cursor: Some(CursorConfig {
            column: "id".to_string(),
            direction: CursorDirection::After,
            value: JsonVal::Int(10),
        }),
        ..Default::default()
    };
    let (sql, params) = build_table_query("tasks", &options);
    assert_eq!(
        sql,
        "SELECT * FROM \"tasks\" WHERE \"status\" = $1 AND \"id\" > $2 ORDER BY \"id\" ASC LIMIT 10"
    );
    // The filter parameter comes first, the cursor value last.
    assert_eq!(params, vec!["active", "10"]);
}

#[test]
fn cursor_opens_the_where_clause_when_no_filter_resolves() {
    let options = QueryOptions {
        limit: 10,
        cursor: Some(CursorConfig {
            column: "id".to_string(),
            direction: CursorDirection::Before,
            value: JsonVal::Int(99),
        }),
        ..Default::default()
    };
    let (sql, params) = build_table_query("tasks", &options);
    assert_eq!(
        sql,
        "SELECT * FROM \"tasks\" WHERE \"id\" < $1 ORDER BY \"id\" DESC LIMIT 10"
    );
    assert_eq!(params, vec!["99"]);
}

#[test]
fn cursor_is_conjoined_by_and_even_under_or_logic() {
    let options = QueryOptions {
        filters: vec![
            ColumnFilter {
                column: "a".to_string(),
                operator: FilterOperator::IsNull,
                value: None,
            },
            ColumnFilter {
                column: "b".to_string(),
                operator: FilterOperator::IsNotNull,
                value: None,
            },
        ],
        filter_logic: FilterLogic::Or,
        limit: 10,
        cursor: Some(CursorConfig {
            column: "id".to_string(),
            direction: CursorDirection::After,
            value: JsonVal::Int(5),
        }),
        ..Default::default()
    };
    let (sql, params) = build_table_query("t", &options);
    assert_eq!(
        sql,
        "SELECT * FROM \"t\" WHERE \"a\" IS NULL OR \"b\" IS NOT NULL AND \"id\" > $1 ORDER BY \"id\" ASC LIMIT 10"
    );
    assert_eq!(params, vec!["5"]);
}

#[test]
fn count_query_shares_the_where_but_not_pagination() {
    let options = QueryOptions {
        filters: vec![status_filter()],
        limit: 50,
        offset: 100,
        cursor: Some(CursorConfig {
            column: "id".to_string(),
            direction: CursorDirection::After,
            value: JsonVal::Int(10),
        }),
        ..Default::default()
    };
    let (sql, params) = build_count_query("tasks", &options);
    assert_eq!(
        sql,
        "SELECT COUNT(*) as count FROM \"tasks\" WHERE \"status\" = $1"
    );
    // The count binds the filter value but never the cursor's.
    assert_eq!(params, vec!["active"]);
}

#[test]
fn simple_query_pages_without_quoting_the_table() {
    assert_eq!(
        build_simple_table_query("users", 100, 20),
        "SELECT * FROM users LIMIT 100 OFFSET 20"
    );
}

#[test]
fn selected_names_fall_back_to_the_schema() {
    let schema = vec![
        ColumnInfo {
            name: "id".to_string(),
            data_type: "integer".to_string(),
            nullable: false,
            max_length: None,
            is_primary_key: true,
        },
        ColumnInfo {
            name: "name".to_string(),
            data_type: "text".to_string(),
            nullable: true,
            max_length: None,
            is_primary_key: false,
        },
    ];
    let all = resolve_selected_names(&QueryOptions::default(), &schema);
    assert_eq!(all, vec!["id", "name"]);
    let some = QueryOptions {
        selected_columns: Some(vec!["name".to_string()]),
        ..Default::default()
    };
    assert_eq!(resolve_selected_names(&some, &schema), vec!["name"]);
}

#[test]
fn skip_count_leaves_the_total_absent() {
    let options = QueryOptions {
        skip_count: true,
        ..Default::default()
    };
    let response = assemble_table_response(vec![], vec![], &options, Some(30));
    assert_eq!(response.total_count, None);
    let counted = QueryOptions::default();
    let response = assemble_table_response(vec![], vec![], &counted, Some(30));
    assert_eq!(response.total_count, Some(30));
}

#[test]
fn next_cursor_is_the_last_rows_cursor_value() {
    let options = QueryOptions {
        cursor: Some(CursorConfig {
            column: "id".to_string(),
            direction: CursorDirection::After,
            value: JsonVal::Int(10),
        }),
        ..Default::default()
    };
    let columns = vec!["id".to_string(), "name".to_string()];
    let rows = vec![
        vec![JsonVal::Int(11), JsonVal::Str("a".to_string())],
        vec![JsonVal::Int(14), JsonVal::Str("b".to_string())],
    ];
    let response = assemble_table_response(columns, rows, &options, None);
    assert!(matches!(response.next_cursor, Some(JsonVal::Int(14))));
}

#[test]
fn next_cursor_absent_on_empty_page_or_without_cursor() {
    let options = QueryOptions {
        cursor: Some(CursorConfig {
            column: "id".to_string(),
            direction: CursorDirection::After,
            value: JsonVal::Int(10),
        }),
        ..Default::default()
    };
    let response = assemble_table_response(vec!["id".to_string()], vec![], &options, None);
    assert!(response.next_cursor.is_none());
    let plain = QueryOptions::default();
    let rows = vec![vec![JsonVal::Int(1)]];
    let response = assemble_table_response(vec!["id".to_string()], rows, &plain, None);
    assert!(response.next_cursor.is_none());
}

#[test]
fn redis_page_holds_the_keys_value() {
    let hit = redis_table_data(Some("cached".to_string()));
    assert_eq!(hit.columns, vec!["value"]);
    assert_eq!(hit.rows.len(), 1);
    assert!(matches!(&hit.rows[0][0], JsonVal::Str(s) if s == "cached"));
    let miss = redis_table_data(None);
    assert!(miss.rows.is_empty());
}
