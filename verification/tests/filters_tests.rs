use velocity::filters::{
    ColumnFilter, CursorConfig, CursorDirection, FilterLogic, FilterOperator, QueryOptions,
    SortConfig, SortDirection, default_limit,
};
use velocity::values::{JsonItem, JsonVal};

#[test]
fn test_empty_filters() {
    let options = QueryOptions::default();
    let (clause, params) = options.build_where_clause();
    assert_eq!(clause, "");
    assert!(params.is_empty());
}

#[test]
fn test_equals_filter() {
    let options = QueryOptions {
        filters: vec![ColumnFilter {
            column: "name".to_string(),
            operator: FilterOperator::Equals,
            value: Some(JsonVal::Str("test".to_string())),
        }],
        ..Default::default()
    };
    let (clause, params) = options.build_where_clause();
    assert_eq!(clause, " WHERE \"name\" = $1");
    assert_eq!(params, vec!["test"]);
}

#[test]
fn test_sort_clause() {
    let options = QueryOptions {
        sort: Some(SortConfig {
            column: "created_at".to_string(),
            direction: SortDirection::Desc,
        }),
        ..Default::default()
    };
    assert_eq!(options.build_order_clause(), " ORDER BY \"created_at\" DESC");
}

#[test]
fn default_limit_is_one_hundred() {
    assert_eq!(default_limit(), 100);
    assert_eq!(QueryOptions::default().limit, 100);
}

#[test]
fn placeholders_numbered_in_emission_order() {
    let options = QueryOptions {
        filters: vec![
            ColumnFilter {
                column: "a".to_string(),
                operator: FilterOperator::Equals,
                value: Some(JsonVal::Int(1)),
            },
            ColumnFilter {
                column: "b".to_string(),
                operator: FilterOperator::GreaterThan,
                value: None,
            },
            ColumnFilter {
                column: "c".to_string(),
                operator: FilterOperator::LessThan,
                value: Some(JsonVal::Int(9)),
            },
        ],
        ..Default::default()
    };
    let (clause, params) = options.build_where_clause();
    assert_eq!(clause, " WHERE \"a\" = $1 AND \"c\" < $2");
    assert_eq!(params, vec!["1", "9"]);
}

#[test]
fn or_logic_joins_uniformly() {
    let options = QueryOptions {
        filters: vec![
            ColumnFilter {
                column: "x".to_string(),
                operator: FilterOperator::IsNull,
                value: None,
            },
            ColumnFilter {
                column: "y".to_string(),
                operator: FilterOperator::IsNotNull,
                value: None,
            },
        ],
        filter_logic: FilterLogic::Or,
        ..Default::default()
    };
    let (clause, params) = options.build_where_clause();
    assert_eq!(clause, " WHERE \"x\" IS NULL OR \"y\" IS NOT NULL");
    assert!(params.is_empty());
}

#[test]
fn in_filter_expands_each_item() {
    let options = QueryOptions {
        filters: vec![ColumnFilter {
            column: "status".to_string(),
            operator: FilterOperator::In,
            value: Some(JsonVal::Arr(
                vec![
                    JsonItem::Str("active".to_string()),
                    JsonItem::Int(7),
                    JsonItem::Null,
                ],
                "[\"active\",7,null]".to_string(),
            )),
        }],
        ..Default::default()
    };
    let (clause, params) = options.build_where_clause();
    assert_eq!(clause, " WHERE \"status\" IN ($1, $2, $3)");
    assert_eq!(params, vec!["active", "7", "NULL"]);
}

#[test]
fn in_filter_with_empty_list_is_skipped() {
    let options = QueryOptions {
        filters: vec![ColumnFilter {
            column: "status".to_string(),
            operator: FilterOperator::In,
            value: Some(JsonVal::Arr(vec![], "[]".to_string())),
        }],
        ..Default::default()
    };
    let (clause, params) = options.build_where_clause();
    assert_eq!(clause, "");
    assert!(params.is_empty());
}

#[test]
fn like_filter_wraps_value_in_percent() {
    let options = QueryOptions {
        filters: vec![ColumnFilter {
            column: "name".to_string(),
            operator: FilterOperator::Like,
            value: Some(JsonVal::Str("ann".to_string())),
        }],
        ..Default::default()
    };
    let (clause, params) = options.build_where_clause();
    assert_eq!(clause, " WHERE \"name\" ILIKE $1");
    assert_eq!(params, vec!["%ann%"]);
}

#[test]
fn cursor_clause_direction_and_param() {
    let after = QueryOptions {
        cursor: Some(CursorConfig {
            column: "id".to_string(),
            direction: CursorDirection::After,
            value: JsonVal::Int(10),
        }),
        ..Default::default()
    };
    assert_eq!(
        after.build_cursor_clause(),
        Some(("\"id\" > ?".to_string(), "10".to_string()))
    );
    let before = QueryOptions {
        cursor: Some(CursorConfig {
            column: "id".to_string(),
            direction: CursorDirection::Before,
            value: JsonVal::Int(10),
        }),
        ..Default::default()
    };
    assert_eq!(
        before.build_cursor_clause(),
        Some(("\"id\" < ?".to_string(), "10".to_string()))
    );
    assert_eq!(QueryOptions::default().build_cursor_clause(), None);
}

#[test]
fn cursor_overrides_explicit_sort() {
    let options = QueryOptions {
        sort: Some(SortConfig {
            column: "name".to_string(),
            direction: SortDirection::Desc,
        }),
        cursor: Some(CursorConfig {
            column: "id".to_string(),
            direction: CursorDirection::After,
            value: JsonVal::Int(10),
        }),
        ..Default::default()
    };
    assert_eq!(options.build_order_clause(), " ORDER BY \"id\" ASC");
    assert!(options.uses_cursor());
}

#[test]
fn cursor_pagination_drops_offset() {
    let mut options = QueryOptions {
        limit: 50,
        offset: 200,
        ..Default::default()
    };
    assert_eq!(options.build_pagination_clause(), " LIMIT 50 OFFSET 200");
    options.cursor = Some(CursorConfig {
        column: "id".to_string(),
        direction: CursorDirection::After,
        value: JsonVal::Int(10),
    });
    assert_eq!(options.build_pagination_clause(), " LIMIT 50");
}

#[test]
fn select_columns_quoted_or_star() {
    let all = QueryOptions::default();
    assert_eq!(all.build_select_columns(), "*");
    let some = QueryOptions {
        selected_columns: Some(vec!["id".to_string(), "name".to_string()]),
        ..Default::default()
    };
    assert_eq!(some.build_select_columns(), "\"id\", \"name\"");
    let empty = QueryOptions {
        selected_columns: Some(vec![]),
        ..Default::default()
    };
    assert_eq!(empty.build_select_columns(), "*");
}
