use velocity::catalog::{
    build_mysql_tables_sql, build_pg_tables_sql, build_sqlite_tables_sql, column_from_mysql_row,
    column_from_pg_row, column_from_sqlite_row, filter_and_page_names,
    foreign_key_from_sqlite_row, mongo_column_names, mongo_columns_schema, mongo_rows,
    redis_columns, redis_database_names, sqlite_database_names, sqlserver_database_names,
};
use velocity::values::JsonVal;

#[test]
fn listing_tables_with_search_filters_and_sorts() {
    let names = vec![
        "users".to_string(),
        "user_roles".to_string(),
        "products".to_string(),
    ];
    let result = filter_and_page_names(names, &Some("user".to_string()), None, None);
    assert_eq!(result, vec!["user_roles", "users"]);
}

#[test]
fn search_is_case_insensitive() {
    let names = vec!["Users".to_string(), "ORDERS".to_string(), "logs".to_string()];
    let result = filter_and_page_names(names, &Some("uSeR".to_string()), None, None);
    assert_eq!(result, vec!["Users"]);
}

#[test]
fn paging_slices_the_sorted_names() {
    let names = vec![
        "d".to_string(),
        "a".to_string(),
        "c".to_string(),
        "b".to_string(),
    ];
    let page = filter_and_page_names(names.clone(), &None, Some(2), Some(1));
    assert_eq!(page, vec!["b", "c"]);
    let past_the_end = filter_and_page_names(names, &None, Some(2), Some(9));
    assert!(past_the_end.is_empty());
}

#[test]
fn fixed_database_lists() {
    assert_eq!(sqlite_database_names(), vec!["main"]);
    assert_eq!(sqlserver_database_names(), vec!["master"]);
    let redis = redis_database_names();
    assert_eq!(redis.len(), 16);
    assert_eq!(redis[0], "db0");
    assert_eq!(redis[15], "db15");
}

#[test]
fn pg_tables_query_escapes_the_search() {
    let sql = build_pg_tables_sql(&Some("it's".to_string()), Some(10), Some(5));
    assert_eq!(
        sql,
        "SELECT tablename FROM pg_tables WHERE schemaname = 'public' AND tablename ILIKE '%it''s%' ORDER BY tablename LIMIT 10 OFFSET 5"
    );
}

#[test]
fn mysql_tables_query_uses_like_under_search() {
    assert_eq!(build_mysql_tables_sql(&None, None, None), "SHOW TABLES");
    assert_eq!(
        build_mysql_tables_sql(&Some("log".to_string()), Some(3), None),
        "SHOW TABLES LIKE '%log%' LIMIT 3"
    );
}

#[test]
fn sqlite_tables_query_skips_internal_tables() {
    let sql = build_sqlite_tables_sql(&None, None, None);
    assert_eq!(
        sql,
        "SELECT name FROM sqlite_master WHERE type='table' AND name NOT LIKE 'sqlite_%' ORDER BY name"
    );
}

#[test]
fn column_rows_map_nullability_and_keys() {
    let pg = column_from_pg_row("id".to_string(), "integer".to_string(), "NO".to_string(), None);
    assert!(!pg.nullable);
    assert!(!pg.is_primary_key);
    let my = column_from_mysql_row(
        "name".to_string(),
        "varchar".to_string(),
        "YES".to_string(),
        Some(255),
    );
    assert!(my.nullable);
    assert_eq!(my.max_length, Some(255));
    let lite = column_from_sqlite_row("id".to_string(), "INTEGER".to_string(), 1, 1);
    assert!(!lite.nullable);
    assert!(lite.is_primary_key);
}

#[test]
fn sqlite_foreign_keys_are_named_by_row_id() {
    let fk = foreign_key_from_sqlite_row(
        0,
        "users".to_string(),
        "user_id".to_string(),
        "id".to_string(),
    );
    assert_eq!(fk.constraint_name, "fk_0");
    assert_eq!(fk.column_name, "user_id");
    assert_eq!(fk.referenced_table, "users");
    assert_eq!(fk.referenced_column, "id");
}

#[test]
fn redis_and_mongo_fixed_columns() {
    let r = redis_columns();
    assert_eq!(r.len(), 1);
    assert_eq!(r[0].name, "value");
    let m = mongo_columns_schema();
    assert_eq!(m.len(), 1);
    assert_eq!(m[0].name, "_id");
    assert!(m[0].is_primary_key);
}

#[test]
fn mongo_columns_are_the_sorted_union_with_id_first() {
    let docs: Vec<Vec<(String, JsonVal)>> = vec![
        vec![
            ("zeta".to_string(), JsonVal::Int(1)),
            ("_id".to_string(), JsonVal::Str("a1".to_string())),
        ],
        vec![
            ("alpha".to_string(), JsonVal::Bool(true)),
            ("zeta".to_string(), JsonVal::Int(2)),
        ],
    ];
    let columns = mongo_column_names(&docs);
    assert_eq!(columns, vec!["_id", "alpha", "zeta"]);
}

#[test]
fn mongo_rows_fill_missing_keys_with_null() {
    let docs: Vec<Vec<(String, JsonVal)>> = vec![
        vec![
            ("_id".to_string(), JsonVal::Str("a1".to_string())),
            ("n".to_string(), JsonVal::Int(5)),
        ],
        vec![("_id".to_string(), JsonVal::Str("a2".to_string()))],
    ];
    let columns = vec!["_id".to_string(), "n".to_string()];
    let rows = mongo_rows(&docs, &columns);
    assert_eq!(rows.len(), 2);
    assert!(matches!(&rows[0][1], JsonVal::Int(5)));
    assert!(matches!(&rows[1][1], JsonVal::Null));
}
