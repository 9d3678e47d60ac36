use velocity::catalog::column_from_sqlite_row;
use velocity::engine::EngineKind;
use velocity::filters::{
    ColumnFilter, CursorConfig, CursorDirection, FilterOperator, QueryOptions,
};
use velocity::mutation::{plan_changes, summarize_mutation, PendingChange};
use velocity::schema_ops::{generate_create_table_sql, ColumnDefinition, CreateTableRequest};
use velocity::table_data::{assemble_table_response, build_count_query, build_table_query};
use velocity::values::JsonVal;

use sqlx::Row;

fn runtime() -> tokio::runtime::Runtime {
    tokio::runtime::Builder::new_current_thread()
        .enable_all()
        .build()
        .unwrap()
}

async fn memory_pool() -> sqlx::Pool<sqlx::Sqlite> {
    sqlx::sqlite::SqlitePoolOptions::new()
        .max_connections(1)
        .connect("sqlite::memory:")
        .await
        .unwrap()
}

async fn fetch_rows(
    pool: &sqlx::Pool<sqlx::Sqlite>,
    sql: &str,
    params: &[String],
) -> Vec<Vec<JsonVal>> {
    let mut query = sqlx::query(sql);
    for p in params {
        query = query.bind(p);
    }
    let rows = query.fetch_all(pool).await.unwrap();
    rows.iter()
        .map(|row| {
            (0..row.len())
                .map(|i| {
                    if let Ok(v) = row.try_get::<i64, _>(i) {
                        JsonVal::Int(v)
                    } else if let Ok(v) = row.try_get::<String, _>(i) {
                        JsonVal::Str(v)
                    } else {
                        JsonVal::Null
                    }
                })
                .collect()
        })
        .collect()
}

#[test]
fn filtered_page_and_total_against_a_real_table() {
    runtime().block_on(async {
        let pool = memory_pool().await;
        sqlx::query("CREATE TABLE items (id INTEGER PRIMARY KEY, status TEXT)")
            .execute(&pool)
            .await
            .unwrap();
        for i in 0..200 {
            let status = if i < 30 { "active" } else { "idle" };
            sqlx::query("INSERT INTO items (id, status) VALUES (?, ?)")
                .bind(i as i64 + 1)
                .bind(status)
                .execute(&pool)
                .await
                .unwrap();
        }
        let options = QueryOptions {
            filters: vec![ColumnFilter {
                column: "status".to_string(),
                operator: FilterOperator::Equals,
                value: Some(JsonVal::Str("active".to_string())),
            }],
            limit: 50,
            selected_columns: Some(vec!["id".to_string(), "status".to_string()]),
            ..Default::default()
        };
        let (sql, params) = build_table_query("items", &options);
        let rows = fetch_rows(&pool, &sql, &params).await;
        // 200 rows, 30 of them active: the whole match fits under the
        // 50-row page.
        assert_eq!(rows.len(), 30);

        let (count_sql, count_params) = build_count_query("items", &options);
        let mut count_q = sqlx::query(&count_sql);
        for p in &count_params {
            count_q = count_q.bind(p.as_str());
        }
        let count_row = count_q.fetch_one(&pool).await.unwrap();
        let total: i64 = count_row.try_get("count").unwrap();
        assert_eq!(total, 30);

        let response =
            assemble_table_response(vec!["id".to_string(), "status".to_string()], rows, &options, Some(total));
        assert_eq!(response.total_count, Some(30));
        assert_eq!(response.rows.len(), 30);
    });
}

#[test]
fn cursor_page_is_monotonic_on_a_real_table() {
    runtime().block_on(async {
        let pool = memory_pool().await;
        sqlx::query("CREATE TABLE seq_items (id INTEGER PRIMARY KEY)")
            .execute(&pool)
            .await
            .unwrap();
        for i in 1..=30i64 {
            sqlx::query("INSERT INTO seq_items (id) VALUES (?)")
                .bind(i)
                .execute(&pool)
                .await
                .unwrap();
        }
        let options = QueryOptions {
            limit: 5,
            cursor: Some(CursorConfig {
                column: "id".to_string(),
                direction: CursorDirection::After,
                value: JsonVal::Int(10),
            }),
            selected_columns: Some(vec!["id".to_string()]),
            ..Default::default()
        };
        let (sql, params) = build_table_query("seq_items", &options);
        // The cursor bound travels with the compiled query.
        assert_eq!(params, vec!["10"]);
        let rows = {
            let mut q = sqlx::query(&sql);
            for p in &params {
                q = q.bind(p.as_str());
            }
            let fetched = q.fetch_all(&pool).await.unwrap();
            fetched
                .iter()
                .map(|row| vec![JsonVal::Int(row.try_get::<i64, _>(0).unwrap())])
                .collect::<Vec<_>>()
        };
        assert_eq!(rows.len(), 5);
        for row in &rows {
            match row[0] {
                JsonVal::Int(id) => assert!(id > 10),
                _ => panic!("expected an integer id"),
            }
        }
        let response =
            assemble_table_response(vec!["id".to_string()], rows, &options, None);
        assert!(matches!(response.next_cursor, Some(JsonVal::Int(15))));
    });
}

#[test]
fn filter_and_cursor_parameters_bind_together() {
    runtime().block_on(async {
        let pool = memory_pool().await;
        sqlx::query("CREATE TABLE events (id INTEGER PRIMARY KEY, kind TEXT)")
            .execute(&pool)
            .await
            .unwrap();
        for i in 1..=20i64 {
            let kind = if i % 2 == 0 { "audit" } else { "debug" };
            sqlx::query("INSERT INTO events (id, kind) VALUES (?, ?)")
                .bind(i)
                .bind(kind)
                .execute(&pool)
                .await
                .unwrap();
        }
        let options = QueryOptions {
            filters: vec![ColumnFilter {
                column: "kind".to_string(),
                operator: FilterOperator::Equals,
                value: Some(JsonVal::Str("audit".to_string())),
            }],
            limit: 3,
            cursor: Some(CursorConfig {
                column: "id".to_string(),
                direction: CursorDirection::After,
                value: JsonVal::Int(6),
            }),
            selected_columns: Some(vec!["id".to_string()]),
            ..Default::default()
        };
        let (sql, params) = build_table_query("events", &options);
        assert_eq!(params, vec!["audit", "6"]);
        let rows = fetch_rows(&pool, &sql, &params).await;
        // Even ids past 6, ascending, capped at 3: 8, 10, 12.
        let ids: Vec<i64> = rows
            .iter()
            .map(|row| match row[0] {
                JsonVal::Int(id) => id,
                _ => panic!("expected an integer id"),
            })
            .collect();
        assert_eq!(ids, vec![8, 10, 12]);
        let response = assemble_table_response(vec!["id".to_string()], rows, &options, None);
        assert!(matches!(response.next_cursor, Some(JsonVal::Int(12))));
    });
}

#[test]
fn generated_ddl_round_trips_through_the_schema() {
    runtime().block_on(async {
        let pool = memory_pool().await;
        let request = CreateTableRequest {
            name: "people".to_string(),
            columns: vec![
                ColumnDefinition {
                    name: "id".to_string(),
                    data_type: "INTEGER".to_string(),
                    nullable: false,
                    default_value: None,
                    is_primary_key: true,
                    is_auto_increment: false,
                },
                ColumnDefinition {
                    name: "name".to_string(),
                    data_type: "TEXT".to_string(),
                    nullable: true,
                    default_value: None,
                    is_primary_key: false,
                    is_auto_increment: false,
                },
            ],
            primary_key: Some(vec!["id".to_string()]),
        };
        let ddl = generate_create_table_sql(EngineKind::Sqlite, &request).unwrap();
        sqlx::query(&ddl).execute(&pool).await.unwrap();

        let raw: Vec<(i32, String, String, i32, Option<String>, i32)> =
            sqlx::query_as("PRAGMA table_info(people)").fetch_all(&pool).await.unwrap();
        let schema: Vec<_> = raw
            .into_iter()
            .map(|(_, name, data_type, notnull, _, pk)| {
                column_from_sqlite_row(name, data_type, notnull, pk)
            })
            .collect();
        assert_eq!(schema.len(), 2);
        assert_eq!(schema[0].name, "id");
        assert_eq!(schema[0].data_type, "INTEGER");
        assert!(!schema[0].nullable);
        assert!(schema[0].is_primary_key);
        assert_eq!(schema[1].name, "name");
        assert_eq!(schema[1].data_type, "TEXT");
        assert!(schema[1].nullable);
    });
}

#[test]
fn failed_batch_rolls_back_to_the_prior_state() {
    runtime().block_on(async {
        let pool = memory_pool().await;
        sqlx::query("CREATE TABLE accounts (id INTEGER PRIMARY KEY, email TEXT UNIQUE)")
            .execute(&pool)
            .await
            .unwrap();
        sqlx::query("INSERT INTO accounts VALUES (1, 'a@x'), (2, 'b@x'), (3, 'c@x')")
            .execute(&pool)
            .await
            .unwrap();

        let changes = vec![
            PendingChange {
                row_id: "1".to_string(),
                column: "email".to_string(),
                old_value: JsonVal::Null,
                new_value: JsonVal::Str("a2@x".to_string()),
                change_type: "update".to_string(),
            },
            PendingChange {
                row_id: "2".to_string(),
                column: "email".to_string(),
                old_value: JsonVal::Null,
                new_value: JsonVal::Str("c@x".to_string()),
                change_type: "update".to_string(),
            },
            PendingChange {
                row_id: "3".to_string(),
                column: "email".to_string(),
                old_value: JsonVal::Null,
                new_value: JsonVal::Str("c2@x".to_string()),
                change_type: "update".to_string(),
            },
        ];
        let statements = plan_changes(EngineKind::Sqlite, "accounts", "id", &changes).unwrap();
        let kinds: Vec<String> = statements.iter().map(|s| s.change_type.clone()).collect();

        let mut tx = pool.begin().await.unwrap();
        let mut outcomes: Vec<Result<u64, String>> = Vec::new();
        for stmt in &statements {
            match sqlx::query(&stmt.sql).execute(&mut *tx).await {
                Ok(r) => outcomes.push(Ok(r.rows_affected())),
                Err(e) => outcomes.push(Err(e.to_string())),
            }
        }
        let result = summarize_mutation(&kinds, &outcomes);
        if result.success {
            tx.commit().await.unwrap();
        } else {
            tx.rollback().await.unwrap();
        }

        assert!(!result.success);
        assert_eq!(result.errors.len(), 1);
        assert!(result.errors[0].starts_with("update: "));

        // The table is back to its prior state.
        let rows: Vec<(i64, String)> =
            sqlx::query_as("SELECT id, email FROM accounts ORDER BY id")
                .fetch_all(&pool)
                .await
                .unwrap();
        assert_eq!(
            rows,
            vec![
                (1, "a@x".to_string()),
                (2, "b@x".to_string()),
                (3, "c@x".to_string()),
            ]
        );
    });
}

#[test]
fn clean_batch_commits_against_a_real_table() {
    runtime().block_on(async {
        let pool = memory_pool().await;
        sqlx::query("CREATE TABLE notes (id INTEGER PRIMARY KEY, body TEXT)")
            .execute(&pool)
            .await
            .unwrap();
        sqlx::query("INSERT INTO notes VALUES (1, 'old')").execute(&pool).await.unwrap();

        let changes = vec![PendingChange {
            row_id: "1".to_string(),
            column: "body".to_string(),
            old_value: JsonVal::Null,
            new_value: JsonVal::Str("new".to_string()),
            change_type: "update".to_string(),
        }];
        let statements = plan_changes(EngineKind::Sqlite, "notes", "id", &changes).unwrap();
        let kinds: Vec<String> = statements.iter().map(|s| s.change_type.clone()).collect();

        let mut tx = pool.begin().await.unwrap();
        let mut outcomes: Vec<Result<u64, String>> = Vec::new();
        for stmt in &statements {
            match sqlx::query(&stmt.sql).execute(&mut *tx).await {
                Ok(r) => outcomes.push(Ok(r.rows_affected())),
                Err(e) => outcomes.push(Err(e.to_string())),
            }
        }
        let result = summarize_mutation(&kinds, &outcomes);
        if result.success {
            tx.commit().await.unwrap();
        } else {
            tx.rollback().await.unwrap();
        }

        assert!(result.success);
        assert_eq!(result.rows_affected, 1);
        let body: (String,) = sqlx::query_as("SELECT body FROM notes WHERE id = 1")
            .fetch_one(&pool)
            .await
            .unwrap();
        assert_eq!(body.0, "new");
    });
}
