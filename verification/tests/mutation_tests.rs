use velocity::engine::EngineKind;
use velocity::mutation::{plan_changes, summarize_mutation, PendingChange};
use velocity::values::JsonVal;

fn change(kind: &str, row_id: &str, column: &str, value: JsonVal) -> PendingChange {
    PendingChange {
        row_id: row_id.to_string(),
        column: column.to_string(),
        old_value: JsonVal::Null,
        new_value: value,
        change_type: kind.to_string(),
    }
}

#[test]
fn update_statement_splices_typed_values() {
    let changes = vec![change(
        "update",
        "7",
        "name",
        JsonVal::Str("O'Brien".to_string()),
    )];
    let stmts = plan_changes(EngineKind::Postgres, "users", "id", &changes).unwrap();
    assert_eq!(stmts.len(), 1);
    assert_eq!(stmts[0].change_type, "update");
    assert_eq!(
        stmts[0].sql,
        "UPDATE \"users\" SET \"name\" = 'O''Brien' WHERE \"id\" = 7"
    );
}

#[test]
fn mysql_statements_use_backticks() {
    let changes = vec![
        change("update", "uuid-1", "age", JsonVal::Int(30)),
        change("delete", "9", "", JsonVal::Null),
    ];
    let stmts = plan_changes(EngineKind::MySql, "users", "id", &changes).unwrap();
    assert_eq!(stmts.len(), 2);
    assert_eq!(
        stmts[0].sql,
        "UPDATE `users` SET `age` = 30 WHERE `id` = 'uuid-1'"
    );
    assert_eq!(stmts[1].sql, "DELETE FROM `users` WHERE `id` = 9");
}

#[test]
fn insert_planned_on_every_transactional_dialect() {
    let changes = vec![change("insert", "", "name", JsonVal::Str("ann".to_string()))];
    let pg = plan_changes(EngineKind::Postgres, "users", "id", &changes).unwrap();
    assert_eq!(pg.len(), 1);
    assert_eq!(pg[0].sql, "INSERT INTO \"users\" (\"name\") VALUES ('ann')");
    let my = plan_changes(EngineKind::MySql, "users", "id", &changes).unwrap();
    assert_eq!(my.len(), 1);
    assert_eq!(my[0].sql, "INSERT INTO `users` (`name`) VALUES ('ann')");
    let lite = plan_changes(EngineKind::Sqlite, "users", "id", &changes).unwrap();
    assert_eq!(lite.len(), 1);
    assert_eq!(lite[0].sql, "INSERT INTO \"users\" (\"name\") VALUES ('ann')");
}

#[test]
fn unknown_change_kinds_are_skipped() {
    let changes = vec![change("merge", "1", "a", JsonVal::Null)];
    let stmts = plan_changes(EngineKind::Postgres, "t", "id", &changes).unwrap();
    assert!(stmts.is_empty());
}

#[test]
fn non_transactional_engines_reject_the_batch() {
    for engine in [EngineKind::Redis, EngineKind::MongoDb, EngineKind::SqlServer] {
        let err = plan_changes(engine, "t", "id", &vec![]).err().unwrap();
        assert_eq!(
            err.message(),
            "Execute changes not supported for this database type"
        );
    }
}

#[test]
fn three_changes_with_one_failure_roll_back() {
    let kinds = vec![
        "update".to_string(),
        "update".to_string(),
        "delete".to_string(),
    ];
    let outcomes: Vec<Result<u64, String>> = vec![
        Ok(1),
        Err("UNIQUE constraint failed: users.email".to_string()),
        Ok(1),
    ];
    let result = summarize_mutation(&kinds, &outcomes);
    assert!(!result.success);
    assert_eq!(result.errors.len(), 1);
    assert_eq!(
        result.errors[0],
        "update: UNIQUE constraint failed: users.email"
    );
    // The batch is rolled back, so the report shows zero net effect.
    assert_eq!(result.rows_affected, 0);
}

#[test]
fn clean_batch_commits_with_summed_rows() {
    let kinds = vec!["update".to_string(), "delete".to_string()];
    let outcomes: Vec<Result<u64, String>> = vec![Ok(1), Ok(3)];
    let result = summarize_mutation(&kinds, &outcomes);
    assert!(result.success);
    assert!(result.errors.is_empty());
    assert_eq!(result.rows_affected, 4);
}
