use velocity::engine::EngineKind;
use velocity::schema_ops::{
    ColumnDefinition, CreateTableRequest, ForeignKeyDefinition, IndexInfo, default_cascade,
    generate_add_column_sql, generate_add_foreign_key_sql, generate_create_index_sql,
    generate_create_table_sql, generate_drop_column_sql, generate_drop_constraint_sql,
    generate_drop_index_sql, generate_modify_column_sql, index_from_pg_row,
    index_from_sqlite_row, ddl_supported,
};

fn plain_column(name: &str, data_type: &str, nullable: bool) -> ColumnDefinition {
    ColumnDefinition {
        name: name.to_string(),
        data_type: data_type.to_string(),
        nullable,
        default_value: None,
        is_primary_key: false,
        is_auto_increment: false,
    }
}

#[test]
fn create_table_lists_columns_and_primary_key() {
    let request = CreateTableRequest {
        name: "users".to_string(),
        columns: vec![
            plain_column("id", "INTEGER", false),
            plain_column("name", "TEXT", true),
        ],
        primary_key: Some(vec!["id".to_string()]),
    };
    let sql = generate_create_table_sql(EngineKind::Sqlite, &request).unwrap();
    assert_eq!(
        sql,
        "CREATE TABLE \"users\" (\n  \"id\" INTEGER NOT NULL,\n  \"name\" TEXT,\n  PRIMARY KEY (\"id\")\n);"
    );
}

#[test]
fn create_table_default_value_kept() {
    let mut col = plain_column("status", "TEXT", false);
    col.default_value = Some("'new'".to_string());
    let request = CreateTableRequest {
        name: "jobs".to_string(),
        columns: vec![col],
        primary_key: None,
    };
    let sql = generate_create_table_sql(EngineKind::Postgres, &request).unwrap();
    assert_eq!(
        sql,
        "CREATE TABLE \"jobs\" (\n  \"status\" TEXT NOT NULL DEFAULT 'new'\n);"
    );
}

#[test]
fn auto_increment_dialect_forms() {
    let mut col = plain_column("id", "INTEGER", false);
    col.is_auto_increment = true;
    let request = CreateTableRequest {
        name: "t".to_string(),
        columns: vec![col],
        primary_key: None,
    };
    let pg = generate_create_table_sql(EngineKind::Postgres, &request).unwrap();
    assert_eq!(pg, "CREATE TABLE \"t\" (\n  \"id\" SERIAL NOT NULL\n);");
    let my = generate_create_table_sql(EngineKind::MySql, &request).unwrap();
    assert_eq!(
        my,
        "CREATE TABLE \"t\" (\n  \"id\" INTEGER NOT NULL AUTO_INCREMENT\n);"
    );
    let lite = generate_create_table_sql(EngineKind::Sqlite, &request).unwrap();
    assert_eq!(
        lite,
        "CREATE TABLE \"t\" (\n  \"id\" INTEGER PRIMARY KEY AUTOINCREMENT\n);"
    );
}

#[test]
fn add_and_drop_column_text() {
    let col = plain_column("age", "INTEGER", true);
    let sql = generate_add_column_sql(EngineKind::Postgres, "users", &col).unwrap();
    assert_eq!(sql, "ALTER TABLE \"users\" ADD COLUMN \"age\" INTEGER;");
    let drop = generate_drop_column_sql(EngineKind::MySql, "users", "age").unwrap();
    assert_eq!(drop, "ALTER TABLE \"users\" DROP COLUMN \"age\";");
}

#[test]
fn modify_column_splits_into_three_statements_on_postgres() {
    let col = plain_column("full_name", "VARCHAR(200)", true);
    let sql =
        generate_modify_column_sql(EngineKind::Postgres, "users", "name", &col).unwrap();
    assert_eq!(
        sql,
        "ALTER TABLE \"users\" RENAME COLUMN \"name\" TO \"full_name\";\n\
         ALTER TABLE \"users\" ALTER COLUMN \"full_name\" TYPE VARCHAR(200);\n\
         ALTER TABLE \"users\" ALTER COLUMN \"full_name\" DROP NOT NULL;"
    );
}

#[test]
fn modify_column_is_one_change_on_mysql() {
    let col = plain_column("name", "VARCHAR(100)", false);
    let sql = generate_modify_column_sql(EngineKind::MySql, "users", "name", &col).unwrap();
    assert_eq!(
        sql,
        "ALTER TABLE \"users\" CHANGE COLUMN \"name\" \"name\" VARCHAR(100) NOT NULL;"
    );
}

#[test]
fn modify_column_refused_on_sqlite() {
    let col = plain_column("name", "TEXT", true);
    let err = generate_modify_column_sql(EngineKind::Sqlite, "users", "name", &col)
        .err()
        .unwrap();
    assert_eq!(
        err.message(),
        "SQLite does not support modifying columns. Recreate the table."
    );
}

#[test]
fn create_index_with_unique_and_columns() {
    let index = IndexInfo {
        name: "idx_users_email".to_string(),
        columns: vec!["email".to_string(), "tenant".to_string()],
        unique: true,
        index_type: None,
    };
    let sql = generate_create_index_sql(EngineKind::Postgres, "users", &index).unwrap();
    assert_eq!(
        sql,
        "CREATE UNIQUE INDEX \"idx_users_email\" ON \"users\" (\"email\", \"tenant\");"
    );
}

#[test]
fn drop_index_names_table_only_on_mysql() {
    assert_eq!(
        generate_drop_index_sql(EngineKind::MySql, "users", "idx").unwrap(),
        "DROP INDEX \"idx\" ON \"users\";"
    );
    assert_eq!(
        generate_drop_index_sql(EngineKind::Postgres, "users", "idx").unwrap(),
        "DROP INDEX \"idx\";"
    );
}

#[test]
fn foreign_key_gets_named_when_unnamed() {
    let fk = ForeignKeyDefinition {
        name: None,
        column: "user_id".to_string(),
        ref_table: "users".to_string(),
        ref_column: "id".to_string(),
        on_delete: default_cascade(),
        on_update: "CASCADE".to_string(),
    };
    let sql = generate_add_foreign_key_sql(EngineKind::Postgres, "orders", &fk).unwrap();
    assert_eq!(
        sql,
        "ALTER TABLE \"orders\" ADD CONSTRAINT \"fk_orders_user_id\" FOREIGN KEY (\"user_id\") \
         REFERENCES \"users\"(\"id\") ON DELETE NO ACTION ON UPDATE CASCADE;"
    );
}

#[test]
fn drop_constraint_dialect_forms() {
    assert_eq!(
        generate_drop_constraint_sql(EngineKind::MySql, "orders", "fk_x").unwrap(),
        "ALTER TABLE \"orders\" DROP FOREIGN KEY \"fk_x\";"
    );
    assert_eq!(
        generate_drop_constraint_sql(EngineKind::Sqlite, "orders", "fk_x").unwrap(),
        "ALTER TABLE \"orders\" DROP CONSTRAINT \"fk_x\";"
    );
}

#[test]
fn ddl_runs_on_relational_engines_only() {
    assert!(ddl_supported(EngineKind::Postgres));
    assert!(ddl_supported(EngineKind::MySql));
    assert!(ddl_supported(EngineKind::Sqlite));
    assert!(!ddl_supported(EngineKind::Redis));
    assert!(!ddl_supported(EngineKind::MongoDb));
    assert!(!ddl_supported(EngineKind::SqlServer));
}

#[test]
fn mysql_index_rows_group_by_name_in_first_seen_order() {
    let rows = vec![
        ("idx_a".to_string(), "x".to_string(), 0),
        ("idx_b".to_string(), "y".to_string(), 1),
        ("idx_a".to_string(), "z".to_string(), 0),
    ];
    let grouped = velocity::schema_ops::group_mysql_indexes(&rows);
    assert_eq!(grouped.len(), 2);
    assert_eq!(grouped[0].name, "idx_a");
    assert_eq!(grouped[0].columns, vec!["x", "z"]);
    assert!(grouped[0].unique);
    assert_eq!(grouped[1].name, "idx_b");
    assert_eq!(grouped[1].columns, vec!["y"]);
    assert!(!grouped[1].unique);
}

#[test]
fn index_rows_map_into_the_model() {
    let pg = index_from_pg_row("idx".to_string(), "a,b", true);
    assert_eq!(pg.columns, vec!["a", "b"]);
    assert!(pg.unique);
    let lite = index_from_sqlite_row("idx2".to_string());
    assert!(lite.columns.is_empty());
    assert!(!lite.unique);
}
