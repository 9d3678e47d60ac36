//! Schema DDL operations: dialect-correct statement text for table,
//! column, index and foreign-key changes, produced but never executed.

use vstd::prelude::*;
use crate::VelocityError;
use crate::engine::EngineKind;
use crate::filters::{qident, qidents, quote_ident, lemma_qidents_push};
use crate::text::{joined, join_strings, views, push_string, split_seq, split_char};

verus! {

/// Column definition for table creation and modification.
#[derive(Debug, Clone)]
pub struct ColumnDefinition {
    pub name: String,
    pub data_type: String,
    pub nullable: bool,
    pub default_value: Option<String>,
    pub is_primary_key: bool,
    pub is_auto_increment: bool,
}

/// Index information.
#[derive(Debug, Clone)]
pub struct IndexInfo {
    pub name: String,
    pub columns: Vec<String>,
    pub unique: bool,
    pub index_type: Option<String>,
}

/// Foreign key definition.
#[derive(Debug, Clone)]
pub struct ForeignKeyDefinition {
    pub name: Option<String>,
    pub column: String,
    pub ref_table: String,
    pub ref_column: String,
    pub on_delete: String,
    pub on_update: String,
}

/// The referential action used when none is given.
pub fn default_cascade() -> (r: String)
    ensures
        r@ == "NO ACTION"@,
{
    "NO ACTION".to_owned()
}

/// Request to create a new table.
#[derive(Debug, Clone)]
pub struct CreateTableRequest {
    pub name: String,
    pub columns: Vec<ColumnDefinition>,
    pub primary_key: Option<Vec<String>>,
}

// ---------------------------------------------------------------------------
// Specification of the generated statements
// ---------------------------------------------------------------------------

/// A column definition as it stands in DDL text: quoted name, type,
/// NOT NULL when required, and any default.
pub open spec fn base_column_def(col: ColumnDefinition) -> Seq<char> {
    qident(col.name@) + " "@ + col.data_type@ + (if col.nullable {
        Seq::<char>::empty()
    } else {
        " NOT NULL"@
    }) + (match col.default_value {
        Some(d) => " DEFAULT "@ + d@,
        None => Seq::<char>::empty(),
    })
}

/// A column definition in CREATE TABLE text, with the engine's
/// auto-increment form substituted where asked for.
pub open spec fn create_column_def(engine: EngineKind, col: ColumnDefinition) -> Seq<char> {
    if col.is_auto_increment {
        match engine {
            EngineKind::Postgres => qident(col.name@) + " SERIAL"@ + (if col.nullable {
                Seq::<char>::empty()
            } else {
                " NOT NULL"@
            }),
            EngineKind::MySql => base_column_def(col) + " AUTO_INCREMENT"@,
            EngineKind::Sqlite => qident(col.name@) + " INTEGER PRIMARY KEY AUTOINCREMENT"@,
            _ => base_column_def(col),
        }
    } else {
        base_column_def(col)
    }
}

/// The column definitions of a CREATE TABLE, in order.
pub open spec fn create_column_defs(engine: EngineKind, cols: Seq<ColumnDefinition>) -> Seq<
    Seq<char>,
> {
    cols.map_values(|c: ColumnDefinition| create_column_def(engine, c))
}

pub proof fn lemma_create_column_defs_push(
    engine: EngineKind,
    cols: Seq<ColumnDefinition>,
    x: ColumnDefinition,
)
    ensures
        create_column_defs(engine, cols.push(x)) == create_column_defs(engine, cols).push(
            create_column_def(engine, x),
        ),
{
    let l = create_column_defs(engine, cols.push(x));
    let r = create_column_defs(engine, cols).push(create_column_def(engine, x));
    assert forall|k: int| 0 <= k < l.len() implies l[k] == r[k] by {
        assert(l[k] == create_column_def(engine, cols.push(x)[k]));
        if k < cols.len() {
            assert(r[k] == create_column_defs(engine, cols)[k]);
            assert(create_column_defs(engine, cols)[k] == create_column_def(engine, cols[k]));
        } else {
            assert(r[k] == create_column_def(engine, x));
        }
    }
    assert(l =~= r);
}

/// The PRIMARY KEY constraint entry of a CREATE TABLE, when the request
/// names key columns.
pub open spec fn primary_key_part(req: CreateTableRequest) -> Seq<Seq<char>> {
    match req.primary_key {
        Some(pk) => if pk@.len() > 0 {
            seq!["PRIMARY KEY ("@ + joined(qidents(pk@), ", "@) + ")"@]
        } else {
            Seq::empty()
        },
        None => Seq::empty(),
    }
}

/// The CREATE TABLE statement of a request.
pub open spec fn create_table_sql(engine: EngineKind, req: CreateTableRequest) -> Seq<char> {
    "CREATE TABLE \""@ + req.name@ + "\" (\n  "@ + joined(
        create_column_defs(engine, req.columns@) + primary_key_part(req),
        ",\n  "@,
    ) + "\n);"@
}

/// The ADD COLUMN statement.
pub open spec fn add_column_sql(table: Seq<char>, col: ColumnDefinition) -> Seq<char> {
    "ALTER TABLE \""@ + table + "\" ADD COLUMN "@ + base_column_def(col) + ";"@
}

/// The DROP COLUMN statement.
pub open spec fn drop_column_sql(table: Seq<char>, col: Seq<char>) -> Seq<char> {
    "ALTER TABLE \""@ + table + "\" DROP COLUMN \""@ + col + "\";"@
}

/// The Postgres column-modification script: a rename when the name
/// changes, a type change, and a nullability change, one statement each.
pub open spec fn pg_modify_column_sql(
    table: Seq<char>,
    old_name: Seq<char>,
    col: ColumnDefinition,
) -> Seq<char> {
    (if old_name != col.name@ {
        "ALTER TABLE \""@ + table + "\" RENAME COLUMN \""@ + old_name + "\" TO \""@ + col.name@
            + "\";\n"@
    } else {
        Seq::<char>::empty()
    }) + "ALTER TABLE \""@ + table + "\" ALTER COLUMN \""@ + col.name@ + "\" TYPE "@
        + col.data_type@ + ";\n"@ + "ALTER TABLE \""@ + table + "\" ALTER COLUMN \""@ + col.name@
        + "\" "@ + (if col.nullable {
        "DROP NOT NULL"@
    } else {
        "SET NOT NULL"@
    }) + ";"@
}

/// The MySQL column-modification statement.
pub open spec fn mysql_modify_column_sql(
    table: Seq<char>,
    old_name: Seq<char>,
    col: ColumnDefinition,
) -> Seq<char> {
    "ALTER TABLE \""@ + table + "\" CHANGE COLUMN \""@ + old_name + "\" "@ + base_column_def(col)
        + ";"@
}

/// The CREATE INDEX statement.
pub open spec fn create_index_sql(table: Seq<char>, index: IndexInfo) -> Seq<char> {
    "CREATE "@ + (if index.unique {
        "UNIQUE "@
    } else {
        Seq::<char>::empty()
    }) + "INDEX \""@ + index.name@ + "\" ON \""@ + table + "\" ("@ + joined(
        views(index.columns@).map_values(|c: Seq<char>| qident(c)),
        ", "@,
    ) + ");"@
}

/// The DROP INDEX statement: MySQL names the table, the others do not.
pub open spec fn drop_index_sql(engine: EngineKind, table: Seq<char>, index: Seq<char>) -> Seq<
    char,
> {
    if engine == EngineKind::MySql {
        "DROP INDEX \""@ + index + "\" ON \""@ + table + "\";"@
    } else {
        "DROP INDEX \""@ + index + "\";"@
    }
}

/// The name a foreign-key constraint gets: the given one, or
/// `fk_<table>_<column>`.
pub open spec fn fk_constraint_name(table: Seq<char>, fk: ForeignKeyDefinition) -> Seq<char> {
    match fk.name {
        Some(n) => n@,
        None => "fk_"@ + table + "_"@ + fk.column@,
    }
}

/// The ADD CONSTRAINT ... FOREIGN KEY statement.
pub open spec fn add_foreign_key_sql(table: Seq<char>, fk: ForeignKeyDefinition) -> Seq<char> {
    "ALTER TABLE \""@ + table + "\" ADD CONSTRAINT \""@ + fk_constraint_name(table, fk)
        + "\" FOREIGN KEY (\""@ + fk.column@ + "\") REFERENCES \""@ + fk.ref_table@ + "\"(\""@
        + fk.ref_column@ + "\") ON DELETE "@ + fk.on_delete@ + " ON UPDATE "@ + fk.on_update@
        + ";"@
}

/// The DROP CONSTRAINT statement: MySQL says DROP FOREIGN KEY.
pub open spec fn drop_constraint_sql(
    engine: EngineKind,
    table: Seq<char>,
    constraint: Seq<char>,
) -> Seq<char> {
    if engine == EngineKind::MySql {
        "ALTER TABLE \""@ + table + "\" DROP FOREIGN KEY \""@ + constraint + "\";"@
    } else {
        "ALTER TABLE \""@ + table + "\" DROP CONSTRAINT \""@ + constraint + "\";"@
    }
}

// ---------------------------------------------------------------------------
// Exec statement builders
// ---------------------------------------------------------------------------

/// Build a base column definition: quoted name, type, nullability,
/// default.
fn build_base_column_def(col: &ColumnDefinition) -> (r: String)
    ensures
        r@ == base_column_def(*col),
{
    proof {
        reveal_strlit(" ");
        reveal_strlit(" NOT NULL");
        reveal_strlit(" DEFAULT ");
    }
    let mut def = quote_ident(col.name.as_str());
    def.append(" ");
    def.append(col.data_type.as_str());
    if !col.nullable {
        def.append(" NOT NULL");
    }
    match &col.default_value {
        Some(d) => {
            def.append(" DEFAULT ");
            def.append(d.as_str());
        },
        None => {},
    }
    proof {
        assert(def@ =~= base_column_def(*col));
    }
    def
}

/// Build one CREATE TABLE column definition, auto-increment aware.
fn build_create_column_def(engine: EngineKind, col: &ColumnDefinition) -> (r: String)
    ensures
        r@ == create_column_def(engine, *col),
{
    let base = build_base_column_def(col);
    if col.is_auto_increment {
        match engine {
            EngineKind::Postgres => {
                proof {
                    reveal_strlit(" SERIAL");
                    reveal_strlit(" NOT NULL");
                }
                let mut def = quote_ident(col.name.as_str());
                def.append(" SERIAL");
                if !col.nullable {
                    def.append(" NOT NULL");
                }
                proof {
                    assert(def@ =~= create_column_def(engine, *col));
                }
                def
            },
            EngineKind::MySql => {
                proof {
                    reveal_strlit(" AUTO_INCREMENT");
                }
                let mut def = base;
                def.append(" AUTO_INCREMENT");
                proof {
                    assert(def@ =~= create_column_def(engine, *col));
                }
                def
            },
            EngineKind::Sqlite => {
                proof {
                    reveal_strlit(" INTEGER PRIMARY KEY AUTOINCREMENT");
                }
                let mut def = quote_ident(col.name.as_str());
                def.append(" INTEGER PRIMARY KEY AUTOINCREMENT");
                proof {
                    assert(def@ =~= create_column_def(engine, *col));
                }
                def
            },
            _ => base,
        }
    } else {
        base
    }
}

/// Generate the CREATE TABLE statement for a request.
#[verifier::loop_isolation(false)]
pub fn generate_create_table_sql(engine: EngineKind, request: &CreateTableRequest) -> (r: Result<
    String,
    VelocityError,
>)
    ensures
        r matches Ok(sql) && sql@ == create_table_sql(engine, *request),
{
    let mut defs: Vec<String> = Vec::new();
    proof {
        assert(views(defs@) =~= create_column_defs(engine, request.columns@.take(0)));
    }
    for i in 0..request.columns.len()
        invariant
            views(defs@) == create_column_defs(engine, request.columns@.take(i as int)),
    {
        push_string(&mut defs, build_create_column_def(engine, &request.columns[i]));
        proof {
            assert(request.columns@.take(i + 1) =~= request.columns@.take(i as int).push(
                request.columns@[i as int],
            ));
            lemma_create_column_defs_push(
                engine,
                request.columns@.take(i as int),
                request.columns@[i as int],
            );
            assert(views(defs@) == create_column_defs(engine, request.columns@.take(i + 1)));
        }
    }
    proof {
        assert(request.columns@.take(request.columns@.len() as int) =~= request.columns@);
    }
    let ghost cols_only = views(defs@);
    match &request.primary_key {
        Some(pk_cols) => {
            if pk_cols.len() > 0 {
                let mut quoted: Vec<String> = Vec::new();
                proof {
                    assert(views(quoted@) =~= qidents(pk_cols@.take(0)));
                }
                for i in 0..pk_cols.len()
                    invariant
                        views(quoted@) == qidents(pk_cols@.take(i as int)),
                {
                    push_string(&mut quoted, quote_ident(pk_cols[i].as_str()));
                    proof {
                        assert(pk_cols@.take(i + 1) =~= pk_cols@.take(i as int).push(
                            pk_cols@[i as int],
                        ));
                        lemma_qidents_push(pk_cols@.take(i as int), pk_cols@[i as int]);
                        assert(views(quoted@) == qidents(pk_cols@.take(i + 1)));
                    }
                }
                proof {
                    assert(pk_cols@.take(pk_cols@.len() as int) =~= pk_cols@);
                    reveal_strlit("PRIMARY KEY (");
                    reveal_strlit(")");
                }
                let mut pk_def = "PRIMARY KEY (".to_owned();
                let pk_body = join_strings(&quoted, ", ");
                pk_def.append(pk_body.as_str());
                pk_def.append(")");
                proof {
                    assert(pk_def@ =~= "PRIMARY KEY ("@ + joined(qidents(pk_cols@), ", "@)
                        + ")"@);
                }
                push_string(&mut defs, pk_def);
                proof {
                    assert(views(defs@) =~= cols_only + primary_key_part(*request));
                }
            } else {
                proof {
                    assert(views(defs@) =~= cols_only + primary_key_part(*request));
                }
            }
        },
        None => {
            proof {
                assert(views(defs@) =~= cols_only + primary_key_part(*request));
            }
        },
    }
    proof {
        reveal_strlit("CREATE TABLE \"");
        reveal_strlit("\" (\n  ");
        reveal_strlit("\n);");
    }
    let mut sql = "CREATE TABLE \"".to_owned();
    sql.append(request.name.as_str());
    sql.append("\" (\n  ");
    let body = join_strings(&defs, ",\n  ");
    sql.append(body.as_str());
    sql.append("\n);");
    proof {
        assert(sql@ =~= create_table_sql(engine, *request));
    }
    Ok(sql)
}

/// Generate the ADD COLUMN statement; the text is the same in every
/// dialect.
pub fn generate_add_column_sql(
    engine: EngineKind,
    table_name: &str,
    column: &ColumnDefinition,
) -> (r: Result<String, VelocityError>)
    ensures
        r matches Ok(sql) && sql@ == add_column_sql(table_name@, *column),
{
    proof {
        reveal_strlit("ALTER TABLE \"");
        reveal_strlit("\" ADD COLUMN ");
        reveal_strlit(";");
    }
    let mut sql = "ALTER TABLE \"".to_owned();
    sql.append(table_name);
    sql.append("\" ADD COLUMN ");
    let def = build_base_column_def(column);
    sql.append(def.as_str());
    sql.append(";");
    proof {
        assert(sql@ =~= add_column_sql(table_name@, *column));
    }
    Ok(sql)
}

/// Generate the DROP COLUMN statement.
pub fn generate_drop_column_sql(engine: EngineKind, table_name: &str, column_name: &str) -> (r:
    Result<String, VelocityError>)
    ensures
        r matches Ok(sql) && sql@ == drop_column_sql(table_name@, column_name@),
{
    proof {
        reveal_strlit("ALTER TABLE \"");
        reveal_strlit("\" DROP COLUMN \"");
        reveal_strlit("\";");
    }
    let mut sql = "ALTER TABLE \"".to_owned();
    sql.append(table_name);
    sql.append("\" DROP COLUMN \"");
    sql.append(column_name);
    sql.append("\";");
    proof {
        assert(sql@ =~= drop_column_sql(table_name@, column_name@));
    }
    Ok(sql)
}

/// Generate the column-modification DDL: three statements for Postgres,
/// one CHANGE COLUMN for MySQL, and an error for SQLite and the engines
/// that cannot alter columns.
pub fn generate_modify_column_sql(
    engine: EngineKind,
    table_name: &str,
    old_name: &str,
    new_column: &ColumnDefinition,
) -> (r: Result<String, VelocityError>)
    ensures
        engine == EngineKind::Postgres ==> (r matches Ok(sql) && sql@ == pg_modify_column_sql(
            table_name@,
            old_name@,
            *new_column,
        )),
        engine == EngineKind::MySql ==> (r matches Ok(sql) && sql@ == mysql_modify_column_sql(
            table_name@,
            old_name@,
            *new_column,
        )),
        engine == EngineKind::Sqlite ==> (r matches Err(e) && e is Query && e.spec_message()
            == "SQLite does not support modifying columns. Recreate the table."@),
        !(engine == EngineKind::Postgres || engine == EngineKind::MySql || engine
            == EngineKind::Sqlite) ==> (r matches Err(e) && e is Query && e.spec_message()
            == "Unsupported database type"@),
{
    match engine {
        EngineKind::Postgres => {
            proof {
                reveal_strlit("ALTER TABLE \"");
                reveal_strlit("\" RENAME COLUMN \"");
                reveal_strlit("\" TO \"");
                reveal_strlit("\";\n");
                reveal_strlit("\" ALTER COLUMN \"");
                reveal_strlit("\" TYPE ");
                reveal_strlit(";\n");
                reveal_strlit("\" ");
                reveal_strlit("DROP NOT NULL");
                reveal_strlit("SET NOT NULL");
                reveal_strlit(";");
            }
            let mut sql = String::new();
            if !crate::text::str_eq(old_name, new_column.name.as_str()) {
                sql.append("ALTER TABLE \"");
                sql.append(table_name);
                sql.append("\" RENAME COLUMN \"");
                sql.append(old_name);
                sql.append("\" TO \"");
                sql.append(new_column.name.as_str());
                sql.append("\";\n");
            }
            sql.append("ALTER TABLE \"");
            sql.append(table_name);
            sql.append("\" ALTER COLUMN \"");
            sql.append(new_column.name.as_str());
            sql.append("\" TYPE ");
            sql.append(new_column.data_type.as_str());
            sql.append(";\n");
            sql.append("ALTER TABLE \"");
            sql.append(table_name);
            sql.append("\" ALTER COLUMN \"");
            sql.append(new_column.name.as_str());
            sql.append("\" ");
            if new_column.nullable {
                sql.append("DROP NOT NULL");
            } else {
                sql.append("SET NOT NULL");
            }
            sql.append(";");
            proof {
                assert(sql@ =~= pg_modify_column_sql(table_name@, old_name@, *new_column));
            }
            Ok(sql)
        },
        EngineKind::MySql => {
            proof {
                reveal_strlit("ALTER TABLE \"");
                reveal_strlit("\" CHANGE COLUMN \"");
                reveal_strlit("\" ");
                reveal_strlit(";");
            }
            let mut sql = "ALTER TABLE \"".to_owned();
            sql.append(table_name);
            sql.append("\" CHANGE COLUMN \"");
            sql.append(old_name);
            sql.append("\" ");
            let def = build_base_column_def(new_column);
            sql.append(def.as_str());
            sql.append(";");
            proof {
                assert(sql@ =~= mysql_modify_column_sql(table_name@, old_name@, *new_column));
            }
            Ok(sql)
        },
        EngineKind::Sqlite => Err(
            VelocityError::Query(
                "SQLite does not support modifying columns. Recreate the table.".to_owned(),
            ),
        ),
        _ => Err(VelocityError::Query("Unsupported database type".to_owned())),
    }
}

/// Generate the CREATE INDEX statement.
#[verifier::loop_isolation(false)]
pub fn generate_create_index_sql(engine: EngineKind, table_name: &str, index: &IndexInfo) -> (r:
    Result<String, VelocityError>)
    ensures
        r matches Ok(sql) && sql@ == create_index_sql(table_name@, *index),
{
    proof {
        reveal_strlit("CREATE ");
        reveal_strlit("UNIQUE ");
        reveal_strlit("INDEX \"");
        reveal_strlit("\" ON \"");
        reveal_strlit("\" (");
        reveal_strlit(");");
    }
    let mut quoted: Vec<String> = Vec::new();
    proof {
        assert(views(quoted@) =~= qidents(index.columns@.take(0)));
    }
    for i in 0..index.columns.len()
        invariant
            views(quoted@) == qidents(index.columns@.take(i as int)),
    {
        push_string(&mut quoted, quote_ident(index.columns[i].as_str()));
        proof {
            assert(index.columns@.take(i + 1) =~= index.columns@.take(i as int).push(
                index.columns@[i as int],
            ));
            lemma_qidents_push(index.columns@.take(i as int), index.columns@[i as int]);
            assert(views(quoted@) == qidents(index.columns@.take(i + 1)));
        }
    }
    proof {
        assert(index.columns@.take(index.columns@.len() as int) =~= index.columns@);
        assert(qidents(index.columns@) =~= views(index.columns@).map_values(
            |c: Seq<char>| qident(c),
        ));
    }
    let mut sql = "CREATE ".to_owned();
    if index.unique {
        sql.append("UNIQUE ");
    }
    sql.append("INDEX \"");
    sql.append(index.name.as_str());
    sql.append("\" ON \"");
    sql.append(table_name);
    sql.append("\" (");
    let body = join_strings(&quoted, ", ");
    sql.append(body.as_str());
    sql.append(");");
    proof {
        assert(sql@ =~= create_index_sql(table_name@, *index));
    }
    Ok(sql)
}

/// Generate the DROP INDEX statement.
pub fn generate_drop_index_sql(engine: EngineKind, table_name: &str, index_name: &str) -> (r:
    Result<String, VelocityError>)
    ensures
        r matches Ok(sql) && sql@ == drop_index_sql(engine, table_name@, index_name@),
{
    proof {
        reveal_strlit("DROP INDEX \"");
        reveal_strlit("\" ON \"");
        reveal_strlit("\";");
    }
    match engine {
        EngineKind::MySql => {
            let mut sql = "DROP INDEX \"".to_owned();
            sql.append(index_name);
            sql.append("\" ON \"");
            sql.append(table_name);
            sql.append("\";");
            proof {
                assert(sql@ =~= drop_index_sql(engine, table_name@, index_name@));
            }
            Ok(sql)
        },
        _ => {
            let mut sql = "DROP INDEX \"".to_owned();
            sql.append(index_name);
            sql.append("\";");
            proof {
                assert(sql@ =~= drop_index_sql(engine, table_name@, index_name@));
            }
            Ok(sql)
        },
    }
}

/// Generate the ADD FOREIGN KEY statement.
pub fn generate_add_foreign_key_sql(
    engine: EngineKind,
    table_name: &str,
    fk: &ForeignKeyDefinition,
) -> (r: Result<String, VelocityError>)
    ensures
        r matches Ok(sql) && sql@ == add_foreign_key_sql(table_name@, *fk),
{
    proof {
        reveal_strlit("fk_");
        reveal_strlit("_");
        reveal_strlit("ALTER TABLE \"");
        reveal_strlit("\" ADD CONSTRAINT \"");
        reveal_strlit("\" FOREIGN KEY (\"");
        reveal_strlit("\") REFERENCES \"");
        reveal_strlit("\"(\"");
        reveal_strlit("\") ON DELETE ");
        reveal_strlit(" ON UPDATE ");
        reveal_strlit(";");
    }
    let constraint_name: String = match &fk.name {
        Some(n) => n.clone(),
        None => {
            let mut c = "fk_".to_owned();
            c.append(table_name);
            c.append("_");
            c.append(fk.column.as_str());
            c
        },
    };
    proof {
        assert(constraint_name@ =~= fk_constraint_name(table_name@, *fk));
    }
    let mut sql = "ALTER TABLE \"".to_owned();
    sql.append(table_name);
    sql.append("\" ADD CONSTRAINT \"");
    sql.append(constraint_name.as_str());
    sql.append("\" FOREIGN KEY (\"");
    sql.append(fk.column.as_str());
    sql.append("\") REFERENCES \"");
    sql.append(fk.ref_table.as_str());
    sql.append("\"(\"");
    sql.append(fk.ref_column.as_str());
    sql.append("\") ON DELETE ");
    sql.append(fk.on_delete.as_str());
    sql.append(" ON UPDATE ");
    sql.append(fk.on_update.as_str());
    sql.append(";");
    proof {
        assert(sql@ =~= add_foreign_key_sql(table_name@, *fk));
    }
    Ok(sql)
}

/// Generate the DROP CONSTRAINT statement.
pub fn generate_drop_constraint_sql(
    engine: EngineKind,
    table_name: &str,
    constraint_name: &str,
) -> (r: Result<String, VelocityError>)
    ensures
        r matches Ok(sql) && sql@ == drop_constraint_sql(engine, table_name@, constraint_name@),
{
    proof {
        reveal_strlit("ALTER TABLE \"");
        reveal_strlit("\" DROP FOREIGN KEY \"");
        reveal_strlit("\" DROP CONSTRAINT \"");
        reveal_strlit("\";");
    }
    match engine {
        EngineKind::MySql => {
            let mut sql = "ALTER TABLE \"".to_owned();
            sql.append(table_name);
            sql.append("\" DROP FOREIGN KEY \"");
            sql.append(constraint_name);
            sql.append("\";");
            proof {
                assert(sql@ =~= drop_constraint_sql(engine, table_name@, constraint_name@));
            }
            Ok(sql)
        },
        _ => {
            let mut sql = "ALTER TABLE \"".to_owned();
            sql.append(table_name);
            sql.append("\" DROP CONSTRAINT \"");
            sql.append(constraint_name);
            sql.append("\";");
            proof {
                assert(sql@ =~= drop_constraint_sql(engine, table_name@, constraint_name@));
            }
            Ok(sql)
        },
    }
}

/// Whether DDL can be executed on an engine: the relational SQL engines
/// with a live pool take it, the rest refuse.
pub fn ddl_supported(engine: EngineKind) -> (r: bool)
    ensures
        r == (engine == EngineKind::Postgres || engine == EngineKind::MySql || engine
            == EngineKind::Sqlite),
{
    match engine {
        EngineKind::Postgres => true,
        EngineKind::MySql => true,
        EngineKind::Sqlite => true,
        _ => false,
    }
}

/// An index row as the Postgres catalog reports it, turned into
/// `IndexInfo`: the column list arrives as one comma-separated string.
pub fn index_from_pg_row(name: String, columns_csv: &str, unique: bool) -> (r: IndexInfo)
    ensures
        r.name == name,
        views(r.columns@) == split_seq(columns_csv@, ','),
        r.unique == unique,
        r.index_type is None,
{
    IndexInfo { name, columns: split_char(columns_csv, ','), unique, index_type: None }
}

/// An index row as the SQLite catalog reports it: the name alone, with
/// no column list (reading columns would take one more PRAGMA).
pub fn index_from_sqlite_row(name: String) -> (r: IndexInfo)
    ensures
        r.name == name,
        r.columns@.len() == 0,
        r.unique == false,
        r.index_type is None,
{
    IndexInfo { name, columns: Vec::new(), unique: false, index_type: None }
}

/// Whether an engine has an index catalog to list; the others degrade
/// to an empty list rather than an error.
pub fn indexes_supported(engine: EngineKind) -> (r: bool)
    ensures
        r == (engine == EngineKind::Postgres || engine == EngineKind::MySql || engine
            == EngineKind::Sqlite),
{
    match engine {
        EngineKind::Postgres => true,
        EngineKind::MySql => true,
        EngineKind::Sqlite => true,
        _ => false,
    }
}

/// The Postgres index catalog query, bound to a table name; the column
/// list of each index arrives as one comma-separated string.
pub fn pg_indexes_sql() -> (r: &'static str)
    ensures
        r@
            == "SELECT indexname, array_to_string(array_agg(a.attname), ',') as columns, indisunique FROM pg_indexes JOIN pg_class c ON c.relname = indexname JOIN pg_index i ON i.indexrelid = c.oid JOIN pg_attribute a ON a.attrelid = i.indrelid AND a.attnum = ANY(i.indkey) WHERE tablename = $1 AND schemaname = 'public' GROUP BY indexname, indisunique"@,
{
    "SELECT indexname, array_to_string(array_agg(a.attname), ',') as columns, indisunique FROM pg_indexes JOIN pg_class c ON c.relname = indexname JOIN pg_index i ON i.indexrelid = c.oid JOIN pg_attribute a ON a.attrelid = i.indrelid AND a.attnum = ANY(i.indkey) WHERE tablename = $1 AND schemaname = 'public' GROUP BY indexname, indisunique"
}

/// The MySQL index catalog query, bound to a table name: one row per
/// index column, in column order.
pub fn mysql_indexes_sql() -> (r: &'static str)
    ensures
        r@
            == "SELECT INDEX_NAME, COLUMN_NAME, NON_UNIQUE FROM information_schema.STATISTICS WHERE TABLE_NAME = ? ORDER BY SEQ_IN_INDEX"@,
{
    "SELECT INDEX_NAME, COLUMN_NAME, NON_UNIQUE FROM information_schema.STATISTICS WHERE TABLE_NAME = ? ORDER BY SEQ_IN_INDEX"
}

/// The SQLite index catalog query, bound to a table name.
pub fn sqlite_indexes_sql() -> (r: &'static str)
    ensures
        r@ == "SELECT name FROM sqlite_master WHERE type = 'index' AND tbl_name = ?"@,
{
    "SELECT name FROM sqlite_master WHERE type = 'index' AND tbl_name = ?"
}

// ---------------------------------------------------------------------------
// Grouping the MySQL index catalog
// ---------------------------------------------------------------------------

/// The ghost content of grouped indexes: name, column texts, uniqueness.
pub open spec fn index_models(v: Seq<IndexInfo>) -> Seq<(Seq<char>, Seq<Seq<char>>, bool)> {
    v.map_values(|x: IndexInfo| (x.name@, views(x.columns@), x.unique))
}

/// The names of grouped entries, in order.
pub open spec fn grouped_names(acc: Seq<(Seq<char>, Seq<Seq<char>>, bool)>) -> Seq<Seq<char>> {
    acc.map_values(|e: (Seq<char>, Seq<Seq<char>>, bool)| e.0)
}

/// The index names of a grouped list.
pub open spec fn index_names_of(v: Seq<IndexInfo>) -> Seq<Seq<char>> {
    v.map_values(|x: IndexInfo| x.name@)
}

proof fn lemma_grouped_names_of_models(v: Seq<IndexInfo>)
    ensures
        grouped_names(index_models(v)) == index_names_of(v),
{
    let l = grouped_names(index_models(v));
    let r = index_names_of(v);
    assert forall|k: int| 0 <= k < l.len() implies l[k] == r[k] by {
        assert(l[k] == index_models(v)[k].0);
        assert(index_models(v)[k] == (v[k].name@, views(v[k].columns@), v[k].unique));
        assert(r[k] == v[k].name@);
    }
    assert(l =~= r);
}

/// What the MySQL catalog rows (index name, column, non-unique flag)
/// group to: one entry per index name in first-appearance order, its
/// columns in row order, its uniqueness taken from its first row.
pub open spec fn mysql_grouped(rows: Seq<(String, String, i32)>) -> Seq<
    (Seq<char>, Seq<Seq<char>>, bool),
>
    decreases rows.len(),
{
    if rows.len() == 0 {
        Seq::empty()
    } else {
        let acc = mysql_grouped(rows.drop_last());
        let row = rows.last();
        let i = crate::table_data::name_index(grouped_names(acc), row.0@);
        if i < 0 {
            acc.push((row.0@, seq![row.1@], row.2 == 0))
        } else {
            acc.update(i, (acc[i].0, acc[i].1.push(row.1@), acc[i].2))
        }
    }
}

/// The position of an index name among grouped entries.
#[verifier::loop_isolation(false)]
fn find_index_position(v: &Vec<IndexInfo>, target: &str) -> (r: Option<usize>)
    ensures
        (match r {
            Some(i) => crate::table_data::name_index(index_names_of(v@), target@) == i as int && i
                < v@.len(),
            None => crate::table_data::name_index(index_names_of(v@), target@) == -1,
        }),
{
    for i in 0..v.len()
        invariant
            forall|j: int| 0 <= j < i ==> index_names_of(v@)[j] != target@,
    {
        proof {
            assert(index_names_of(v@)[i as int] == v@[i as int].name@);
        }
        if crate::text::str_eq(v[i].name.as_str(), target) {
            proof {
                crate::table_data::lemma_name_index_found(index_names_of(v@), target@, i as int);
            }
            return Some(i);
        }
    }
    proof {
        crate::table_data::lemma_name_index_absent(index_names_of(v@), target@);
    }
    None
}

/// Group the MySQL index catalog rows into one `IndexInfo` per index,
/// in first-appearance order.
#[verifier::loop_isolation(false)]
#[verifier::rlimit(60)]
pub fn group_mysql_indexes(rows: &Vec<(String, String, i32)>) -> (r: Vec<IndexInfo>)
    ensures
        index_models(r@) == mysql_grouped(rows@),
{
    let mut out: Vec<IndexInfo> = Vec::new();
    proof {
        assert(index_models(out@) =~~= mysql_grouped(rows@.take(0)));
    }
    for j in 0..rows.len()
        invariant
            index_models(out@) == mysql_grouped(rows@.take(j as int)),
    {
        let ghost acc = index_models(out@);
        proof {
            assert(rows@.take(j + 1).drop_last() =~= rows@.take(j as int));
            assert(rows@.take(j + 1).last() == rows@[j as int]);
            lemma_grouped_names_of_models(out@);
        }
        match find_index_position(&out, rows[j].0.as_str()) {
            None => {
                let mut columns: Vec<String> = Vec::new();
                push_string(&mut columns, rows[j].1.clone());
                let entry = IndexInfo {
                    name: rows[j].0.clone(),
                    columns,
                    unique: rows[j].2 == 0,
                    index_type: None,
                };
                let ghost pre = out@;
                out.push(entry);
                proof {
                    let l = index_models(out@);
                    let step = mysql_grouped(rows@.take(j + 1));
                    assert forall|k: int| 0 <= k < l.len() implies l[k] == step[k] by {
                        assert(l[k] == (out@[k].name@, views(out@[k].columns@), out@[k].unique));
                        if k < pre.len() {
                            assert(out@[k] == pre[k]);
                            assert(acc[k] == (pre[k].name@, views(pre[k].columns@), pre[
                                k].unique));
                        } else {
                            assert(views(out@[k].columns@) =~~= seq![rows@[j as int].1@]);
                        }
                    }
                    assert(l =~~= step);
                }
            },
            Some(idx) => {
                let ghost pre = out@;
                proof {
                    pre.remove_ensures(idx as int);
                }
                let mut entry = out.remove(idx);
                let ghost entry_cols = entry.columns@;
                proof {
                    crate::text::lemma_views_push(entry_cols, rows@[j as int].1);
                }
                entry.columns.push(rows[j].1.clone());
                let ghost rem = out@;
                proof {
                    rem.insert_ensures(idx as int, entry);
                }
                out.insert(idx, entry);
                proof {
                    crate::table_data::lemma_name_index_props(index_names_of(pre), rows@[
                        j as int].0@);
                    let l = index_models(out@);
                    let step = mysql_grouped(rows@.take(j + 1));
                    assert(step =~~= acc.update(
                        idx as int,
                        (
                            acc[idx as int].0,
                            acc[idx as int].1.push(rows@[j as int].1@),
                            acc[idx as int].2,
                        ),
                    ));
                    assert forall|k: int| 0 <= k < l.len() implies l[k] == step[k] by {
                        assert(l[k] == (out@[k].name@, views(out@[k].columns@), out@[k].unique));
                        if k == idx as int {
                            assert(out@[k] == entry);
                            assert(views(entry.columns@) == views(entry_cols).push(rows@[
                                j as int].1@));
                            assert(acc[k] == (pre[k].name@, views(pre[k].columns@), pre[
                                k].unique));
                        } else {
                            assert(out@[k] == pre[k]);
                            assert(acc[k] == (pre[k].name@, views(pre[k].columns@), pre[
                                k].unique));
                        }
                    }
                    assert(l =~~= step);
                }
            },
        }
    }
    proof {
        assert(rows@.take(rows@.len() as int) =~= rows@);
    }
    out
}

} // verus!
