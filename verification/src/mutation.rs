//! Row mutation planning: one SQL statement per pending change, built
//! with dialect quoting and type-preserving value formatting, and the
//! all-or-nothing fold over the per-statement outcomes.

use vstd::prelude::*;
use crate::VelocityError;
use crate::engine::EngineKind;
use crate::text::{views, push_string, str_eq};
use crate::values::{JsonVal, sql_literal, pk_literal, format_value_for_sql, format_pk_for_sql};

verus! {

/// One proposed row-level edit, not yet applied: the primary-key value
/// always travels as text and is re-typed at apply time.
#[derive(Debug, Clone)]
pub struct PendingChange {
    pub row_id: String,
    pub column: String,
    pub old_value: JsonVal,
    pub new_value: JsonVal,
    /// `update`, `insert` or `delete`.
    pub change_type: String,
}

/// The report of a mutation batch: success exactly when no change
/// failed, the rows touched, and one message per failed change.
#[derive(Debug, Clone)]
pub struct ExecuteResult {
    pub success: bool,
    pub rows_affected: i64,
    pub errors: Vec<String>,
}

/// One planned statement of a batch: the change kind it came from, and
/// the SQL text to run.
#[derive(Debug, Clone)]
pub struct MutationStatement {
    pub change_type: String,
    pub sql: String,
}

// ---------------------------------------------------------------------------
// Specification of the planned statements
// ---------------------------------------------------------------------------

/// The identifier quote of the mutation dialect: backticks for MySQL,
/// double quotes elsewhere.
pub open spec fn mutation_quote(engine: EngineKind) -> Seq<char> {
    if engine == EngineKind::MySql {
        "`"@
    } else {
        "\""@
    }
}

/// An identifier wrapped in the mutation dialect's quotes.
pub open spec fn mident(engine: EngineKind, name: Seq<char>) -> Seq<char> {
    mutation_quote(engine) + name + mutation_quote(engine)
}

/// The UPDATE statement of a change.
pub open spec fn update_statement(
    engine: EngineKind,
    table: Seq<char>,
    pk_col: Seq<char>,
    c: PendingChange,
) -> Seq<char> {
    "UPDATE "@ + mident(engine, table) + " SET "@ + mident(engine, c.column@) + " = "@
        + sql_literal(c.new_value) + " WHERE "@ + mident(engine, pk_col) + " = "@ + pk_literal(
        c.row_id@,
    )
}

/// The DELETE statement of a change.
pub open spec fn delete_statement(
    engine: EngineKind,
    table: Seq<char>,
    pk_col: Seq<char>,
    c: PendingChange,
) -> Seq<char> {
    "DELETE FROM "@ + mident(engine, table) + " WHERE "@ + mident(engine, pk_col) + " = "@
        + pk_literal(c.row_id@)
}

/// The INSERT statement of a change.
pub open spec fn insert_statement(engine: EngineKind, table: Seq<char>, c: PendingChange) -> Seq<
    char,
> {
    "INSERT INTO "@ + mident(engine, table) + " ("@ + mident(engine, c.column@) + ") VALUES ("@
        + sql_literal(c.new_value) + ")"@
}

/// What one change plans to: an UPDATE, DELETE or INSERT statement in
/// the engine's dialect; any other change kind is skipped.
pub open spec fn change_statement(
    engine: EngineKind,
    table: Seq<char>,
    pk_col: Seq<char>,
    c: PendingChange,
) -> Option<Seq<char>> {
    if c.change_type@ == "update"@ {
        Some(update_statement(engine, table, pk_col, c))
    } else if c.change_type@ == "delete"@ {
        Some(delete_statement(engine, table, pk_col, c))
    } else if c.change_type@ == "insert"@ {
        Some(insert_statement(engine, table, c))
    } else {
        None
    }
}

/// The planned statements of a batch, in order, as (kind, SQL) pairs.
pub open spec fn planned_statements(
    engine: EngineKind,
    table: Seq<char>,
    pk_col: Seq<char>,
    changes: Seq<PendingChange>,
) -> Seq<(Seq<char>, Seq<char>)>
    decreases changes.len(),
{
    if changes.len() == 0 {
        Seq::empty()
    } else {
        let rest = planned_statements(engine, table, pk_col, changes.drop_last());
        match change_statement(engine, table, pk_col, changes.last()) {
            Some(sql) => rest.push((changes.last().change_type@, sql)),
            None => rest,
        }
    }
}

/// The (kind, SQL) views of a planned statement list.
pub open spec fn statement_views(v: Seq<MutationStatement>) -> Seq<(Seq<char>, Seq<char>)> {
    v.map_values(|m: MutationStatement| (m.change_type@, m.sql@))
}

proof fn lemma_statement_views_push(pre: Seq<MutationStatement>, m: MutationStatement)
    ensures
        statement_views(pre.push(m)) == statement_views(pre).push((m.change_type@, m.sql@)),
{
    let l = statement_views(pre.push(m));
    let r = statement_views(pre).push((m.change_type@, m.sql@));
    assert forall|k: int| 0 <= k < l.len() implies l[k] == r[k] by {
        assert(l[k] == (pre.push(m)[k].change_type@, pre.push(m)[k].sql@));
        if k < pre.len() {
            assert(r[k] == statement_views(pre)[k]);
            assert(statement_views(pre)[k] == (pre[k].change_type@, pre[k].sql@));
        }
    }
    assert(l =~= r);
}

/// Whether an engine can run a mutation batch: only the relational
/// engines with transactions.
pub fn mutation_supported(engine: EngineKind) -> (r: bool)
    ensures
        r == (engine == EngineKind::Postgres || engine == EngineKind::MySql || engine
            == EngineKind::Sqlite),
{
    match engine {
        EngineKind::Postgres => true,
        EngineKind::MySql => true,
        EngineKind::Sqlite => true,
        _ => false,
    }
}

fn mutation_quote_str(engine: EngineKind) -> (r: &'static str)
    ensures
        r@ == mutation_quote(engine),
{
    proof {
        reveal_strlit("`");
        reveal_strlit("\"");
    }
    match engine {
        EngineKind::MySql => "`",
        _ => "\"",
    }
}

fn mident_string(engine: EngineKind, name: &str) -> (r: String)
    ensures
        r@ == mident(engine, name@),
{
    let q = mutation_quote_str(engine);
    let mut r = q.to_owned();
    r.append(name);
    r.append(q);
    proof {
        assert(r@ =~= mident(engine, name@));
    }
    r
}

/// Plan the statements of a mutation batch against one table, keyed by
/// one primary-key column. Non-transactional engines refuse the whole
/// batch up front.
#[verifier::loop_isolation(false)]
pub fn plan_changes(
    engine: EngineKind,
    table_name: &str,
    primary_key_column: &str,
    changes: &Vec<PendingChange>,
) -> (r: Result<Vec<MutationStatement>, VelocityError>)
    ensures
        (engine == EngineKind::Postgres || engine == EngineKind::MySql || engine
            == EngineKind::Sqlite) ==> (r matches Ok(stmts) && statement_views(stmts@)
            == planned_statements(engine, table_name@, primary_key_column@, changes@)),
        !(engine == EngineKind::Postgres || engine == EngineKind::MySql || engine
            == EngineKind::Sqlite) ==> (r matches Err(e) && e is Query && e.spec_message()
            == "Execute changes not supported for this database type"@),
{
    if !mutation_supported(engine) {
        return Err(
            VelocityError::Query("Execute changes not supported for this database type".to_owned()),
        );
    }
    let mut stmts: Vec<MutationStatement> = Vec::new();
    proof {
        assert(statement_views(stmts@) =~= planned_statements(
            engine,
            table_name@,
            primary_key_column@,
            changes@.take(0),
        ));
    }
    for i in 0..changes.len()
        invariant
            statement_views(stmts@) == planned_statements(
                engine,
                table_name@,
                primary_key_column@,
                changes@.take(i as int),
            ),
    {
        let c = &changes[i];
        if str_eq(c.change_type.as_str(), "update") {
            proof {
                reveal_strlit("update");
                reveal_strlit("UPDATE ");
                reveal_strlit(" SET ");
                reveal_strlit(" = ");
                reveal_strlit(" WHERE ");
            }
            let mut sql = "UPDATE ".to_owned();
            let t = mident_string(engine, table_name);
            sql.append(t.as_str());
            sql.append(" SET ");
            let col = mident_string(engine, c.column.as_str());
            sql.append(col.as_str());
            sql.append(" = ");
            let val = format_value_for_sql(&c.new_value);
            sql.append(val.as_str());
            sql.append(" WHERE ");
            let pk = mident_string(engine, primary_key_column);
            sql.append(pk.as_str());
            sql.append(" = ");
            let pkv = format_pk_for_sql(c.row_id.as_str());
            sql.append(pkv.as_str());
            proof {
                assert(sql@ =~= update_statement(engine, table_name@, primary_key_column@, *c));
            }
            let m = MutationStatement { change_type: c.change_type.clone(), sql };
            proof {
                lemma_statement_views_push(stmts@, m);
            }
            stmts.push(m);
        } else if str_eq(c.change_type.as_str(), "delete") {
            proof {
                reveal_strlit("delete");
                reveal_strlit("DELETE FROM ");
                reveal_strlit(" WHERE ");
                reveal_strlit(" = ");
            }
            let mut sql = "DELETE FROM ".to_owned();
            let t = mident_string(engine, table_name);
            sql.append(t.as_str());
            sql.append(" WHERE ");
            let pk = mident_string(engine, primary_key_column);
            sql.append(pk.as_str());
            sql.append(" = ");
            let pkv = format_pk_for_sql(c.row_id.as_str());
            sql.append(pkv.as_str());
            proof {
                assert(sql@ =~= delete_statement(engine, table_name@, primary_key_column@, *c));
            }
            let m = MutationStatement { change_type: c.change_type.clone(), sql };
            proof {
                lemma_statement_views_push(stmts@, m);
            }
            stmts.push(m);
        } else if str_eq(c.change_type.as_str(), "insert") {
            proof {
                reveal_strlit("insert");
                reveal_strlit("INSERT INTO ");
                reveal_strlit(" (");
                reveal_strlit(") VALUES (");
                reveal_strlit(")");
            }
            let mut sql = "INSERT INTO ".to_owned();
            let t = mident_string(engine, table_name);
            sql.append(t.as_str());
            sql.append(" (");
            let col = mident_string(engine, c.column.as_str());
            sql.append(col.as_str());
            sql.append(") VALUES (");
            let val = format_value_for_sql(&c.new_value);
            sql.append(val.as_str());
            sql.append(")");
            proof {
                assert(sql@ =~= insert_statement(engine, table_name@, *c));
            }
            let m = MutationStatement { change_type: c.change_type.clone(), sql };
            proof {
                lemma_statement_views_push(stmts@, m);
            }
            stmts.push(m);
        }
        proof {
            reveal_strlit("update");
            reveal_strlit("delete");
            reveal_strlit("insert");
            assert(changes@.take(i + 1).drop_last() =~= changes@.take(i as int));
            assert(changes@.take(i + 1).last() == changes@[i as int]);
            assert(statement_views(stmts@) == planned_statements(
                engine,
                table_name@,
                primary_key_column@,
                changes@.take(i + 1),
            ));
        }
    }
    proof {
        assert(changes@.take(changes@.len() as int) =~= changes@);
    }
    Ok(stmts)
}

// ---------------------------------------------------------------------------
// Folding the per-statement outcomes
// ---------------------------------------------------------------------------

/// The error entries a batch reports: one per failed statement, each
/// prefixed with its change kind.
pub open spec fn mutation_errors(kinds: Seq<Seq<char>>, outs: Seq<Result<u64, String>>) -> Seq<
    Seq<char>,
>
    decreases outs.len(),
{
    if outs.len() == 0 {
        Seq::empty()
    } else {
        mutation_errors(kinds.drop_last(), outs.drop_last()) + (match outs.last() {
            Ok(_) => Seq::<Seq<char>>::empty(),
            Err(m) => seq![kinds.last() + ": "@ + m@],
        })
    }
}

/// How many statements of a batch failed.
pub open spec fn failed_count(outs: Seq<Result<u64, String>>) -> int
    decreases outs.len(),
{
    if outs.len() == 0 {
        0
    } else {
        failed_count(outs.drop_last()) + (match outs.last() {
            Ok(_) => 0int,
            Err(_) => 1int,
        })
    }
}

/// The rows the successful statements touched, in all.
pub open spec fn affected_sum(outs: Seq<Result<u64, String>>) -> int
    decreases outs.len(),
{
    if outs.len() == 0 {
        0
    } else {
        affected_sum(outs.drop_last()) + (match outs.last() {
            Ok(n) => n as int,
            Err(_) => 0int,
        })
    }
}

/// Law: a batch reports exactly one error entry per failed statement.
pub proof fn lemma_one_error_per_failure(kinds: Seq<Seq<char>>, outs: Seq<Result<u64, String>>)
    ensures
        mutation_errors(kinds, outs).len() == failed_count(outs),
    decreases outs.len(),
{
    if outs.len() > 0 {
        lemma_one_error_per_failure(kinds.drop_last(), outs.drop_last());
    }
}

proof fn lemma_affected_sum_nonneg(outs: Seq<Result<u64, String>>)
    ensures
        affected_sum(outs) >= 0,
    decreases outs.len(),
{
    if outs.len() > 0 {
        lemma_affected_sum_nonneg(outs.drop_last());
    }
}

/// Fold the per-statement outcomes of a batch into its report: success
/// exactly when nothing failed, and one kind-prefixed message per
/// failure. The batch commits exactly when `success` holds; otherwise
/// the whole transaction is rolled back, the table keeps its prior
/// state, and `rows_affected` reports the zero net effect. On the
/// committed path it is the sum the statements touched, capped at
/// `i64::MAX`.
#[verifier::loop_isolation(false)]
pub fn summarize_mutation(kinds: &Vec<String>, outcomes: &Vec<Result<u64, String>>) -> (r:
    ExecuteResult)
    requires
        kinds@.len() == outcomes@.len(),
    ensures
        r.success == (failed_count(outcomes@) == 0),
        views(r.errors@) == mutation_errors(views(kinds@), outcomes@),
        failed_count(outcomes@) > 0 ==> r.rows_affected == 0,
        failed_count(outcomes@) == 0 ==> r.rows_affected == (if affected_sum(outcomes@)
            > i64::MAX as int {
            i64::MAX as int
        } else {
            affected_sum(outcomes@)
        }),
{
    let mut errors: Vec<String> = Vec::new();
    let mut total: u64 = 0;
    let mut capped: bool = false;
    proof {
        assert(views(errors@) =~= mutation_errors(
            views(kinds@).take(0),
            outcomes@.take(0),
        ));
    }
    for i in 0..outcomes.len()
        invariant
            views(errors@) == mutation_errors(views(kinds@).take(i as int), outcomes@.take(i as int)),
            !capped ==> total as int == affected_sum(outcomes@.take(i as int)),
            capped ==> total == u64::MAX && affected_sum(outcomes@.take(i as int)) > u64::MAX as int,
            failed_count(outcomes@.take(i as int)) == errors@.len(),
    {
        proof {
            lemma_affected_sum_nonneg(outcomes@.take(i as int));
            assert(outcomes@.take(i + 1).drop_last() =~= outcomes@.take(i as int));
            assert(views(kinds@).take(i + 1).drop_last() =~= views(kinds@).take(i as int));
            assert(views(kinds@).take(i + 1).last() == kinds@[i as int]@);
        }
        match &outcomes[i] {
            Ok(n) => {
                if total > u64::MAX - *n {
                    total = u64::MAX;
                    capped = true;
                } else {
                    total = total + *n;
                }
                proof {
                    assert(views(errors@) =~= mutation_errors(
                        views(kinds@).take(i + 1),
                        outcomes@.take(i + 1),
                    ));
                }
            },
            Err(m) => {
                proof {
                    reveal_strlit(": ");
                }
                let mut entry = kinds[i].clone();
                entry.append(": ");
                entry.append(m.as_str());
                proof {
                    assert(entry@ =~= kinds@[i as int]@ + ": "@ + m@);
                }
                push_string(&mut errors, entry);
                proof {
                    assert(views(errors@) =~= mutation_errors(
                        views(kinds@).take(i + 1),
                        outcomes@.take(i + 1),
                    ));
                }
            },
        }
    }
    proof {
        assert(outcomes@.take(outcomes@.len() as int) =~= outcomes@);
        assert(views(kinds@).take(views(kinds@).len() as int) =~= views(kinds@));
        lemma_one_error_per_failure(views(kinds@), outcomes@);
    }
    let success = errors.len() == 0;
    let rows_affected: i64 = if !success {
        0
    } else if total > i64::MAX as u64 {
        i64::MAX
    } else {
        total as i64
    };
    ExecuteResult { success, rows_affected, errors }
}

} // verus!
