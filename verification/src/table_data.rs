//! Table data retrieval: the compiled data and count queries, and the
//! assembly of fetched rows, count and continuation cursor into the
//! tabular response.

use vstd::prelude::*;
use crate::catalog::ColumnInfo;
use crate::filters::{QueryOptions, CursorDirection, where_clause_text, where_params,
    cursor_clause_spec, order_clause_text, pagination_clause_text, select_columns_text,
    placeholder, placeholder_string, quote_ident, qident};
use crate::text::{views, push_string, str_eq, idec, i32_to_dec};
use crate::values::{JsonVal, jv_like, clone_value};

verus! {

/// A plain page of table data.
#[derive(Debug, Clone)]
pub struct TableData {
    pub columns: Vec<String>,
    pub rows: Vec<Vec<JsonVal>>,
}

/// A filtered page of table data with pagination state: the total is
/// absent exactly when the count was skipped, the continuation cursor
/// present only under cursor pagination.
#[derive(Debug, Clone)]
pub struct TableDataResponse {
    pub columns: Vec<String>,
    pub rows: Vec<Vec<JsonVal>>,
    pub total_count: Option<i64>,
    pub next_cursor: Option<JsonVal>,
}

// ---------------------------------------------------------------------------
// The compiled queries
// ---------------------------------------------------------------------------

/// The cursor condition as the data query carries it: the bound keeps
/// the sequential placeholder numbering, continuing after the `k`
/// filter parameters, so every placeholder of the statement binds
/// positionally.
pub open spec fn numbered_cursor_condition(opts: QueryOptions, k: int) -> Option<Seq<char>> {
    match opts.cursor {
        None => None,
        Some(c) => Some(
            qident(c.column@) + (match c.direction {
                CursorDirection::After => " > "@,
                CursorDirection::Before => " < "@,
            }) + placeholder(k + 1),
        ),
    }
}

/// The WHERE text of the data query: the filters' clause, with the
/// cursor condition appended by AND (never subject to OR), opening the
/// clause when no filter resolved.
pub open spec fn full_where_text(opts: QueryOptions) -> Seq<char> {
    let w = where_clause_text(opts.filters@, opts.filter_logic);
    match numbered_cursor_condition(opts, where_params(opts.filters@).len() as int) {
        None => w,
        Some(cc) => if w.len() == 0 {
            " WHERE "@ + cc
        } else {
            w + " AND "@ + cc
        },
    }
}

/// The data query: projection, quoted table, combined WHERE, cursor-aware
/// ordering, and pagination.
pub open spec fn table_query_text(table: Seq<char>, opts: QueryOptions) -> Seq<char> {
    "SELECT "@ + select_columns_text(opts) + " FROM \""@ + table + "\""@ + full_where_text(opts)
        + order_clause_text(opts) + pagination_clause_text(opts)
}

/// The values the data query binds, in placeholder order: the filters'
/// parameters first, the cursor value last.
pub open spec fn table_query_params(opts: QueryOptions) -> Seq<Seq<char>> {
    where_params(opts.filters@) + (match cursor_clause_spec(opts) {
        Some(cc) => seq![cc.1],
        None => Seq::<Seq<char>>::empty(),
    })
}

/// The count query: the same base WHERE as the data query (without the
/// cursor condition), and no pagination, so the total is independent of
/// LIMIT and OFFSET.
pub open spec fn count_query_text(table: Seq<char>, opts: QueryOptions) -> Seq<char> {
    "SELECT COUNT(*) as count FROM \""@ + table + "\""@ + where_clause_text(
        opts.filters@,
        opts.filter_logic,
    )
}

/// Build the data query for a table, with the values it binds: the
/// filters' parameters in placeholder order, the cursor value last.
pub fn build_table_query(table_name: &str, options: &QueryOptions) -> (r: (String, Vec<String>))
    ensures
        r.0@ == table_query_text(table_name@, *options),
        views(r.1@) == table_query_params(*options),
{
    proof {
        reveal_strlit("SELECT ");
        reveal_strlit(" FROM \"");
        reveal_strlit("\"");
        reveal_strlit(" WHERE ");
        reveal_strlit(" AND ");
    }
    let (where_clause, mut params) = options.build_where_clause();
    let order_clause = options.build_order_clause();
    let pagination = options.build_pagination_clause();
    let select_columns = options.build_select_columns();
    let ghost where_ps = views(params@);

    let mut full_where = where_clause;
    match &options.cursor {
        Some(c) => {
            push_string(&mut params, crate::values::value_param_text(&c.value));
            let mut cond = quote_ident(c.column.as_str());
            let op: &str = match c.direction {
                CursorDirection::After => " > ",
                CursorDirection::Before => " < ",
            };
            cond.append(op);
            let ph = placeholder_string(params.len());
            cond.append(ph.as_str());
            proof {
                reveal_strlit(" > ");
                reveal_strlit(" < ");
                assert(cond@ =~= numbered_cursor_condition(
                    *options,
                    where_ps.len() as int,
                ).unwrap());
            }
            if full_where.as_str().is_empty() {
                let mut w = " WHERE ".to_owned();
                w.append(cond.as_str());
                full_where = w;
            } else {
                full_where.append(" AND ");
                full_where.append(cond.as_str());
            }
        },
        None => {},
    }
    proof {
        assert(full_where@ =~= full_where_text(*options));
        assert(views(params@) =~~= table_query_params(*options));
    }
    let mut sql = "SELECT ".to_owned();
    sql.append(select_columns.as_str());
    sql.append(" FROM \"");
    sql.append(table_name);
    sql.append("\"");
    sql.append(full_where.as_str());
    sql.append(order_clause.as_str());
    sql.append(pagination.as_str());
    proof {
        assert(sql@ =~= table_query_text(table_name@, *options));
    }
    (sql, params)
}

/// Law: the count query does not depend on pagination: two option sets
/// with the same filters and logic compile to the same count query,
/// whatever their limit, offset or cursor, so the total a caller gets
/// is independent of the page being fetched.
pub proof fn lemma_count_query_ignores_pagination(
    table: Seq<char>,
    a: QueryOptions,
    b: QueryOptions,
)
    requires
        a.filters@ == b.filters@,
        a.filter_logic == b.filter_logic,
    ensures
        count_query_text(table, a) == count_query_text(table, b),
{
}

/// Build the count query for a table, with the values it binds: the
/// same parameters as the data query's WHERE clause, without the
/// cursor's.
pub fn build_count_query(table_name: &str, options: &QueryOptions) -> (r: (String, Vec<String>))
    ensures
        r.0@ == count_query_text(table_name@, *options),
        views(r.1@) == where_params(options.filters@),
{
    proof {
        reveal_strlit("SELECT COUNT(*) as count FROM \"");
        reveal_strlit("\"");
    }
    let (where_clause, params) = options.build_where_clause();
    let mut sql = "SELECT COUNT(*) as count FROM \"".to_owned();
    sql.append(table_name);
    sql.append("\"");
    sql.append(where_clause.as_str());
    proof {
        assert(sql@ =~= count_query_text(table_name@, *options));
    }
    (sql, params)
}

/// The unfiltered page query of the plain data path; the table name
/// stands unquoted, as the callers of this surface hand it over.
pub open spec fn simple_query_text(table: Seq<char>, limit: int, offset: int) -> Seq<char> {
    "SELECT * FROM "@ + table + " LIMIT "@ + idec(limit) + " OFFSET "@ + idec(offset)
}

/// Build the unfiltered page query.
pub fn build_simple_table_query(table_name: &str, limit: i32, offset: i32) -> (r: String)
    ensures
        r@ == simple_query_text(table_name@, limit as int, offset as int),
{
    proof {
        reveal_strlit("SELECT * FROM ");
        reveal_strlit(" LIMIT ");
        reveal_strlit(" OFFSET ");
    }
    let mut sql = "SELECT * FROM ".to_owned();
    sql.append(table_name);
    sql.append(" LIMIT ");
    let l = i32_to_dec(limit);
    sql.append(l.as_str());
    sql.append(" OFFSET ");
    let o = i32_to_dec(offset);
    sql.append(o.as_str());
    proof {
        assert(sql@ =~= simple_query_text(table_name@, limit as int, offset as int));
    }
    sql
}

/// The distinct-values query of one column, for autocompletion; the
/// identifiers stand unquoted, as the callers of this surface hand
/// them over.
pub open spec fn column_values_query_text(table: Seq<char>, column: Seq<char>, limit: int) -> Seq<
    char,
> {
    "SELECT DISTINCT "@ + column + " FROM "@ + table + " ORDER BY "@ + column + " LIMIT "@ + idec(
        limit,
    )
}

/// Build the distinct-values query of one column.
pub fn build_column_values_query(table_name: &str, column: &str, limit: i32) -> (r: String)
    ensures
        r@ == column_values_query_text(table_name@, column@, limit as int),
{
    proof {
        reveal_strlit("SELECT DISTINCT ");
        reveal_strlit(" FROM ");
        reveal_strlit(" ORDER BY ");
        reveal_strlit(" LIMIT ");
    }
    let mut sql = "SELECT DISTINCT ".to_owned();
    sql.append(column);
    sql.append(" FROM ");
    sql.append(table_name);
    sql.append(" ORDER BY ");
    sql.append(column);
    sql.append(" LIMIT ");
    let l = i32_to_dec(limit);
    sql.append(l.as_str());
    proof {
        assert(sql@ =~= column_values_query_text(table_name@, column@, limit as int));
    }
    sql
}

/// Why an engine refuses the filtered data path, if it does: the SQL
/// engines with a live pool answer it, the rest are turned away with
/// the message the caller reports.
pub fn filtered_fetch_refusal(engine: crate::engine::EngineKind) -> (r: Option<String>)
    ensures
        (match engine {
            crate::engine::EngineKind::Postgres => r is None,
            crate::engine::EngineKind::MySql => r is None,
            crate::engine::EngineKind::Sqlite => r is None,
            crate::engine::EngineKind::Redis => r matches Some(m) && m@
                == "Redis does not support table data fetching"@,
            crate::engine::EngineKind::SqlServer => r matches Some(m) && m@
                == "SQL Server support coming soon"@,
            crate::engine::EngineKind::MongoDb => r matches Some(m) && m@
                == "MongoDB uses get_table_data, not fetch_table_data"@,
        }),
{
    match engine {
        crate::engine::EngineKind::Postgres => None,
        crate::engine::EngineKind::MySql => None,
        crate::engine::EngineKind::Sqlite => None,
        crate::engine::EngineKind::Redis => Some(
            "Redis does not support table data fetching".to_owned(),
        ),
        crate::engine::EngineKind::SqlServer => Some("SQL Server support coming soon".to_owned()),
        crate::engine::EngineKind::MongoDb => Some(
            "MongoDB uses get_table_data, not fetch_table_data".to_owned(),
        ),
    }
}

/// The text one distinct-column cell contributes: strings bare,
/// integers and booleans by their literal, anything else empty.
pub open spec fn column_value_text(v: JsonVal) -> Seq<char> {
    match v {
        JsonVal::Str(s) => s@,
        JsonVal::Int(i) => idec(i as int),
        JsonVal::Bool(b) => if b {
            "true"@
        } else {
            "false"@
        },
        JsonVal::Num(s) => s@,
        _ => Seq::<char>::empty(),
    }
}

/// The distinct values kept for autocompletion: each cell's text, the
/// empty ones dropped, in order.
pub open spec fn kept_column_values(cells: Seq<JsonVal>) -> Seq<Seq<char>>
    decreases cells.len(),
{
    if cells.len() == 0 {
        Seq::empty()
    } else {
        let t = column_value_text(cells.last());
        kept_column_values(cells.drop_last()) + (if t.len() > 0 {
            seq![t]
        } else {
            Seq::<Seq<char>>::empty()
        })
    }
}

/// Turn the cells of a distinct-values page into the non-empty texts
/// the caller autocompletes from.
#[verifier::loop_isolation(false)]
pub fn column_value_texts(cells: &Vec<JsonVal>) -> (r: Vec<String>)
    ensures
        views(r@) == kept_column_values(cells@),
{
    proof {
        reveal_strlit("true");
        reveal_strlit("false");
    }
    let mut out: Vec<String> = Vec::new();
    proof {
        assert(views(out@) =~= kept_column_values(cells@.take(0)));
    }
    for i in 0..cells.len()
        invariant
            views(out@) == kept_column_values(cells@.take(i as int)),
    {
        let text: String = match &cells[i] {
            JsonVal::Str(s) => s.clone(),
            JsonVal::Int(n) => crate::text::i64_to_dec(*n),
            JsonVal::Bool(b) => if *b {
                "true".to_owned()
            } else {
                "false".to_owned()
            },
            JsonVal::Num(s) => s.clone(),
            _ => String::new(),
        };
        proof {
            assert(text@ == column_value_text(cells@[i as int]));
            assert(cells@.take(i + 1).drop_last() =~= cells@.take(i as int));
            assert(cells@.take(i + 1).last() == cells@[i as int]);
        }
        if !text.as_str().is_empty() {
            push_string(&mut out, text);
            proof {
                assert(views(out@) =~= kept_column_values(cells@.take(i + 1)));
            }
        } else {
            proof {
                assert(views(out@) =~= kept_column_values(cells@.take(i + 1)));
            }
        }
    }
    proof {
        assert(cells@.take(cells@.len() as int) =~= cells@);
    }
    out
}

// ---------------------------------------------------------------------------
// Column selection
// ---------------------------------------------------------------------------

/// The names of a schema's columns, in order.
pub open spec fn column_names(cols: Seq<ColumnInfo>) -> Seq<Seq<char>> {
    cols.map_values(|c: ColumnInfo| c.name@)
}

proof fn lemma_column_names_push(cols: Seq<ColumnInfo>, x: ColumnInfo)
    ensures
        column_names(cols.push(x)) == column_names(cols).push(x.name@),
{
    let l = column_names(cols.push(x));
    let r = column_names(cols).push(x.name@);
    assert forall|k: int| 0 <= k < l.len() implies l[k] == r[k] by {
        assert(l[k] == cols.push(x)[k].name@);
        if k < cols.len() {
            assert(r[k] == column_names(cols)[k]);
            assert(column_names(cols)[k] == cols[k].name@);
        }
    }
    assert(l =~= r);
}

/// The names a query actually selects: the requested projection when one
/// is given and non-empty, else every column of the schema.
pub open spec fn selected_names(opts: QueryOptions, schema: Seq<ColumnInfo>) -> Seq<Seq<char>> {
    match opts.selected_columns {
        Some(cols) => if cols@.len() > 0 {
            views(cols@)
        } else {
            column_names(schema)
        },
        None => column_names(schema),
    }
}

/// Resolve the names a query selects.
#[verifier::loop_isolation(false)]
pub fn resolve_selected_names(options: &QueryOptions, schema: &Vec<ColumnInfo>) -> (r: Vec<String>)
    ensures
        views(r@) == selected_names(*options, schema@),
{
    match &options.selected_columns {
        Some(cols) => {
            if cols.len() > 0 {
                return cols.clone();
            }
        },
        None => {},
    }
    let mut names: Vec<String> = Vec::new();
    proof {
        assert(views(names@) =~= column_names(schema@.take(0)));
    }
    for i in 0..schema.len()
        invariant
            views(names@) == column_names(schema@.take(i as int)),
    {
        push_string(&mut names, schema[i].name.clone());
        proof {
            assert(schema@.take(i + 1) =~= schema@.take(i as int).push(schema@[i as int]));
            lemma_column_names_push(schema@.take(i as int), schema@[i as int]);
            assert(views(names@) == column_names(schema@.take(i + 1)));
        }
    }
    proof {
        assert(schema@.take(schema@.len() as int) =~= schema@);
    }
    names
}

// ---------------------------------------------------------------------------
// Response assembly
// ---------------------------------------------------------------------------

/// The first position of a name in a list, or -1.
pub open spec fn name_index(names: Seq<Seq<char>>, target: Seq<char>) -> int
    decreases names.len(),
{
    if names.len() == 0 {
        -1
    } else if names.first() == target {
        0
    } else {
        let t = name_index(names.drop_first(), target);
        if t < 0 {
            -1
        } else {
            1 + t
        }
    }
}

pub(crate) proof fn lemma_name_index_found(names: Seq<Seq<char>>, target: Seq<char>, i: int)
    requires
        0 <= i < names.len(),
        names[i] == target,
        forall|j: int| 0 <= j < i ==> names[j] != target,
    ensures
        name_index(names, target) == i,
    decreases i,
{
    if i > 0 {
        lemma_name_index_found(names.drop_first(), target, i - 1);
    }
}

/// A non-negative index points at the target.
pub(crate) proof fn lemma_name_index_props(names: Seq<Seq<char>>, target: Seq<char>)
    ensures
        name_index(names, target) >= 0 ==> 0 <= name_index(names, target) < names.len()
            && names[name_index(names, target)] == target,
    decreases names.len(),
{
    if names.len() > 0 && names.first() != target {
        lemma_name_index_props(names.drop_first(), target);
    }
}

/// A present target has a non-negative index.
pub(crate) proof fn lemma_name_index_present(names: Seq<Seq<char>>, target: Seq<char>, w: int)
    requires
        0 <= w < names.len(),
        names[w] == target,
    ensures
        name_index(names, target) >= 0,
    decreases names.len(),
{
    if names.first() != target {
        lemma_name_index_present(names.drop_first(), target, w - 1);
    }
}

pub(crate) proof fn lemma_name_index_absent(names: Seq<Seq<char>>, target: Seq<char>)
    requires
        forall|j: int| 0 <= j < names.len() ==> names[j] != target,
    ensures
        name_index(names, target) == -1,
    decreases names.len(),
{
    if names.len() > 0 {
        lemma_name_index_absent(names.drop_first(), target);
    }
}

/// Find the first position of a name in a list of names.
#[verifier::loop_isolation(false)]
pub(crate) fn find_name(names: &Vec<String>, target: &str) -> (r: Option<usize>)
    ensures
        (match r {
            Some(i) => name_index(views(names@), target@) == i as int && i < names@.len(),
            None => name_index(views(names@), target@) == -1,
        }),
{
    for i in 0..names.len()
        invariant
            forall|j: int| 0 <= j < i ==> views(names@)[j] != target@,
    {
        if str_eq(names[i].as_str(), target) {
            proof {
                lemma_name_index_found(views(names@), target@, i as int);
            }
            return Some(i);
        }
        proof {
            assert(views(names@)[i as int] == names@[i as int]@);
        }
    }
    proof {
        lemma_name_index_absent(views(names@), target@);
    }
    None
}

/// What the continuation cursor of a page is: under cursor pagination,
/// the cursor column's value in the last returned row, absent when the
/// page is empty or the column is not among the returned names.
pub open spec fn next_cursor_matches(
    r: Option<JsonVal>,
    opts: QueryOptions,
    columns: Seq<String>,
    rows: Seq<Vec<JsonVal>>,
) -> bool {
    match opts.cursor {
        None => r is None,
        Some(c) => {
            let idx = name_index(views(columns), c.column@);
            if rows.len() > 0 && 0 <= idx < rows.last()@.len() {
                r matches Some(v) && jv_like(v, rows.last()@[idx])
            } else {
                r is None
            }
        },
    }
}

/// Assemble the tabular response from the fetched page and count.
///
/// The total is the count the caller obtained, and stands absent exactly
/// when the options asked to skip the count; the continuation cursor is
/// the cursor column's value in the last returned row.
pub fn assemble_table_response(
    columns: Vec<String>,
    rows: Vec<Vec<JsonVal>>,
    options: &QueryOptions,
    count_result: Option<i64>,
) -> (r: TableDataResponse)
    ensures
        r.columns == columns,
        r.rows == rows,
        options.skip_count ==> r.total_count is None,
        !options.skip_count ==> r.total_count == count_result,
        next_cursor_matches(r.next_cursor, *options, columns@, rows@),
{
    let total_count: Option<i64> = if options.skip_count {
        None
    } else {
        count_result
    };
    let next_cursor: Option<JsonVal> = match &options.cursor {
        None => None,
        Some(c) => {
            if rows.len() > 0 {
                match find_name(&columns, c.column.as_str()) {
                    Some(idx) => {
                        let last = &rows[rows.len() - 1];
                        if idx < last.len() {
                            proof {
                                assert(rows@.last() == rows@[rows@.len() - 1]);
                            }
                            Some(clone_value(&last[idx]))
                        } else {
                            None
                        }
                    },
                    None => None,
                }
            } else {
                None
            }
        },
    };
    TableDataResponse { columns, rows, total_count, next_cursor }
}

/// The one-column page Redis reports for a key: the key's value as a
/// single row, or no rows when the key is absent.
pub fn redis_table_data(value: Option<String>) -> (r: TableData)
    ensures
        r.columns@.len() == 1 && r.columns@[0]@ == "value"@,
        (match value {
            Some(v) => r.rows@.len() == 1 && r.rows@[0]@.len() == 1 && (r.rows@[0]@[0] matches
                JsonVal::Str(s) && s@ == v@),
            None => r.rows@.len() == 0,
        }),
{
    let mut columns: Vec<String> = Vec::new();
    columns.push("value".to_owned());
    let mut rows: Vec<Vec<JsonVal>> = Vec::new();
    match value {
        Some(v) => {
            let mut row: Vec<JsonVal> = Vec::new();
            row.push(JsonVal::Str(v));
            rows.push(row);
        },
        None => {},
    }
    TableData { columns, rows }
}

// ---------------------------------------------------------------------------
// Law: keyset pagination is monotonic
// ---------------------------------------------------------------------------

/// Law: on a page fetched under an ascending cursor on an integer
/// column — every row past the bound, rows in ascending order, as the
/// compiled `col > ?` condition and forced `ORDER BY col ASC` give —
/// the cursor column of the last row is the maximum of the page and
/// itself lies past the bound; it is exactly the value the response
/// carries as the continuation cursor.
pub proof fn lemma_cursor_page_monotonic(rows: Seq<Vec<JsonVal>>, idx: int, bound: int)
    requires
        rows.len() > 0,
        forall|k: int| 0 <= k < rows.len() ==> 0 <= idx < (#[trigger] rows[k])@.len(),
        forall|k: int| 0 <= k < rows.len() ==> (#[trigger] rows[k])@[idx] is Int,
        forall|k: int|
            0 <= k < rows.len() ==> (#[trigger] rows[k])@[idx]->Int_0 > bound,
        forall|k: int, l: int|
            0 <= k < l < rows.len() ==> (#[trigger] rows[k])@[idx]->Int_0 <= (
            #[trigger] rows[l])@[idx]->Int_0,
    ensures
        rows.last()@[idx] is Int,
        rows.last()@[idx]->Int_0 > bound,
        forall|k: int|
            0 <= k < rows.len() ==> (#[trigger] rows[k])@[idx]->Int_0 <= rows.last()@[idx]->Int_0,
{
    assert(rows.last() == rows[rows.len() - 1]);
    assert forall|k: int| 0 <= k < rows.len() implies (#[trigger] rows[k])@[idx]->Int_0
        <= rows.last()@[idx]->Int_0 by {
        if k < rows.len() - 1 {
            assert(rows[k]@[idx]->Int_0 <= rows[rows.len() - 1]@[idx]->Int_0);
        }
    }
}

/// Law: under an ascending integer cursor page, the continuation
/// cursor the response carries is the greatest key of the page and
/// itself lies past the bound.
pub proof fn lemma_next_cursor_is_page_maximum(
    r: Option<JsonVal>,
    opts: QueryOptions,
    columns: Seq<String>,
    rows: Seq<Vec<JsonVal>>,
    idx: int,
    bound: int,
)
    requires
        rows.len() > 0,
        forall|k: int| 0 <= k < rows.len() ==> 0 <= idx < (#[trigger] rows[k])@.len(),
        forall|k: int| 0 <= k < rows.len() ==> (#[trigger] rows[k])@[idx] is Int,
        forall|k: int| 0 <= k < rows.len() ==> (#[trigger] rows[k])@[idx]->Int_0 > bound,
        forall|k: int, l: int|
            0 <= k < l < rows.len() ==> (#[trigger] rows[k])@[idx]->Int_0 <= (
            #[trigger] rows[l])@[idx]->Int_0,
        (opts.cursor matches Some(c) && name_index(views(columns), c.column@) == idx),
        next_cursor_matches(r, opts, columns, rows),
    ensures
        (r matches Some(v) && v is Int && v->Int_0 > bound && forall|k: int|
            0 <= k < rows.len() ==> (#[trigger] rows[k])@[idx]->Int_0 <= v->Int_0),
{
    lemma_cursor_page_monotonic(rows, idx, bound);
}

} // verus!
