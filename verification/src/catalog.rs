//! Schema inspection: the catalog queries each engine answers, the fixed
//! lists the engines without catalogs report, and the mapping of raw
//! catalog rows into the column and foreign-key models.

use vstd::prelude::*;
use crate::values::{JsonVal, jv_like};
use crate::text::{views, push_string, udec, u64_to_dec, i32_to_dec, idec, quote_escaped,
    escape_sql_quotes, contains_ci, str_contains_ci, sort_strings, strings_sorted, chars_le};

verus! {

/// One column of a table, as the engine's catalog reports it; produced
/// fresh on every schema query, never cached.
#[derive(Debug, Clone)]
pub struct ColumnInfo {
    pub name: String,
    /// The engine-native type name, not normalized.
    pub data_type: String,
    pub nullable: bool,
    pub max_length: Option<i32>,
    pub is_primary_key: bool,
}

/// One foreign key of a table.
#[derive(Debug, Clone)]
pub struct ForeignKeyInfo {
    pub constraint_name: String,
    pub column_name: String,
    pub referenced_table: String,
    pub referenced_column: String,
}

/// One table with its columns, for a whole-schema report.
#[derive(Debug, Clone)]
pub struct TableSchemaInfo {
    pub name: String,
    pub columns: Vec<ColumnInfo>,
}

/// A whole database schema: tables with columns, views, functions.
#[derive(Debug, Clone)]
pub struct DatabaseSchemaInfo {
    pub tables: Vec<TableSchemaInfo>,
    pub views: Vec<String>,
    pub functions: Vec<String>,
}

// ---------------------------------------------------------------------------
// Fixed database lists
// ---------------------------------------------------------------------------

/// The one database a SQLite file holds.
pub fn sqlite_database_names() -> (r: Vec<String>)
    ensures
        views(r@) =~= seq!["main"@],
{
    let mut v: Vec<String> = Vec::new();
    push_string(&mut v, "main".to_owned());
    v
}

/// The fixed database list reported for SQL Server.
pub fn sqlserver_database_names() -> (r: Vec<String>)
    ensures
        views(r@) =~= seq!["master"@],
{
    let mut v: Vec<String> = Vec::new();
    push_string(&mut v, "master".to_owned());
    v
}

/// The fixed Redis database list: `db0` through `db15`.
#[verifier::loop_isolation(false)]
pub fn redis_database_names() -> (r: Vec<String>)
    ensures
        views(r@) == Seq::new(16, |i: int| "db"@ + udec(i as nat)),
{
    let ghost all = Seq::new(16, |i: int| "db"@ + udec(i as nat));
    let mut v: Vec<String> = Vec::new();
    proof {
        reveal_strlit("db");
        assert(views(v@) =~= all.take(0));
    }
    for i in 0..16u64
        invariant
            views(v@) == all.take(i as int),
    {
        let mut name = "db".to_owned();
        let digits = u64_to_dec(i);
        name.append(digits.as_str());
        push_string(&mut v, name);
        proof {
            assert(views(v@) =~= all.take(i + 1));
        }
    }
    proof {
        assert(all.take(16) =~= all);
    }
    v
}

// ---------------------------------------------------------------------------
// Catalog capabilities
// ---------------------------------------------------------------------------

/// Whether an engine has a view catalog to list; the others degrade to
/// an empty list rather than an error.
pub fn views_supported(engine: crate::engine::EngineKind) -> (r: bool)
    ensures
        r == (engine == crate::engine::EngineKind::Postgres || engine
            == crate::engine::EngineKind::MySql || engine == crate::engine::EngineKind::Sqlite),
{
    match engine {
        crate::engine::EngineKind::Postgres => true,
        crate::engine::EngineKind::MySql => true,
        crate::engine::EngineKind::Sqlite => true,
        _ => false,
    }
}

/// Whether an engine has a function catalog to list; the others
/// degrade to an empty list rather than an error.
pub fn functions_supported(engine: crate::engine::EngineKind) -> (r: bool)
    ensures
        r == (engine == crate::engine::EngineKind::Postgres || engine
            == crate::engine::EngineKind::MySql),
{
    match engine {
        crate::engine::EngineKind::Postgres => true,
        crate::engine::EngineKind::MySql => true,
        _ => false,
    }
}

/// Whether an engine reports foreign keys; the others degrade to an
/// empty list rather than an error.
pub fn foreign_keys_supported(engine: crate::engine::EngineKind) -> (r: bool)
    ensures
        r == (engine == crate::engine::EngineKind::Postgres || engine
            == crate::engine::EngineKind::MySql || engine == crate::engine::EngineKind::Sqlite),
{
    match engine {
        crate::engine::EngineKind::Postgres => true,
        crate::engine::EngineKind::MySql => true,
        crate::engine::EngineKind::Sqlite => true,
        _ => false,
    }
}

// ---------------------------------------------------------------------------
// Catalog query text
// ---------------------------------------------------------------------------

/// The Postgres database-list query.
pub fn pg_list_databases_sql() -> (r: &'static str)
    ensures
        r@ == "SELECT datname FROM pg_database WHERE datistemplate = false ORDER BY datname"@,
{
    "SELECT datname FROM pg_database WHERE datistemplate = false ORDER BY datname"
}

/// The MySQL database-list query.
pub fn mysql_list_databases_sql() -> (r: &'static str)
    ensures
        r@ == "SHOW DATABASES"@,
{
    "SHOW DATABASES"
}

/// The Postgres view-list query.
pub fn pg_list_views_sql() -> (r: &'static str)
    ensures
        r@ == "SELECT viewname FROM pg_views WHERE schemaname = 'public' ORDER BY viewname"@,
{
    "SELECT viewname FROM pg_views WHERE schemaname = 'public' ORDER BY viewname"
}

/// The MySQL view-list query.
pub fn mysql_list_views_sql() -> (r: &'static str)
    ensures
        r@
            == "SELECT TABLE_NAME FROM information_schema.VIEWS WHERE TABLE_SCHEMA = DATABASE() ORDER BY TABLE_NAME"@,
{
    "SELECT TABLE_NAME FROM information_schema.VIEWS WHERE TABLE_SCHEMA = DATABASE() ORDER BY TABLE_NAME"
}

/// The SQLite view-list query.
pub fn sqlite_list_views_sql() -> (r: &'static str)
    ensures
        r@ == "SELECT name FROM sqlite_master WHERE type='view' ORDER BY name"@,
{
    "SELECT name FROM sqlite_master WHERE type='view' ORDER BY name"
}

/// The Postgres function-list query.
pub fn pg_list_functions_sql() -> (r: &'static str)
    ensures
        r@
            == "SELECT routine_name FROM information_schema.routines WHERE routine_schema = 'public' ORDER BY routine_name"@,
{
    "SELECT routine_name FROM information_schema.routines WHERE routine_schema = 'public' ORDER BY routine_name"
}

/// The MySQL function-list query.
pub fn mysql_list_functions_sql() -> (r: &'static str)
    ensures
        r@
            == "SELECT ROUTINE_NAME FROM information_schema.ROUTINES WHERE ROUTINE_SCHEMA = DATABASE() ORDER BY ROUTINE_NAME"@,
{
    "SELECT ROUTINE_NAME FROM information_schema.ROUTINES WHERE ROUTINE_SCHEMA = DATABASE() ORDER BY ROUTINE_NAME"
}

/// The Postgres column catalog query, bound to a table name.
pub fn pg_table_schema_sql() -> (r: &'static str)
    ensures
        r@
            == "SELECT column_name, data_type, CASE WHEN is_nullable = 'YES' THEN 'YES' ELSE 'NO' END, character_maximum_length FROM information_schema.columns WHERE table_name = $1 AND table_schema = 'public' ORDER BY ordinal_position"@,
{
    "SELECT column_name, data_type, CASE WHEN is_nullable = 'YES' THEN 'YES' ELSE 'NO' END, character_maximum_length FROM information_schema.columns WHERE table_name = $1 AND table_schema = 'public' ORDER BY ordinal_position"
}

/// The MySQL column catalog query, bound to a table name.
pub fn mysql_table_schema_sql() -> (r: &'static str)
    ensures
        r@
            == "SELECT COLUMN_NAME, DATA_TYPE, IS_NULLABLE, CHARACTER_MAXIMUM_LENGTH FROM INFORMATION_SCHEMA.COLUMNS WHERE TABLE_NAME = ? ORDER BY ORDINAL_POSITION"@,
{
    "SELECT COLUMN_NAME, DATA_TYPE, IS_NULLABLE, CHARACTER_MAXIMUM_LENGTH FROM INFORMATION_SCHEMA.COLUMNS WHERE TABLE_NAME = ? ORDER BY ORDINAL_POSITION"
}

/// The SQLite column pragma for a table.
pub fn sqlite_table_info_sql(table_name: &str) -> (r: String)
    ensures
        r@ == "PRAGMA table_info("@ + table_name@ + ")"@,
{
    proof {
        reveal_strlit("PRAGMA table_info(");
        reveal_strlit(")");
    }
    let mut sql = "PRAGMA table_info(".to_owned();
    sql.append(table_name);
    sql.append(")");
    proof {
        assert(sql@ =~= "PRAGMA table_info("@ + table_name@ + ")"@);
    }
    sql
}

/// The Postgres foreign-key catalog query, bound to a table name.
pub fn pg_foreign_keys_sql() -> (r: &'static str)
    ensures
        r@
            == "SELECT tc.constraint_name, kcu.column_name, ccu.table_name AS referenced_table, ccu.column_name AS referenced_column FROM information_schema.table_constraints AS tc JOIN information_schema.key_column_usage AS kcu ON tc.constraint_name = kcu.constraint_name AND tc.table_schema = kcu.table_schema JOIN information_schema.constraint_column_usage AS ccu ON ccu.constraint_name = tc.constraint_name AND ccu.table_schema = tc.table_schema WHERE tc.constraint_type = 'FOREIGN KEY' AND tc.table_name = $1 AND tc.table_schema = 'public' ORDER BY tc.constraint_name"@,
{
    "SELECT tc.constraint_name, kcu.column_name, ccu.table_name AS referenced_table, ccu.column_name AS referenced_column FROM information_schema.table_constraints AS tc JOIN information_schema.key_column_usage AS kcu ON tc.constraint_name = kcu.constraint_name AND tc.table_schema = kcu.table_schema JOIN information_schema.constraint_column_usage AS ccu ON ccu.constraint_name = tc.constraint_name AND ccu.table_schema = tc.table_schema WHERE tc.constraint_type = 'FOREIGN KEY' AND tc.table_name = $1 AND tc.table_schema = 'public' ORDER BY tc.constraint_name"
}

/// The MySQL foreign-key catalog query, bound to a table name.
pub fn mysql_foreign_keys_sql() -> (r: &'static str)
    ensures
        r@
            == "SELECT CONSTRAINT_NAME, COLUMN_NAME, REFERENCED_TABLE_NAME, REFERENCED_COLUMN_NAME FROM information_schema.KEY_COLUMN_USAGE WHERE TABLE_NAME = ? AND REFERENCED_TABLE_NAME IS NOT NULL AND TABLE_SCHEMA = DATABASE() ORDER BY CONSTRAINT_NAME"@,
{
    "SELECT CONSTRAINT_NAME, COLUMN_NAME, REFERENCED_TABLE_NAME, REFERENCED_COLUMN_NAME FROM information_schema.KEY_COLUMN_USAGE WHERE TABLE_NAME = ? AND REFERENCED_TABLE_NAME IS NOT NULL AND TABLE_SCHEMA = DATABASE() ORDER BY CONSTRAINT_NAME"
}

/// The SQLite foreign-key pragma for a table.
pub fn sqlite_foreign_keys_sql(table_name: &str) -> (r: String)
    ensures
        r@ == "PRAGMA foreign_key_list('"@ + table_name@ + "')"@,
{
    proof {
        reveal_strlit("PRAGMA foreign_key_list('");
        reveal_strlit("')");
    }
    let mut sql = "PRAGMA foreign_key_list('".to_owned();
    sql.append(table_name);
    sql.append("')");
    proof {
        assert(sql@ =~= "PRAGMA foreign_key_list('"@ + table_name@ + "')"@);
    }
    sql
}

/// The trailing paging text of a catalog query: LIMIT and OFFSET, each
/// only when given.
pub open spec fn paging_suffix(limit: Option<u32>, offset: Option<u32>) -> Seq<char> {
    (match limit {
        Some(l) => " LIMIT "@ + udec(l as nat),
        None => Seq::<char>::empty(),
    }) + (match offset {
        Some(o) => " OFFSET "@ + udec(o as nat),
        None => Seq::<char>::empty(),
    })
}

fn append_paging(sql: &mut String, limit: Option<u32>, offset: Option<u32>)
    ensures
        final(sql)@ == old(sql)@ + paging_suffix(limit, offset),
{
    proof {
        reveal_strlit(" LIMIT ");
        reveal_strlit(" OFFSET ");
    }
    match limit {
        Some(l) => {
            sql.append(" LIMIT ");
            let d = u64_to_dec(l as u64);
            sql.append(d.as_str());
        },
        None => {},
    }
    match offset {
        Some(o) => {
            sql.append(" OFFSET ");
            let d = u64_to_dec(o as u64);
            sql.append(d.as_str());
        },
        None => {},
    }
    proof {
        assert(final(sql)@ =~= old(sql)@ + paging_suffix(limit, offset));
    }
}

/// The Postgres table-list query: the public tables, optionally
/// filtered by a case-insensitive substring (quote-escaped), ordered,
/// paged.
pub open spec fn pg_tables_query(
    search: Option<String>,
    limit: Option<u32>,
    offset: Option<u32>,
) -> Seq<char> {
    "SELECT tablename FROM pg_tables WHERE schemaname = 'public'"@ + (match search {
        Some(s) => " AND tablename ILIKE '%"@ + quote_escaped(s@) + "%'"@,
        None => Seq::<char>::empty(),
    }) + " ORDER BY tablename"@ + paging_suffix(limit, offset)
}

/// Build the Postgres table-list query.
pub fn build_pg_tables_sql(search: &Option<String>, limit: Option<u32>, offset: Option<u32>) -> (r:
    String)
    ensures
        r@ == pg_tables_query(*search, limit, offset),
{
    proof {
        reveal_strlit(" AND tablename ILIKE '%");
        reveal_strlit("%'");
        reveal_strlit(" ORDER BY tablename");
    }
    let mut sql = "SELECT tablename FROM pg_tables WHERE schemaname = 'public'".to_owned();
    match search {
        Some(s) => {
            sql.append(" AND tablename ILIKE '%");
            let esc = escape_sql_quotes(s.as_str());
            sql.append(esc.as_str());
            sql.append("%'");
        },
        None => {},
    }
    sql.append(" ORDER BY tablename");
    append_paging(&mut sql, limit, offset);
    proof {
        assert(sql@ =~= pg_tables_query(*search, limit, offset));
    }
    sql
}

/// The MySQL table-list query: `SHOW TABLES`, as a LIKE pattern under a
/// search, paged.
pub open spec fn mysql_tables_query(
    search: Option<String>,
    limit: Option<u32>,
    offset: Option<u32>,
) -> Seq<char> {
    (match search {
        Some(s) => "SHOW TABLES LIKE '%"@ + quote_escaped(s@) + "%'"@,
        None => "SHOW TABLES"@,
    }) + paging_suffix(limit, offset)
}

/// Build the MySQL table-list query.
pub fn build_mysql_tables_sql(
    search: &Option<String>,
    limit: Option<u32>,
    offset: Option<u32>,
) -> (r: String)
    ensures
        r@ == mysql_tables_query(*search, limit, offset),
{
    proof {
        reveal_strlit("SHOW TABLES LIKE '%");
        reveal_strlit("%'");
    }
    let mut sql: String = match search {
        Some(s) => {
            let mut q = "SHOW TABLES LIKE '%".to_owned();
            let esc = escape_sql_quotes(s.as_str());
            q.append(esc.as_str());
            q.append("%'");
            q
        },
        None => "SHOW TABLES".to_owned(),
    };
    append_paging(&mut sql, limit, offset);
    proof {
        assert(sql@ =~= mysql_tables_query(*search, limit, offset));
    }
    sql
}

/// The SQLite table-list query: user tables, optionally filtered,
/// ordered, paged.
pub open spec fn sqlite_tables_query(
    search: Option<String>,
    limit: Option<u32>,
    offset: Option<u32>,
) -> Seq<char> {
    "SELECT name FROM sqlite_master WHERE type='table' AND name NOT LIKE 'sqlite_%'"@ + (
    match search {
        Some(s) => " AND name LIKE '%"@ + quote_escaped(s@) + "%'"@,
        None => Seq::<char>::empty(),
    }) + " ORDER BY name"@ + paging_suffix(limit, offset)
}

/// Build the SQLite table-list query.
pub fn build_sqlite_tables_sql(
    search: &Option<String>,
    limit: Option<u32>,
    offset: Option<u32>,
) -> (r: String)
    ensures
        r@ == sqlite_tables_query(*search, limit, offset),
{
    proof {
        reveal_strlit(" AND name LIKE '%");
        reveal_strlit("%'");
        reveal_strlit(" ORDER BY name");
    }
    let mut sql =
        "SELECT name FROM sqlite_master WHERE type='table' AND name NOT LIKE 'sqlite_%'".to_owned();
    match search {
        Some(s) => {
            sql.append(" AND name LIKE '%");
            let esc = escape_sql_quotes(s.as_str());
            sql.append(esc.as_str());
            sql.append("%'");
        },
        None => {},
    }
    sql.append(" ORDER BY name");
    append_paging(&mut sql, limit, offset);
    proof {
        assert(sql@ =~= sqlite_tables_query(*search, limit, offset));
    }
    sql
}

// ---------------------------------------------------------------------------
// In-memory search, sort and paging of name lists
// ---------------------------------------------------------------------------

/// The names that pass a search: all of them without one, else exactly
/// those whose lowercase folding contains the search's, in their
/// original order.
pub open spec fn filtered_names(names: Seq<String>, search: Option<String>) -> Seq<String>
    decreases names.len(),
{
    if names.len() == 0 {
        Seq::empty()
    } else {
        filtered_names(names.drop_last(), search) + (match search {
            None => seq![names.last()],
            Some(s) => if contains_ci(names.last()@, s@) {
                seq![names.last()]
            } else {
                Seq::<String>::empty()
            },
        })
    }
}

/// Keep the names that pass a case-insensitive substring search.
fn filter_names(names: Vec<String>, search: &Option<String>) -> (r: Vec<String>)
    ensures
        r@ == filtered_names(names@, *search),
{
    let ghost orig = names@;
    let mut src = names;
    let mut out: Vec<String> = Vec::new();
    proof {
        assert(filtered_names(src@, *search) + out@ =~= filtered_names(orig, *search));
    }
    while src.len() > 0
        invariant
            filtered_names(src@, *search) + out@ == filtered_names(orig, *search),
        decreases src.len(),
    {
        let ghost pre = src@;
        let x = match src.pop() {
            Some(x) => x,
            None => vstd::pervasive::unreached(),
        };
        let keep: bool = match search {
            None => true,
            Some(s) => str_contains_ci(x.as_str(), s.as_str()),
        };
        proof {
            assert(pre.drop_last() =~= src@);
        }
        if keep {
            out.insert(0, x);
            proof {
                assert(filtered_names(pre, *search) =~= filtered_names(src@, *search) + seq![x]);
                assert(filtered_names(src@, *search) + out@ =~= filtered_names(orig, *search));
            }
        } else {
            proof {
                assert(filtered_names(pre, *search) =~= filtered_names(src@, *search));
            }
        }
    }
    proof {
        assert(filtered_names(src@, *search) + out@ =~= out@);
    }
    out
}

/// Where a page starts in a list of the given length.
pub open spec fn page_start(len: int, offset: Option<u32>) -> int {
    match offset {
        Some(o) => if o as int <= len {
            o as int
        } else {
            len
        },
        None => 0,
    }
}

/// Where a page ends in a list of the given length.
pub open spec fn page_end(len: int, start: int, limit: Option<u32>) -> int {
    match limit {
        Some(l) => if start + l as int <= len {
            start + l as int
        } else {
            len
        },
        None => len,
    }
}

/// Cut one page out of a list of names.
#[verifier::loop_isolation(false)]
fn page_names(v: &Vec<String>, limit: Option<u32>, offset: Option<u32>) -> (r: Vec<String>)
    ensures
        views(r@) == views(v@).subrange(
            page_start(v@.len() as int, offset),
            page_end(v@.len() as int, page_start(v@.len() as int, offset), limit),
        ),
{
    let len = v.len();
    let start: usize = match offset {
        Some(o) => if o as usize <= len {
            o as usize
        } else {
            len
        },
        None => 0,
    };
    let end: usize = match limit {
        Some(l) => if l as usize <= len - start {
            start + l as usize
        } else {
            len
        },
        None => len,
    };
    let mut out: Vec<String> = Vec::new();
    proof {
        assert(views(out@) =~= views(v@).subrange(start as int, start as int));
    }
    for i in start..end
        invariant
            start <= end <= v@.len(),
            views(out@) == views(v@).subrange(start as int, i as int),
    {
        push_string(&mut out, v[i].clone());
        proof {
            assert(views(out@) =~= views(v@).subrange(start as int, i + 1));
        }
    }
    out
}

/// Search, sort and page a list of names in memory: the path the
/// engines without a paging catalog take (a Redis key scan, a MongoDB
/// collection listing). Every returned name passes the search; the page
/// is cut from the matching names in lexicographic order.
pub fn filter_and_page_names(
    names: Vec<String>,
    search: &Option<String>,
    limit: Option<u32>,
    offset: Option<u32>,
) -> (r: Vec<String>)
    ensures
        strings_sorted(r@),
        exists|all: Seq<String>|
            {
                &&& (#[trigger] all.to_multiset()) == filtered_names(names@, *search).to_multiset()
                &&& strings_sorted(all)
                &&& views(r@) == views(all).subrange(
                    page_start(all.len() as int, offset),
                    page_end(all.len() as int, page_start(all.len() as int, offset), limit),
                )
            },
{
    let kept = filter_names(names, search);
    let sorted = sort_strings(kept);
    let page = page_names(&sorted, limit, offset);
    proof {
        let all = sorted@;
        let lo = page_start(all.len() as int, offset);
        let hi = page_end(all.len() as int, lo, limit);
        assert(views(page@) == views(all).subrange(lo, hi));
        assert forall|i: int, j: int| 0 <= i < j < page@.len() implies chars_le(
            #[trigger] page@[i]@,
            #[trigger] page@[j]@,
        ) by {
            assert(page@[i]@ == views(page@)[i]);
            assert(page@[j]@ == views(page@)[j]);
            assert(views(all)[lo + i] == all[lo + i]@);
            assert(views(all)[lo + j] == all[lo + j]@);
            assert(chars_le(all[lo + i]@, all[lo + j]@));
        }
    }
    page
}

// ---------------------------------------------------------------------------
// The schemaless document model forced into a tabular page
// ---------------------------------------------------------------------------

/// A document modeled as its key-value pairs, in document order.
pub open spec fn all_keys(docs: Seq<Vec<(String, JsonVal)>>) -> Set<Seq<char>> {
    Set::new(
        |k: Seq<char>|
            exists|i: int, j: int|
                0 <= i < docs.len() && 0 <= j < docs[i]@.len() && (#[trigger] docs[i]@[j]).0@
                    == k,
    )
}

/// Whether a name list is strictly sorted: ascending with no repeated
/// text.
pub open spec fn sorted_unique(s: Seq<String>) -> bool {
    forall|i: int, j: int|
        0 <= i < j < s.len() ==> chars_le(#[trigger] s[i]@, #[trigger] s[j]@) && s[i]@ != s[j]@
}

/// Whether some name of the list has the given text.
pub open spec fn has_view(s: Seq<String>, k: Seq<char>) -> bool {
    exists|i: int| 0 <= i < s.len() && (#[trigger] s[i])@ == k
}

/// Whether position `p` of the list holds a name below `x` and not
/// equal to it.
fn below_and_ne(v: &Vec<String>, p: usize, x: &str) -> (r: bool)
    requires
        p <= v@.len(),
    ensures
        r == (p < v@.len() && chars_le(v@[p as int]@, x@) && v@[p as int]@ != x@),
{
    if p < v.len() {
        crate::text::str_le(v[p].as_str(), x) && !crate::text::str_eq(v[p].as_str(), x)
    } else {
        false
    }
}

/// Insert a name into a strictly sorted list, keeping it strictly
/// sorted; a name already present is dropped.
#[verifier::loop_isolation(false)]
fn insert_sorted_unique(v: &mut Vec<String>, x: String)
    requires
        sorted_unique(old(v)@),
    ensures
        sorted_unique(final (v)@),
        forall|k: Seq<char>| has_view(final (v)@, k) <==> has_view(old(v)@, k) || k == x@,
{
    let mut p: usize = 0;
    while below_and_ne(v, p, x.as_str())
        invariant
            p <= v@.len(),
            forall|k: int| 0 <= k < p ==> chars_le((#[trigger] v@[k])@, x@) && v@[k]@ != x@,
        decreases v@.len() - p,
    {
        let bound = v.len();
        proof {
            assert(p < bound);
        }
        p = p + 1;
    }
    if p < v.len() && crate::text::str_eq(v[p].as_str(), x.as_str()) {
        proof {
            assert(v@[p as int]@ == x@);
            assert forall|k: Seq<char>| has_view(v@, k) <==> has_view(old(v)@, k) || k == x@ by {
                if k == x@ {
                    assert(v@[p as int]@ == k);
                }
            }
        }
        return ;
    }
    let ghost pre = v@;
    proof {
        if p < pre.len() {
            crate::text::lemma_chars_le_total(pre[p as int]@, x@);
            assert(chars_le(x@, pre[p as int]@));
            assert(pre[p as int]@ != x@);
        }
    }
    v.insert(p, x);
    proof {
        pre.insert_ensures(p as int, x);
        assert forall|i: int, j: int| 0 <= i < j < v@.len() implies chars_le(
            #[trigger] v@[i]@,
            #[trigger] v@[j]@,
        ) && v@[i]@ != v@[j]@ by {
            let oi = if i < p as int {
                i
            } else {
                i - 1
            };
            let oj = if j < p as int {
                j
            } else {
                j - 1
            };
            if i == p as int {
                assert(v@[i] == x);
                assert(v@[j] == pre[oj]);
                assert(chars_le(x@, pre[p as int]@));
                if oj > p as int {
                    crate::text::lemma_chars_le_trans(x@, pre[p as int]@, pre[oj]@);
                    if pre[oj]@ == x@ {
                        assert(chars_le(pre[p as int]@, pre[oj]@));
                        assert(false);
                    }
                }
            } else if j == p as int {
                assert(v@[j] == x);
                assert(v@[i] == pre[oi]);
                assert(oi < p as int);
            } else {
                assert(v@[i] == pre[oi]);
                assert(v@[j] == pre[oj]);
            }
        }
        assert forall|k: Seq<char>| has_view(v@, k) <==> has_view(pre, k) || k == x@ by {
            if has_view(v@, k) {
                let i = choose|i: int| 0 <= i < v@.len() && (#[trigger] v@[i])@ == k;
                if i == p as int {
                } else {
                    let oi = if i < p as int {
                        i
                    } else {
                        i - 1
                    };
                    assert(pre[oi]@ == k);
                }
            }
            if has_view(pre, k) {
                let i = choose|i: int| 0 <= i < pre.len() && (#[trigger] pre[i])@ == k;
                let ni = if i < p as int {
                    i
                } else {
                    i + 1
                };
                assert(v@[ni]@ == k);
            }
            if k == x@ {
                assert(v@[p as int]@ == k);
            }
        }
    }
}

/// The sorted union of the keys of a page of documents, `_id` moved to
/// the front when any document carries it: the column set a schemaless
/// collection reports, a per-page approximation rather than a schema.
#[verifier::loop_isolation(false)]
#[verifier::rlimit(60)]
pub fn mongo_column_names(docs: &Vec<Vec<(String, JsonVal)>>) -> (r: Vec<String>)
    ensures
        forall|i: int| 0 <= i < r@.len() ==> all_keys(docs@).contains((#[trigger] r@[i])@),
        forall|k: Seq<char>| all_keys(docs@).contains(k) ==> has_view(r@, k),
        forall|i: int, j: int| 0 <= i < j < r@.len() ==> (#[trigger] r@[i])@ != (#[trigger] r@[j])@,
        all_keys(docs@).contains("_id"@) ==> r@.len() > 0 && r@[0]@ == "_id"@ && sorted_unique(
            r@.skip(1),
        ),
        !all_keys(docs@).contains("_id"@) ==> sorted_unique(r@),
{
    let mut keys: Vec<String> = Vec::new();
    for i in 0..docs.len()
        invariant
            sorted_unique(keys@),
            forall|k: int| 0 <= k < keys@.len() ==> all_keys(docs@).contains((#[trigger] keys@[k])@),
            forall|a: int, b: int|
                0 <= a < i && 0 <= b < docs@[a]@.len() ==> has_view(
                    keys@,
                    (#[trigger] docs@[a]@[b]).0@,
                ),
    {
        let doc = &docs[i];
        for j in 0..doc.len()
            invariant
                sorted_unique(keys@),
                forall|k: int|
                    0 <= k < keys@.len() ==> all_keys(docs@).contains((#[trigger] keys@[k])@),
                forall|a: int, b: int|
                    0 <= a < i && 0 <= b < docs@[a]@.len() ==> has_view(
                        keys@,
                        (#[trigger] docs@[a]@[b]).0@,
                    ),
                forall|b: int| 0 <= b < j ==> has_view(keys@, (#[trigger] doc@[b]).0@),
        {
            let ghost pre = keys@;
            insert_sorted_unique(&mut keys, doc[j].0.clone());
            proof {
                assert(all_keys(docs@).contains(doc@[j as int].0@));
                assert forall|k: int| 0 <= k < keys@.len() implies all_keys(docs@).contains(
                    (#[trigger] keys@[k])@,
                ) by {
                    assert(has_view(keys@, keys@[k]@));
                    if !has_view(pre, keys@[k]@) {
                        assert(keys@[k]@ == doc@[j as int].0@);
                    } else {
                        let a = choose|a: int|
                            0 <= a < pre.len() && (#[trigger] pre[a])@ == keys@[k]@;
                    }
                }
            }
        }
    }
    proof {
        assert forall|k: Seq<char>| all_keys(docs@).contains(k) implies has_view(keys@, k) by {
            let (i, j): (int, int) = choose|i: int, j: int|
                0 <= i < docs@.len() && 0 <= j < docs@[i]@.len() && (#[trigger] docs@[i]@[j]).0@
                    == k;
        }
    }
    match crate::table_data::find_name(&keys, "_id") {
        Some(idx) => {
            proof {
                reveal_strlit("_id");
                assert(crate::text::views(keys@)[idx as int] == keys@[idx as int]@);
            }
            let ghost pre = keys@;
            proof {
                crate::table_data::lemma_name_index_props(crate::text::views(pre), "_id"@);
                assert(pre[idx as int]@ == "_id"@);
                pre.remove_ensures(idx as int);
            }
            let id_key = keys.remove(idx);
            let ghost rem = keys@;
            proof {
                rem.insert_ensures(0, id_key);
            }
            keys.insert(0, id_key);
            proof {
                assert(keys@[0]@ == "_id"@);
                assert forall|i: int, j: int| 0 <= i < j < keys@.skip(1).len() implies chars_le(
                    #[trigger] keys@.skip(1)[i]@,
                    #[trigger] keys@.skip(1)[j]@,
                ) && keys@.skip(1)[i]@ != keys@.skip(1)[j]@ by {
                    let oi = if i < idx as int {
                        i
                    } else {
                        i + 1
                    };
                    let oj = if j < idx as int {
                        j
                    } else {
                        j + 1
                    };
                    assert(keys@.skip(1)[i] == pre[oi]);
                    assert(keys@.skip(1)[j] == pre[oj]);
                }
                assert forall|i: int, j: int| 0 <= i < j < keys@.len() implies (
                #[trigger] keys@[i])@ != (#[trigger] keys@[j])@ by {
                    if i == 0 {
                        let oj = if j - 1 < idx as int {
                            j - 1
                        } else {
                            j
                        };
                        assert(keys@[j] == pre[oj]);
                        assert(pre[idx as int]@ == "_id"@);
                        if oj != idx as int {
                            if pre[oj]@ == pre[idx as int]@ {
                                assert(false);
                            }
                        } else {
                            assert(j - 1 < idx as int && j > idx as int);
                            assert(false);
                        }
                    } else {
                        let oi = if i - 1 < idx as int {
                            i - 1
                        } else {
                            i
                        };
                        let oj = if j - 1 < idx as int {
                            j - 1
                        } else {
                            j
                        };
                        assert(keys@[i] == pre[oi]);
                        assert(keys@[j] == pre[oj]);
                    }
                }
                assert forall|i: int| 0 <= i < keys@.len() implies all_keys(docs@).contains(
                    (#[trigger] keys@[i])@,
                ) by {
                    let oi = if i == 0 {
                        idx as int
                    } else if i - 1 < idx as int {
                        i - 1
                    } else {
                        i
                    };
                    assert(keys@[i] == pre[oi]);
                }
                assert forall|k: Seq<char>| all_keys(docs@).contains(k) implies has_view(
                    keys@,
                    k,
                ) by {
                    assert(has_view(pre, k));
                    let i = choose|i: int| 0 <= i < pre.len() && (#[trigger] pre[i])@ == k;
                    let ni = if i == idx as int {
                        0int
                    } else if i < idx as int {
                        i + 1
                    } else {
                        i
                    };
                    assert(keys@[ni]@ == k);
                }
            }
            keys
        },
        None => {
            proof {
                reveal_strlit("_id");
                if all_keys(docs@).contains("_id"@) {
                    assert(has_view(keys@, "_id"@));
                    let i = choose|i: int|
                        0 <= i < keys@.len() && (#[trigger] keys@[i])@ == "_id"@;
                    assert(crate::text::views(keys@)[i] == "_id"@);
                    crate::table_data::lemma_name_index_present(
                        crate::text::views(keys@),
                        "_id"@,
                        i,
                    );
                    assert(false);
                }
            }
            keys
        },
    }
}

/// The value a document holds under a key: the first pair's value, or
/// null when the key is absent.
pub open spec fn doc_lookup(doc: Seq<(String, JsonVal)>, key: Seq<char>) -> JsonVal
    decreases doc.len(),
{
    if doc.len() == 0 {
        JsonVal::Null
    } else if doc.first().0@ == key {
        doc.first().1
    } else {
        doc_lookup(doc.drop_first(), key)
    }
}

/// Look a key up in one document.
#[verifier::loop_isolation(false)]
fn doc_value(doc: &Vec<(String, JsonVal)>, key: &str) -> (r: JsonVal)
    ensures
        jv_like(r, doc_lookup(doc@, key@)),
{
    proof {
        assert(doc@.skip(0) =~= doc@);
    }
    for p in 0..doc.len()
        invariant
            doc_lookup(doc@, key@) == doc_lookup(doc@.skip(p as int), key@),
    {
        proof {
            assert(doc@.skip(p as int).first() == doc@[p as int]);
            assert(doc@.skip(p as int).drop_first() =~= doc@.skip(p + 1));
        }
        if crate::text::str_eq(doc[p].0.as_str(), key) {
            return crate::values::clone_value(&doc[p].1);
        }
    }
    proof {
        assert(doc@.skip(doc@.len() as int).len() == 0);
    }
    JsonVal::Null
}

/// Turn a page of documents into rows under a fixed column list: each
/// cell the document's value for that column, null where a document
/// lacks the key.
#[verifier::loop_isolation(false)]
pub fn mongo_rows(docs: &Vec<Vec<(String, JsonVal)>>, columns: &Vec<String>) -> (r: Vec<
    Vec<JsonVal>,
>)
    ensures
        r@.len() == docs@.len(),
        forall|i: int| 0 <= i < r@.len() ==> (#[trigger] r@[i])@.len() == columns@.len(),
        forall|i: int, j: int|
            0 <= i < r@.len() && 0 <= j < r@[i]@.len() ==> jv_like(
                #[trigger] r@[i]@[j],
                doc_lookup(docs@[i]@, columns@[j]@),
            ),
{
    let mut out: Vec<Vec<JsonVal>> = Vec::new();
    for i in 0..docs.len()
        invariant
            out@.len() == i,
            forall|k: int| 0 <= k < i ==> (#[trigger] out@[k])@.len() == columns@.len(),
            forall|k: int, j: int|
                0 <= k < i && 0 <= j < out@[k]@.len() ==> jv_like(
                    #[trigger] out@[k]@[j],
                    doc_lookup(docs@[k]@, columns@[j]@),
                ),
    {
        let mut row: Vec<JsonVal> = Vec::new();
        for j in 0..columns.len()
            invariant
                row@.len() == j,
                forall|l: int|
                    0 <= l < j ==> jv_like(
                        #[trigger] row@[l],
                        doc_lookup(docs@[i as int]@, columns@[l]@),
                    ),
        {
            row.push(doc_value(&docs[i], columns[j].as_str()));
        }
        out.push(row);
    }
    out
}

// ---------------------------------------------------------------------------
// Mapping raw catalog rows into the column and foreign-key models
// ---------------------------------------------------------------------------

/// A Postgres information-schema column row turned into `ColumnInfo`:
/// nullability arrives as `YES`/`NO` text.
pub fn column_from_pg_row(
    name: String,
    data_type: String,
    nullable: String,
    max_length: Option<i32>,
) -> (r: ColumnInfo)
    ensures
        r.name == name,
        r.data_type == data_type,
        r.nullable == (nullable@ == "YES"@),
        r.max_length == max_length,
        r.is_primary_key == false,
{
    let is_nullable = crate::text::str_eq(nullable.as_str(), "YES");
    ColumnInfo { name, data_type, nullable: is_nullable, max_length, is_primary_key: false }
}

/// A MySQL information-schema column row turned into `ColumnInfo`: the
/// length arrives as a 64-bit value and is narrowed as the original
/// model holds it.
pub fn column_from_mysql_row(
    name: String,
    data_type: String,
    nullable: String,
    max_length: Option<i64>,
) -> (r: ColumnInfo)
    ensures
        r.name == name,
        r.data_type == data_type,
        r.nullable == (nullable@ == "YES"@),
        (match (r.max_length, max_length) {
            (Some(a), Some(b)) => a as int == b as i32 as int,
            (None, None) => true,
            _ => false,
        }),
        r.is_primary_key == false,
{
    let is_nullable = crate::text::str_eq(nullable.as_str(), "YES");
    let narrowed: Option<i32> = match max_length {
        Some(l) => Some(l as i32),
        None => None,
    };
    ColumnInfo { name, data_type, nullable: is_nullable, max_length: narrowed, is_primary_key: false }
}

/// A SQLite `PRAGMA table_info` row turned into `ColumnInfo`: `notnull`
/// zero means nullable, `pk` one marks the primary key.
pub fn column_from_sqlite_row(name: String, data_type: String, notnull: i32, pk: i32) -> (r:
    ColumnInfo)
    ensures
        r.name == name,
        r.data_type == data_type,
        r.nullable == (notnull == 0),
        r.max_length is None,
        r.is_primary_key == (pk == 1),
{
    ColumnInfo {
        name,
        data_type,
        nullable: notnull == 0,
        max_length: None,
        is_primary_key: pk == 1,
    }
}

/// The one synthetic column reported for a Redis key space.
pub fn redis_columns() -> (r: Vec<ColumnInfo>)
    ensures
        r@.len() == 1,
        r@[0].name@ == "value"@,
        r@[0].data_type@ == "string"@,
        r@[0].nullable == true,
        r@[0].max_length is None,
        r@[0].is_primary_key == false,
{
    let mut v: Vec<ColumnInfo> = Vec::new();
    v.push(
        ColumnInfo {
            name: "value".to_owned(),
            data_type: "string".to_owned(),
            nullable: true,
            max_length: None,
            is_primary_key: false,
        },
    );
    v
}

/// The one fixed column a schemaless MongoDB collection reports: the
/// `_id` key; real field names are inferred later from sampled
/// documents.
pub fn mongo_columns_schema() -> (r: Vec<ColumnInfo>)
    ensures
        r@.len() == 1,
        r@[0].name@ == "_id"@,
        r@[0].data_type@ == "ObjectId"@,
        r@[0].nullable == false,
        r@[0].max_length is None,
        r@[0].is_primary_key == true,
{
    let mut v: Vec<ColumnInfo> = Vec::new();
    v.push(
        ColumnInfo {
            name: "_id".to_owned(),
            data_type: "ObjectId".to_owned(),
            nullable: false,
            max_length: None,
            is_primary_key: true,
        },
    );
    v
}

/// A foreign-key catalog row (Postgres and MySQL share the shape)
/// turned into `ForeignKeyInfo`.
pub fn foreign_key_from_row(
    constraint_name: String,
    column_name: String,
    referenced_table: String,
    referenced_column: String,
) -> (r: ForeignKeyInfo)
    ensures
        r.constraint_name == constraint_name,
        r.column_name == column_name,
        r.referenced_table == referenced_table,
        r.referenced_column == referenced_column,
{
    ForeignKeyInfo { constraint_name, column_name, referenced_table, referenced_column }
}

/// A SQLite `PRAGMA foreign_key_list` row turned into `ForeignKeyInfo`:
/// the constraint is named `fk_<id>` after the row id.
pub fn foreign_key_from_sqlite_row(id: i32, table: String, from: String, to: String) -> (r:
    ForeignKeyInfo)
    ensures
        r.constraint_name@ == "fk_"@ + idec(id as int),
        r.column_name == from,
        r.referenced_table == table,
        r.referenced_column == to,
{
    proof {
        reveal_strlit("fk_");
    }
    let mut constraint_name = "fk_".to_owned();
    let digits = i32_to_dec(id);
    constraint_name.append(digits.as_str());
    proof {
        assert(constraint_name@ =~= "fk_"@ + idec(id as int));
    }
    ForeignKeyInfo { constraint_name, column_name: from, referenced_table: table, referenced_column: to }
}

} // verus!
