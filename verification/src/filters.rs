//! Filter types and SQL fragment building for table data: WHERE clauses
//! with positional placeholders, cursor conditions, ordering, pagination
//! and column projection.

use vstd::prelude::*;
use crate::text::{joined, udec, idec, usize_to_dec, i32_to_dec, join_strings, views};
use crate::values::{JsonVal, JsonItem, param_text, item_param_text, value_param_text,
    item_param_text_of};

verus! {

/// Available filter operators.
#[derive(Debug, Clone, Copy, PartialEq, Eq, Structural)]
pub enum FilterOperator {
    /// Exact match: column = value.
    Equals,
    /// Not equal: column != value.
    NotEquals,
    /// Case-insensitive contains: column ILIKE '%value%'.
    Like,
    /// Null check: column IS NULL.
    IsNull,
    /// Not-null check: column IS NOT NULL.
    IsNotNull,
    /// List match: column IN (v1, v2, ...).
    In,
    /// Greater than: column > value.
    GreaterThan,
    /// Less than: column < value.
    LessThan,
}

/// A single column filter.
#[derive(Debug, Clone)]
pub struct ColumnFilter {
    pub column: String,
    pub operator: FilterOperator,
    pub value: Option<JsonVal>,
}

/// Sort direction.
#[derive(Debug, Clone, Copy, PartialEq, Eq, Structural)]
pub enum SortDirection {
    Asc,
    Desc,
}

/// Sort configuration for a column.
#[derive(Debug, Clone)]
pub struct SortConfig {
    pub column: String,
    pub direction: SortDirection,
}

/// Logic for combining multiple filters.
#[derive(Debug, Clone, Copy, PartialEq, Eq, Structural)]
pub enum FilterLogic {
    And,
    Or,
}

impl Default for FilterLogic {
    fn default() -> (r: Self)
        ensures
            r == FilterLogic::And,
    {
        FilterLogic::And
    }
}

/// Direction for cursor-based pagination: `After` pages forward past the
/// cursor value, `Before` pages backward.
#[derive(Debug, Clone, Copy, PartialEq, Eq, Structural)]
pub enum CursorDirection {
    After,
    Before,
}

impl Default for CursorDirection {
    fn default() -> (r: Self)
        ensures
            r == CursorDirection::After,
    {
        CursorDirection::After
    }
}

/// Cursor configuration for keyset pagination: a bound on an indexed
/// column's last-seen value, far cheaper than OFFSET on deep pages.
#[derive(Debug, Clone)]
pub struct CursorConfig {
    /// Column the cursor runs on (typically the primary key).
    pub column: String,
    pub direction: CursorDirection,
    /// The last-seen value: the cursor position.
    pub value: JsonVal,
}

/// Complete query options for table data fetching.
#[derive(Debug, Clone)]
pub struct QueryOptions {
    pub filters: Vec<ColumnFilter>,
    pub filter_logic: FilterLogic,
    pub sort: Option<SortConfig>,
    pub limit: i32,
    pub offset: i32,
    /// When set, `offset` is ignored and keyset pagination is used.
    pub cursor: Option<CursorConfig>,
    /// Skip the COUNT query; the response then carries no total.
    pub skip_count: bool,
    /// Columns to select; all columns when absent or empty.
    pub selected_columns: Option<Vec<String>>,
}

/// The page size used when none is given.
pub fn default_limit() -> (r: i32)
    ensures
        r == 100,
{
    100
}

impl Default for QueryOptions {
    fn default() -> (r: Self)
        ensures
            r.filters@.len() == 0,
            r.filter_logic == FilterLogic::And,
            r.sort is None,
            r.limit == 100,
            r.offset == 0,
            r.cursor is None,
            r.skip_count == false,
            r.selected_columns is None,
    {
        QueryOptions {
            filters: Vec::new(),
            filter_logic: FilterLogic::And,
            sort: None,
            limit: 100,
            offset: 0,
            cursor: None,
            skip_count: false,
            selected_columns: None,
        }
    }
}

// ---------------------------------------------------------------------------
// Specification of the compiled fragments
// ---------------------------------------------------------------------------

/// An identifier wrapped in double quotes.
pub open spec fn qident(name: Seq<char>) -> Seq<char> {
    seq!['"'] + name + seq!['"']
}

/// The positional placeholder `$k`.
pub open spec fn placeholder(k: int) -> Seq<char> {
    seq!['$'] + udec(k as nat)
}

/// The placeholders `$start` through `$start+n-1`.
pub open spec fn placeholder_run(start: int, n: int) -> Seq<Seq<char>> {
    Seq::new(n as nat, |i: int| placeholder(start + i))
}

/// The parameter texts of the elements of an array value, in order.
pub open spec fn item_params(items: Seq<JsonItem>) -> Seq<Seq<char>> {
    items.map_values(|it: JsonItem| item_param_text(it))
}

/// The selected columns, each wrapped in double quotes.
pub open spec fn qidents(cols: Seq<String>) -> Seq<Seq<char>> {
    cols.map_values(|c: String| qident(c@))
}

pub proof fn lemma_item_params_push(items: Seq<JsonItem>, x: JsonItem)
    ensures
        item_params(items.push(x)) == item_params(items).push(item_param_text(x)),
{
    let l = item_params(items.push(x));
    let r = item_params(items).push(item_param_text(x));
    assert forall|k: int| 0 <= k < l.len() implies l[k] == r[k] by {
        assert(l[k] == item_param_text(items.push(x)[k]));
        if k < items.len() {
            assert(r[k] == item_params(items)[k]);
            assert(item_params(items)[k] == item_param_text(items[k]));
        } else {
            assert(r[k] == item_param_text(x));
        }
    }
    assert(l =~= r);
}

pub proof fn lemma_qidents_push(cols: Seq<String>, x: String)
    ensures
        qidents(cols.push(x)) == qidents(cols).push(qident(x@)),
{
    let l = qidents(cols.push(x));
    let r = qidents(cols).push(qident(x@));
    assert forall|k: int| 0 <= k < l.len() implies l[k] == r[k] by {
        assert(l[k] == qident(cols.push(x)[k]@));
        if k < cols.len() {
            assert(r[k] == qidents(cols)[k]);
            assert(qidents(cols)[k] == qident(cols[k]@));
        } else {
            assert(r[k] == qident(x@));
        }
    }
    assert(l =~= r);
}

pub proof fn lemma_placeholder_run_snoc(start: int, n: int)
    requires
        n >= 0,
    ensures
        placeholder_run(start, n + 1) == placeholder_run(start, n).push(placeholder(start + n)),
{
    let l = placeholder_run(start, n + 1);
    let r = placeholder_run(start, n).push(placeholder(start + n));
    assert forall|k: int| 0 <= k < l.len() implies l[k] == r[k] by {
        if k < n {
            assert(r[k] == placeholder_run(start, n)[k]);
        }
    }
    assert(l =~= r);
}

/// The parameter text a Like filter binds: the value wrapped in `%`,
/// non-string values standing in as empty.
pub open spec fn like_param(v: JsonVal) -> Seq<char> {
    seq!['%'] + (match v {
        JsonVal::Str(s) => s@,
        _ => Seq::<char>::empty(),
    }) + seq!['%']
}

/// What one filter compiles to, given `k` parameters already bound:
/// the condition text and the parameters it binds, or nothing when the
/// filter lacks the value its operator needs.
pub open spec fn filter_fragment(f: ColumnFilter, k: int) -> Option<(Seq<char>, Seq<Seq<char>>)> {
    match f.operator {
        FilterOperator::Equals => match f.value {
            Some(v) => Some((qident(f.column@) + " = "@ + placeholder(k + 1), seq![param_text(v)])),
            None => None,
        },
        FilterOperator::NotEquals => match f.value {
            Some(v) => Some(
                (qident(f.column@) + " != "@ + placeholder(k + 1), seq![param_text(v)]),
            ),
            None => None,
        },
        FilterOperator::Like => match f.value {
            Some(v) => Some(
                (qident(f.column@) + " ILIKE "@ + placeholder(k + 1), seq![like_param(v)]),
            ),
            None => None,
        },
        FilterOperator::IsNull => Some((qident(f.column@) + " IS NULL"@, Seq::empty())),
        FilterOperator::IsNotNull => Some((qident(f.column@) + " IS NOT NULL"@, Seq::empty())),
        FilterOperator::In => match f.value {
            Some(JsonVal::Arr(items, _)) => if items@.len() > 0 {
                Some(
                    (
                        qident(f.column@) + " IN ("@ + joined(
                            placeholder_run(k + 1, items@.len() as int),
                            ", "@,
                        ) + ")"@,
                        item_params(items@),
                    ),
                )
            } else {
                None
            },
            _ => None,
        },
        FilterOperator::GreaterThan => match f.value {
            Some(v) => Some((qident(f.column@) + " > "@ + placeholder(k + 1), seq![param_text(v)])),
            None => None,
        },
        FilterOperator::LessThan => match f.value {
            Some(v) => Some((qident(f.column@) + " < "@ + placeholder(k + 1), seq![param_text(v)])),
            None => None,
        },
    }
}

/// The condition texts and bound parameters of a filter list, numbered
/// in emission order.
pub open spec fn compiled_filters(filters: Seq<ColumnFilter>) -> (Seq<Seq<char>>, Seq<Seq<char>>)
    decreases filters.len(),
{
    if filters.len() == 0 {
        (Seq::empty(), Seq::empty())
    } else {
        let (cs, ps) = compiled_filters(filters.drop_last());
        match filter_fragment(filters.last(), ps.len() as int) {
            None => (cs, ps),
            Some((c, qs)) => (cs.push(c), ps + qs),
        }
    }
}

/// The joiner text of a filter logic.
pub open spec fn logic_joiner(logic: FilterLogic) -> Seq<char> {
    match logic {
        FilterLogic::And => " AND "@,
        FilterLogic::Or => " OR "@,
    }
}

/// The full WHERE clause of a filter list: empty when no filter
/// resolves, else ` WHERE ` and the conditions joined uniformly.
pub open spec fn where_clause_text(filters: Seq<ColumnFilter>, logic: FilterLogic) -> Seq<char> {
    let (cs, ps) = compiled_filters(filters);
    if cs.len() == 0 {
        Seq::empty()
    } else {
        " WHERE "@ + joined(cs, logic_joiner(logic))
    }
}

/// The parameters the WHERE clause binds, in placeholder order.
pub open spec fn where_params(filters: Seq<ColumnFilter>) -> Seq<Seq<char>> {
    compiled_filters(filters).1
}


// ---------------------------------------------------------------------------
// Laws of the compiled WHERE clause
// ---------------------------------------------------------------------------

/// Whether a filter compiles to a condition at all: its operator either
/// needs no value, or has one of the right shape.
pub open spec fn resolvable(f: ColumnFilter) -> bool {
    filter_fragment(f, 0) is Some
}

/// How many filters of a list resolve to a condition.
pub open spec fn resolvable_count(filters: Seq<ColumnFilter>) -> int
    decreases filters.len(),
{
    if filters.len() == 0 {
        0
    } else {
        resolvable_count(filters.drop_last()) + if resolvable(filters.last()) {
            1int
        } else {
            0int
        }
    }
}

/// How many parameters one filter binds.
pub open spec fn fragment_param_count(f: ColumnFilter) -> int {
    match filter_fragment(f, 0) {
        Some(p) => p.1.len() as int,
        None => 0,
    }
}

/// How many parameters a filter list binds in all.
pub open spec fn total_param_count(filters: Seq<ColumnFilter>) -> int
    decreases filters.len(),
{
    if filters.len() == 0 {
        0
    } else {
        total_param_count(filters.drop_last()) + fragment_param_count(filters.last())
    }
}

/// Whether a filter resolves, and how many parameters it binds, do not
/// depend on the placeholder numbering it starts at.
pub proof fn lemma_fragment_numbering_independent(f: ColumnFilter, k: int)
    ensures
        (filter_fragment(f, k) is Some) == (filter_fragment(f, 0) is Some),
        filter_fragment(f, k) is Some ==> filter_fragment(f, k).unwrap().1
            == filter_fragment(f, 0).unwrap().1,
{
}

/// Law: every filter that resolves contributes exactly one condition,
/// and the parameter list is exactly what the resolvable filters bind:
/// one placeholder per bound parameter, in emission order.
pub proof fn lemma_where_clause_counts(filters: Seq<ColumnFilter>)
    ensures
        compiled_filters(filters).0.len() == resolvable_count(filters),
        compiled_filters(filters).1.len() == total_param_count(filters),
    decreases filters.len(),
{
    if filters.len() > 0 {
        lemma_where_clause_counts(filters.drop_last());
        lemma_fragment_numbering_independent(
            filters.last(),
            compiled_filters(filters.drop_last()).1.len() as int,
        );
    }
}

/// Law: a filter list with at least one resolvable filter compiles to
/// ` WHERE ` and the conditions joined uniformly by the configured
/// logic; with none, the clause is empty.
pub proof fn lemma_where_clause_shape(filters: Seq<ColumnFilter>, logic: FilterLogic)
    ensures
        resolvable_count(filters) > 0 ==> where_clause_text(filters, logic) == " WHERE "@ + joined(
            compiled_filters(filters).0,
            logic_joiner(logic),
        ),
        resolvable_count(filters) == 0 ==> where_clause_text(filters, logic)
            == Seq::<char>::empty(),
{
    lemma_where_clause_counts(filters);
}

/// Law: a lone Equals filter with a present value compiles to
/// ` WHERE "col" = $1`, with that value as the sole bound parameter.
pub proof fn lemma_single_equals_filter(f: ColumnFilter, logic: FilterLogic, v: JsonVal)
    requires
        f.operator == FilterOperator::Equals,
        f.value == Some(v),
    ensures
        where_clause_text(seq![f], logic) == " WHERE \""@ + f.column@ + "\" = $1"@,
        where_params(seq![f]) == seq![param_text(v)],
{
    reveal_strlit(" WHERE ");
    reveal_strlit(" WHERE \"");
    reveal_strlit("\" = $1");
    reveal_strlit(" = ");
    let fs = seq![f];
    assert(fs.drop_last() =~= Seq::<ColumnFilter>::empty());
    assert(fs.last() == f);
    assert(compiled_filters(Seq::<ColumnFilter>::empty()) == (
        Seq::<Seq<char>>::empty(),
        Seq::<Seq<char>>::empty(),
    ));
    let frag = filter_fragment(f, 0);
    let cond = frag.unwrap().0;
    assert(compiled_filters(fs).0 =~= seq![cond]);
    assert(compiled_filters(fs).1 =~= seq![param_text(v)]);
    assert(joined(seq![cond], logic_joiner(logic)) == cond);
    assert(udec(1) =~= seq!['1']);
    assert(where_clause_text(fs, logic) =~= " WHERE \""@ + f.column@ + "\" = $1"@);
}

// ---------------------------------------------------------------------------
// Exec building blocks
// ---------------------------------------------------------------------------

/// Wrap an identifier in double quotes.
pub fn quote_ident(name: &str) -> (r: String)
    ensures
        r@ == qident(name@),
{
    proof {
        reveal_strlit("\"");
    }
    let mut r = "\"".to_owned();
    r.append(name);
    r.append("\"");
    proof {
        assert(r@ =~= qident(name@));
    }
    r
}

/// The positional placeholder `$k`.
pub fn placeholder_string(k: usize) -> (r: String)
    ensures
        r@ == placeholder(k as int),
{
    proof {
        reveal_strlit("$");
    }
    let mut r = "$".to_owned();
    let digits = usize_to_dec(k);
    r.append(digits.as_str());
    proof {
        assert(r@ =~= placeholder(k as int));
    }
    r
}

// ---------------------------------------------------------------------------
// The compiled fragments
// ---------------------------------------------------------------------------

/// What `build_cursor_clause` yields: the condition with its `?`
/// placeholder, and the bound cursor value.
pub open spec fn cursor_clause_spec(opts: QueryOptions) -> Option<(Seq<char>, Seq<char>)> {
    match opts.cursor {
        None => None,
        Some(c) => Some(
            (
                qident(c.column@) + (match c.direction {
                    CursorDirection::After => " > ?"@,
                    CursorDirection::Before => " < ?"@,
                }),
                param_text(c.value),
            ),
        ),
    }
}

/// Whether an executable cursor clause matches its specification.
pub open spec fn cursor_clause_matches(r: Option<(String, String)>, opts: QueryOptions) -> bool {
    match (r, cursor_clause_spec(opts)) {
        (None, None) => true,
        (Some(e), Some(s)) => e.0@ == s.0 && e.1@ == s.1,
        _ => false,
    }
}

/// The ORDER BY clause: the cursor column and direction override any
/// explicit sort; without either the clause is empty.
pub open spec fn order_clause_text(opts: QueryOptions) -> Seq<char> {
    match opts.cursor {
        Some(c) => " ORDER BY "@ + qident(c.column@) + (match c.direction {
            CursorDirection::After => " ASC"@,
            CursorDirection::Before => " DESC"@,
        }),
        None => match opts.sort {
            Some(s) => " ORDER BY "@ + qident(s.column@) + (match s.direction {
                SortDirection::Asc => " ASC"@,
                SortDirection::Desc => " DESC"@,
            }),
            None => Seq::empty(),
        },
    }
}

/// The pagination clause: LIMIT alone under a cursor, LIMIT with OFFSET
/// otherwise.
pub open spec fn pagination_clause_text(opts: QueryOptions) -> Seq<char> {
    if opts.cursor is Some {
        " LIMIT "@ + idec(opts.limit as int)
    } else {
        " LIMIT "@ + idec(opts.limit as int) + " OFFSET "@ + idec(opts.offset as int)
    }
}

/// The projection list: the selected columns quoted and comma-joined,
/// or `*` when none are named.
pub open spec fn select_columns_text(opts: QueryOptions) -> Seq<char> {
    match opts.selected_columns {
        Some(cols) => if cols@.len() > 0 {
            joined(qidents(cols@), ", "@)
        } else {
            "*"@
        },
        None => "*"@,
    }
}

impl QueryOptions {
    /// Build the WHERE clause and its bound parameters from the filters.
    ///
    /// Filters whose operator needs a value but have none are skipped;
    /// placeholders are numbered sequentially as they are emitted; the
    /// conditions are joined uniformly by the configured logic.
    #[verifier::loop_isolation(false)]
    pub fn build_where_clause(&self) -> (r: (String, Vec<String>))
        ensures
            r.0@ == where_clause_text(self.filters@, self.filter_logic),
            views(r.1@) == where_params(self.filters@),
    {
        let mut conds: Vec<String> = Vec::new();
        let mut params: Vec<String> = Vec::new();
        let n = self.filters.len();
        proof {
            assert(views(conds@) =~= compiled_filters(self.filters@.take(0)).0);
            assert(views(params@) =~= compiled_filters(self.filters@.take(0)).1);
        }
        for i in 0..n
            invariant
                views(conds@) == compiled_filters(self.filters@.take(i as int)).0,
                views(params@) == compiled_filters(self.filters@.take(i as int)).1,
        {
            let f = &self.filters[i];
            let ghost pre_cs = views(conds@);
            let ghost pre_ps = views(params@);
            match f.operator {
                FilterOperator::Equals => {
                    match &f.value {
                        Some(v) => {
                            crate::text::push_string(&mut params, value_param_text(v));
                            let mut c = quote_ident(f.column.as_str());
                            c.append(" = ");
                            let ph = placeholder_string(params.len());
                            c.append(ph.as_str());
                            proof {
                                reveal_strlit(" = ");
                                assert(c@ =~= qident(f.column@) + " = "@ + placeholder(
                                    pre_ps.len() as int + 1,
                                ));
                                assert(pre_ps.push(param_text(*v)) =~= pre_ps + seq![
                                    param_text(*v),
                                ]);
                            }
                            crate::text::push_string(&mut conds, c);
                        },
                        None => {},
                    }
                },
                FilterOperator::NotEquals => {
                    match &f.value {
                        Some(v) => {
                            crate::text::push_string(&mut params, value_param_text(v));
                            let mut c = quote_ident(f.column.as_str());
                            c.append(" != ");
                            let ph = placeholder_string(params.len());
                            c.append(ph.as_str());
                            proof {
                                reveal_strlit(" != ");
                                assert(c@ =~= qident(f.column@) + " != "@ + placeholder(
                                    pre_ps.len() as int + 1,
                                ));
                                assert(pre_ps.push(param_text(*v)) =~= pre_ps + seq![
                                    param_text(*v),
                                ]);
                            }
                            crate::text::push_string(&mut conds, c);
                        },
                        None => {},
                    }
                },
                FilterOperator::Like => {
                    match &f.value {
                        Some(v) => {
                            let mut p = "%".to_owned();
                            match v {
                                JsonVal::Str(s) => {
                                    p.append(s.as_str());
                                },
                                _ => {},
                            }
                            p.append("%");
                            proof {
                                reveal_strlit("%");
                                assert(p@ =~= like_param(*v));
                            }
                            crate::text::push_string(&mut params, p);
                            let mut c = quote_ident(f.column.as_str());
                            c.append(" ILIKE ");
                            let ph = placeholder_string(params.len());
                            c.append(ph.as_str());
                            proof {
                                reveal_strlit(" ILIKE ");
                                assert(c@ =~= qident(f.column@) + " ILIKE "@ + placeholder(
                                    pre_ps.len() as int + 1,
                                ));
                                assert(pre_ps.push(like_param(*v)) =~= pre_ps + seq![
                                    like_param(*v),
                                ]);
                            }
                            crate::text::push_string(&mut conds, c);
                        },
                        None => {},
                    }
                },
                FilterOperator::IsNull => {
                    let mut c = quote_ident(f.column.as_str());
                    c.append(" IS NULL");
                    proof {
                        reveal_strlit(" IS NULL");
                        assert(c@ =~= qident(f.column@) + " IS NULL"@);
                    }
                    crate::text::push_string(&mut conds, c);
                },
                FilterOperator::IsNotNull => {
                    let mut c = quote_ident(f.column.as_str());
                    c.append(" IS NOT NULL");
                    proof {
                        reveal_strlit(" IS NOT NULL");
                        assert(c@ =~= qident(f.column@) + " IS NOT NULL"@);
                    }
                    crate::text::push_string(&mut conds, c);
                },
                FilterOperator::In => {
                    match &f.value {
                        Some(JsonVal::Arr(items, _)) => {
                            if items.len() > 0 {
                                let ghost base = pre_ps.len() as int;
                                let mut phs: Vec<String> = Vec::new();
                                proof {
                                    assert(pre_ps + item_params(items@.take(0)) =~= pre_ps);
                                    assert(views(phs@) =~= placeholder_run(base + 1, 0));
                                }
                                for j in 0..items.len()
                                    invariant
                                        params@.len() == pre_ps.len() + j,
                                        views(params@) == pre_ps + item_params(
                                            items@.take(j as int),
                                        ),
                                        views(phs@) == placeholder_run(base + 1, j as int),
                                {
                                    crate::text::push_string(
                                        &mut params,
                                        item_param_text_of(&items[j]),
                                    );
                                    crate::text::push_string(
                                        &mut phs,
                                        placeholder_string(params.len()),
                                    );
                                    proof {
                                        assert(items@.take(j + 1) =~= items@.take(
                                            j as int,
                                        ).push(items@[j as int]));
                                        lemma_item_params_push(
                                            items@.take(j as int),
                                            items@[j as int],
                                        );
                                        assert(views(params@) =~= pre_ps + item_params(
                                            items@.take(j + 1),
                                        ));
                                        lemma_placeholder_run_snoc(base + 1, j as int);
                                        assert(views(phs@) =~= placeholder_run(base + 1, j + 1));
                                    }
                                }
                                let mut c = quote_ident(f.column.as_str());
                                c.append(" IN (");
                                let joined_phs = join_strings(&phs, ", ");
                                c.append(joined_phs.as_str());
                                c.append(")");
                                proof {
                                    reveal_strlit(" IN (");
                                    reveal_strlit(")");
                                    assert(items@.take(items@.len() as int) =~= items@);
                                    assert(c@ =~= qident(f.column@) + " IN ("@ + joined(
                                        placeholder_run(base + 1, items@.len() as int),
                                        ", "@,
                                    ) + ")"@);
                                    assert(items@.take(items@.len() as int) =~= items@);
                                }
                                crate::text::push_string(&mut conds, c);
                            }
                        },
                        _ => {},
                    }
                },
                FilterOperator::GreaterThan => {
                    match &f.value {
                        Some(v) => {
                            crate::text::push_string(&mut params, value_param_text(v));
                            let mut c = quote_ident(f.column.as_str());
                            c.append(" > ");
                            let ph = placeholder_string(params.len());
                            c.append(ph.as_str());
                            proof {
                                reveal_strlit(" > ");
                                assert(c@ =~= qident(f.column@) + " > "@ + placeholder(
                                    pre_ps.len() as int + 1,
                                ));
                                assert(pre_ps.push(param_text(*v)) =~= pre_ps + seq![
                                    param_text(*v),
                                ]);
                            }
                            crate::text::push_string(&mut conds, c);
                        },
                        None => {},
                    }
                },
                FilterOperator::LessThan => {
                    match &f.value {
                        Some(v) => {
                            crate::text::push_string(&mut params, value_param_text(v));
                            let mut c = quote_ident(f.column.as_str());
                            c.append(" < ");
                            let ph = placeholder_string(params.len());
                            c.append(ph.as_str());
                            proof {
                                reveal_strlit(" < ");
                                assert(c@ =~= qident(f.column@) + " < "@ + placeholder(
                                    pre_ps.len() as int + 1,
                                ));
                                assert(pre_ps.push(param_text(*v)) =~= pre_ps + seq![
                                    param_text(*v),
                                ]);
                            }
                            crate::text::push_string(&mut conds, c);
                        },
                        None => {},
                    }
                },
            }
            proof {
                assert(self.filters@.take(i + 1).drop_last() =~= self.filters@.take(i as int));
                assert(self.filters@.take(i + 1).last() == self.filters@[i as int]);
                assert(views(conds@) == compiled_filters(self.filters@.take(i + 1)).0);
                assert(views(params@) == compiled_filters(self.filters@.take(i + 1)).1);
            }
        }
        proof {
            assert(self.filters@.take(n as int) =~= self.filters@);
        }
        if conds.len() == 0 {
            (String::new(), params)
        } else {
            let joiner: &str = match self.filter_logic {
                FilterLogic::And => " AND ",
                FilterLogic::Or => " OR ",
            };
            let body = join_strings(&conds, joiner);
            let mut w = " WHERE ".to_owned();
            w.append(body.as_str());
            proof {
                reveal_strlit(" AND ");
                reveal_strlit(" OR ");
                reveal_strlit(" WHERE ");
                assert(w@ =~= where_clause_text(self.filters@, self.filter_logic));
            }
            (w, params)
        }
    }

    /// Build the cursor condition for keyset pagination: `col > ?` when
    /// paging after the cursor value, `col < ?` before it.
    pub fn build_cursor_clause(&self) -> (r: Option<(String, String)>)
        ensures
            cursor_clause_matches(r, *self),
    {
        match &self.cursor {
            None => None,
            Some(c) => {
                let mut cond = quote_ident(c.column.as_str());
                let op: &str = match c.direction {
                    CursorDirection::After => " > ?",
                    CursorDirection::Before => " < ?",
                };
                cond.append(op);
                let param = value_param_text(&c.value);
                proof {
                    reveal_strlit(" > ?");
                    reveal_strlit(" < ?");
                }
                Some((cond, param))
            },
        }
    }

    /// Build the ORDER BY clause, cursor-aware: a cursor forces ordering
    /// by its column, ascending for `After` and descending for `Before`.
    pub fn build_order_clause(&self) -> (r: String)
        ensures
            r@ == order_clause_text(*self),
    {
        proof {
            reveal_strlit(" ORDER BY ");
            reveal_strlit(" ASC");
            reveal_strlit(" DESC");
        }
        match &self.cursor {
            Some(c) => {
                let mut r = " ORDER BY ".to_owned();
                let q = quote_ident(c.column.as_str());
                r.append(q.as_str());
                let d: &str = match c.direction {
                    CursorDirection::After => " ASC",
                    CursorDirection::Before => " DESC",
                };
                r.append(d);
                proof {
                    assert(r@ =~= order_clause_text(*self));
                }
                r
            },
            None => {
                match &self.sort {
                    Some(s) => {
                        let mut r = " ORDER BY ".to_owned();
                        let q = quote_ident(s.column.as_str());
                        r.append(q.as_str());
                        let d: &str = match s.direction {
                            SortDirection::Asc => " ASC",
                            SortDirection::Desc => " DESC",
                        };
                        r.append(d);
                        proof {
                            assert(r@ =~= order_clause_text(*self));
                        }
                        r
                    },
                    None => String::new(),
                }
            },
        }
    }

    /// Build the pagination clause: keyset pagination needs LIMIT alone,
    /// offset pagination LIMIT with OFFSET.
    pub fn build_pagination_clause(&self) -> (r: String)
        ensures
            r@ == pagination_clause_text(*self),
    {
        proof {
            reveal_strlit(" LIMIT ");
            reveal_strlit(" OFFSET ");
        }
        let mut r = " LIMIT ".to_owned();
        let l = i32_to_dec(self.limit);
        r.append(l.as_str());
        if self.cursor.is_none() {
            r.append(" OFFSET ");
            let o = i32_to_dec(self.offset);
            r.append(o.as_str());
        }
        proof {
            assert(r@ =~= pagination_clause_text(*self));
        }
        r
    }

    /// Build the SELECT column list: the selected columns quoted, or `*`.
    #[verifier::loop_isolation(false)]
    pub fn build_select_columns(&self) -> (r: String)
        ensures
            r@ == select_columns_text(*self),
    {
        proof {
            reveal_strlit("*");
        }
        match &self.selected_columns {
            Some(cols) => {
                if cols.len() > 0 {
                    let mut quoted: Vec<String> = Vec::new();
                    proof {
                        assert(views(quoted@) =~= qidents(cols@.take(0)));
                    }
                    for i in 0..cols.len()
                        invariant
                            views(quoted@) == qidents(cols@.take(i as int)),
                    {
                        crate::text::push_string(&mut quoted, quote_ident(cols[i].as_str()));
                        proof {
                            assert(cols@.take(i + 1) =~= cols@.take(i as int).push(
                                cols@[i as int],
                            ));
                            lemma_qidents_push(cols@.take(i as int), cols@[i as int]);
                            assert(views(quoted@) == qidents(cols@.take(i + 1)));
                        }
                    }
                    proof {
                        assert(cols@.take(cols@.len() as int) =~= cols@);
                    }
                    join_strings(&quoted, ", ")
                } else {
                    "*".to_owned()
                }
            },
            None => "*".to_owned(),
        }
    }

    /// Whether cursor pagination is in use.
    pub fn uses_cursor(&self) -> (r: bool)
        ensures
            r == (self.cursor is Some),
    {
        self.cursor.is_some()
    }
}

} // verus!
