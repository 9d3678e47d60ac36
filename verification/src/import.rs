//! Import support: splitting SQL scripts into statements, sniffing a
//! CSV delimiter, applying a column mapping to parsed CSV records, and
//! building the insert statements an import issues.

use vstd::prelude::*;
use crate::text::{views, push_string, split_seq, split_char, trimmed, trim_blanks, prefix_of,
    starts_with, quote_escaped, escape_sql_quotes, joined, join_strings};

verus! {

/// A preview of a CSV file: the headers, the first rows, the full row
/// count, and the delimiter the sniffer settled on.
#[derive(Debug, Clone)]
pub struct CsvPreview {
    pub headers: Vec<String>,
    pub rows: Vec<Vec<String>>,
    pub total_rows: usize,
    pub detected_delimiter: char,
}

/// How one CSV column lands in a table column.
#[derive(Debug, Clone)]
pub struct ColumnMapping {
    pub csv_column: String,
    pub table_column: String,
    pub data_type: Option<String>,
}

/// The report of an import run.
#[derive(Debug, Clone)]
pub struct ImportResult {
    pub success: bool,
    pub rows_imported: usize,
    pub errors: Vec<String>,
}

// ---------------------------------------------------------------------------
// Splitting a SQL script
// ---------------------------------------------------------------------------

/// The statements kept from the split pieces of a script: each piece
/// trimmed, the blank ones and the comment-opening ones dropped, and a
/// semicolon put back on each survivor.
pub open spec fn kept_statements(pieces: Seq<Seq<char>>) -> Seq<Seq<char>>
    decreases pieces.len(),
{
    if pieces.len() == 0 {
        Seq::empty()
    } else {
        let t = trimmed(pieces.last());
        kept_statements(pieces.drop_last()) + (if t.len() > 0 && !prefix_of("--"@, t) {
            seq![t + ";"@]
        } else {
            Seq::<Seq<char>>::empty()
        })
    }
}

/// Split a SQL script on semicolons into trimmed statements, dropping
/// blanks and line comments.
#[verifier::loop_isolation(false)]
pub fn split_sql_statements(sql: &str) -> (r: Vec<String>)
    ensures
        views(r@) == kept_statements(split_seq(sql@, ';')),
{
    let pieces = split_char(sql, ';');
    let ghost pviews = views(pieces@);
    let mut out: Vec<String> = Vec::new();
    proof {
        assert(views(out@) =~= kept_statements(pviews.take(0)));
    }
    for i in 0..pieces.len()
        invariant
            views(out@) == kept_statements(pviews.take(i as int)),
    {
        let mut t = trim_blanks(pieces[i].as_str());
        proof {
            assert(pviews[i as int] == pieces@[i as int]@);
            assert(pviews.take(i + 1).drop_last() =~= pviews.take(i as int));
            assert(pviews.take(i + 1).last() == pviews[i as int]);
        }
        if !t.as_str().is_empty() && !starts_with(t.as_str(), "--") {
            proof {
                reveal_strlit(";");
            }
            t.append(";");
            push_string(&mut out, t);
            proof {
                assert(views(out@) =~= kept_statements(pviews.take(i + 1)));
            }
        } else {
            proof {
                assert(views(out@) =~= kept_statements(pviews.take(i + 1)));
            }
        }
    }
    proof {
        assert(pviews.take(pviews.len() as int) =~= pviews);
    }
    out
}

// ---------------------------------------------------------------------------
// Delimiter sniffing
// ---------------------------------------------------------------------------

/// How often a character occurs in a sequence.
pub open spec fn char_count(s: Seq<char>, c: char) -> int
    decreases s.len(),
{
    if s.len() == 0 {
        0
    } else {
        char_count(s.drop_last(), c) + (if s.last() == c {
            1int
        } else {
            0int
        })
    }
}

/// The first line of a text: everything before the first newline, a
/// trailing carriage return dropped.
pub open spec fn first_line(s: Seq<char>) -> Seq<char> {
    let line = split_seq(s, '\n').first();
    if line.len() > 0 && line.last() == '\r' {
        line.drop_last()
    } else {
        line
    }
}

/// The delimiter the first line of a CSV file suggests: the most
/// frequent of semicolon, tab and pipe when one clearly beats the
/// comma, else the comma.
pub open spec fn detected_delimiter(line: Seq<char>) -> char {
    let commas = char_count(line, ',');
    let semis = char_count(line, ';');
    let tabs = char_count(line, '\t');
    let pipes = char_count(line, '|');
    if semis > commas && semis >= tabs && semis >= pipes {
        ';'
    } else if tabs > commas && tabs >= semis && tabs >= pipes {
        '\t'
    } else if pipes > commas && pipes >= semis && pipes >= tabs {
        '|'
    } else {
        ','
    }
}

/// Count how often a character occurs in a string.
#[verifier::loop_isolation(false)]
fn count_char_in(s: &str, c: char) -> (r: usize)
    ensures
        r == char_count(s@, c),
{
    let n = s.unicode_len();
    let mut count: usize = 0;
    proof {
        assert(s@.take(0).len() == 0);
    }
    for i in 0..n
        invariant
            count == char_count(s@.take(i as int), c),
            count <= i,
    {
        if s.get_char(i) == c {
            count = count + 1;
        }
        proof {
            assert(s@.take(i + 1).drop_last() =~= s@.take(i as int));
            assert(s@.take(i + 1).last() == s@[i as int]);
        }
    }
    proof {
        assert(s@.take(n as int) =~= s@);
    }
    count
}

/// Sniff the delimiter of a CSV file from its first line.
pub fn detect_delimiter(content: &str) -> (r: char)
    ensures
        r == detected_delimiter(first_line(content@)),
{
    let pieces = split_char(content, '\n');
    proof {
        crate::text::lemma_split_seq_len(content@, '\n');
        assert(views(pieces@)[0] == pieces@[0]@);
    }
    let raw = &pieces[0];
    let n = raw.as_str().unicode_len();
    let line: String = if n > 0 && raw.as_str().get_char(n - 1) == '\r' {
        proof {
            assert(raw@.take(n - 1) =~= raw@.drop_last());
        }
        raw.as_str().substring_char(0, n - 1).to_owned()
    } else {
        raw.clone()
    };
    proof {
        assert(line@ == first_line(content@));
    }
    let commas = count_char_in(line.as_str(), ',');
    let semis = count_char_in(line.as_str(), ';');
    let tabs = count_char_in(line.as_str(), '\t');
    let pipes = count_char_in(line.as_str(), '|');
    if semis > commas && semis >= tabs && semis >= pipes {
        ';'
    } else if tabs > commas && tabs >= semis && tabs >= pipes {
        '\t'
    } else if pipes > commas && pipes >= semis && pipes >= tabs {
        '|'
    } else {
        ','
    }
}

// ---------------------------------------------------------------------------
// Applying a column mapping to parsed records
// ---------------------------------------------------------------------------

/// The mappings that name a present CSV column: the position the
/// column holds among the headers, and the table column it lands in.
pub open spec fn mapping_positions(headers: Seq<Seq<char>>, mappings: Seq<ColumnMapping>) -> Seq<
    (int, Seq<char>),
>
    decreases mappings.len(),
{
    if mappings.len() == 0 {
        Seq::empty()
    } else {
        let idx = crate::table_data::name_index(headers, mappings.last().csv_column@);
        mapping_positions(headers, mappings.drop_last()) + (if idx >= 0 {
            seq![(idx, mappings.last().table_column@)]
        } else {
            Seq::<(int, Seq<char>)>::empty()
        })
    }
}

/// The (table column, cell text) pairs one record maps to: one pair per
/// applicable mapping, a short record contributing empty cells.
pub open spec fn record_pairs(record: Seq<String>, positions: Seq<(int, Seq<char>)>) -> Seq<
    (Seq<char>, Seq<char>),
> {
    positions.map_values(
        |p: (int, Seq<char>)|
            (
                p.1,
                if 0 <= p.0 < record.len() {
                    record[p.0]@
                } else {
                    Seq::<char>::empty()
                },
            ),
    )
}

/// The pair views of a mapped row.
pub open spec fn pair_views(v: Seq<(String, String)>) -> Seq<(Seq<char>, Seq<char>)> {
    v.map_values(|p: (String, String)| (p.0@, p.1@))
}

/// The ghost positions an executable position list denotes.
pub open spec fn position_views(v: Seq<(usize, String)>) -> Seq<(int, Seq<char>)> {
    v.map_values(|p: (usize, String)| (p.0 as int, p.1@))
}

proof fn lemma_pair_views_push(pre: Seq<(String, String)>, p: (String, String))
    ensures
        pair_views(pre.push(p)) == pair_views(pre).push((p.0@, p.1@)),
{
    let l = pair_views(pre.push(p));
    let r = pair_views(pre).push((p.0@, p.1@));
    assert forall|k: int| 0 <= k < l.len() implies l[k] == r[k] by {
        assert(l[k] == (pre.push(p)[k].0@, pre.push(p)[k].1@));
        if k < pre.len() {
            assert(r[k] == pair_views(pre)[k]);
            assert(pair_views(pre)[k] == (pre[k].0@, pre[k].1@));
        }
    }
    assert(l =~= r);
}

proof fn lemma_position_views_push(pre: Seq<(usize, String)>, p: (usize, String))
    ensures
        position_views(pre.push(p)) == position_views(pre).push((p.0 as int, p.1@)),
{
    let l = position_views(pre.push(p));
    let r = position_views(pre).push((p.0 as int, p.1@));
    assert forall|k: int| 0 <= k < l.len() implies l[k] == r[k] by {
        assert(l[k] == (pre.push(p)[k].0 as int, pre.push(p)[k].1@));
        if k < pre.len() {
            assert(r[k] == position_views(pre)[k]);
            assert(position_views(pre)[k] == (pre[k].0 as int, pre[k].1@));
        }
    }
    assert(l =~= r);
}

proof fn lemma_record_pairs_push(
    record: Seq<String>,
    pos: Seq<(int, Seq<char>)>,
    p: (int, Seq<char>),
)
    ensures
        record_pairs(record, pos.push(p)) == record_pairs(record, pos).push(
            (
                p.1,
                if 0 <= p.0 < record.len() {
                    record[p.0]@
                } else {
                    Seq::<char>::empty()
                },
            ),
        ),
{
    let l = record_pairs(record, pos.push(p));
    let r = record_pairs(record, pos).push(
        (
            p.1,
            if 0 <= p.0 < record.len() {
                record[p.0]@
            } else {
                Seq::<char>::empty()
            },
        ),
    );
    assert forall|k: int| 0 <= k < l.len() implies l[k] == r[k] by {
        if k < pos.len() {
            assert(pos.push(p)[k] == pos[k]);
            assert(r[k] == record_pairs(record, pos)[k]);
        } else {
            assert(pos.push(p)[k] == p);
        }
    }
    assert(l =~= r);
}

/// Map one parsed CSV record through the applicable mappings.
#[verifier::loop_isolation(false)]
fn map_record(record: &Vec<String>, positions: &Vec<(usize, String)>) -> (r: Vec<
    (String, String),
>)
    ensures
        pair_views(r@) == record_pairs(record@, position_views(positions@)),
{
    let ghost spec_positions = position_views(positions@);
    let mut out: Vec<(String, String)> = Vec::new();
    proof {
        assert(pair_views(out@) =~= record_pairs(record@, spec_positions.take(0)));
    }
    for j in 0..positions.len()
        invariant
            pair_views(out@) == record_pairs(record@, spec_positions.take(j as int)),
    {
        let idx = positions[j].0;
        let cell: String = if idx < record.len() {
            record[idx].clone()
        } else {
            String::new()
        };
        let ghost pre_out = out@;
        let entry = (positions[j].1.clone(), cell);
        proof {
            lemma_pair_views_push(pre_out, entry);
        }
        out.push(entry);
        proof {
            assert(spec_positions[j as int] == (positions@[j as int].0 as int, positions@[
                j as int].1@));
            assert(spec_positions.take(j + 1) =~= spec_positions.take(j as int).push(
                spec_positions[j as int],
            ));
            lemma_record_pairs_push(
                record@,
                spec_positions.take(j as int),
                spec_positions[j as int],
            );
            assert(pair_views(out@) == record_pairs(record@, spec_positions.take(j + 1)));
        }
    }
    proof {
        assert(spec_positions.take(spec_positions.len() as int) =~= spec_positions);
    }
    out
}

/// Apply a column mapping to parsed CSV records: each record becomes
/// the (table column, cell text) pairs of the mappings whose CSV column
/// the headers hold.
#[verifier::loop_isolation(false)]
pub fn map_csv_rows(
    headers: &Vec<String>,
    records: &Vec<Vec<String>>,
    mappings: &Vec<ColumnMapping>,
) -> (r: Vec<Vec<(String, String)>>)
    ensures
        r@.len() == records@.len(),
        forall|i: int|
            0 <= i < r@.len() ==> pair_views((#[trigger] r@[i])@) == record_pairs(
                records@[i]@,
                mapping_positions(views(headers@), mappings@),
            ),
{
    let ghost hviews = views(headers@);
    let mut positions: Vec<(usize, String)> = Vec::new();
    proof {
        assert(position_views(positions@) =~= mapping_positions(hviews, mappings@.take(0)));
    }
    for m in 0..mappings.len()
        invariant
            position_views(positions@) == mapping_positions(hviews, mappings@.take(m as int)),
    {
        proof {
            assert(mappings@.take(m + 1).drop_last() =~= mappings@.take(m as int));
            assert(mappings@.take(m + 1).last() == mappings@[m as int]);
        }
        match crate::table_data::find_name(headers, mappings[m].csv_column.as_str()) {
            Some(idx) => {
                let ghost pre_pos = positions@;
                let entry = (idx, mappings[m].table_column.clone());
                proof {
                    lemma_position_views_push(pre_pos, entry);
                }
                positions.push(entry);
                proof {
                    assert(position_views(positions@) =~~= mapping_positions(
                        hviews,
                        mappings@.take(m + 1),
                    ));
                }
            },
            None => {
                proof {
                    assert(position_views(positions@) =~~= mapping_positions(
                        hviews,
                        mappings@.take(m + 1),
                    ));
                }
            },
        }
    }
    proof {
        assert(mappings@.take(mappings@.len() as int) =~= mappings@);
    }
    let mut out: Vec<Vec<(String, String)>> = Vec::new();
    for i in 0..records.len()
        invariant
            out@.len() == i,
            forall|k: int|
                0 <= k < i ==> pair_views((#[trigger] out@[k])@) == record_pairs(
                    records@[k]@,
                    mapping_positions(hviews, mappings@),
                ),
    {
        let row = map_record(&records[i], &positions);
        out.push(row);
    }
    out
}

/// The INSERT statement one mapped row imports: the columns in mapping
/// order, each value quoted and escaped as text.
pub open spec fn csv_insert_text(table: Seq<char>, pairs: Seq<(Seq<char>, Seq<char>)>) -> Seq<
    char,
> {
    "INSERT INTO "@ + table + " ("@ + joined(pairs.map_values(|p: (Seq<char>, Seq<char>)| p.0), ", "@)
        + ") VALUES ("@ + joined(
        pairs.map_values(|p: (Seq<char>, Seq<char>)| seq!['\''] + quote_escaped(p.1) + seq!['\'']),
        ", "@,
    ) + ")"@
}

/// Build the INSERT statement of one mapped CSV row.
#[verifier::loop_isolation(false)]
pub fn build_csv_insert_sql(table_name: &str, pairs: &Vec<(String, String)>) -> (r: String)
    ensures
        r@ == csv_insert_text(table_name@, pair_views(pairs@)),
{
    proof {
        reveal_strlit("INSERT INTO ");
        reveal_strlit(" (");
        reveal_strlit(") VALUES (");
        reveal_strlit(")");
        reveal_strlit("'");
    }
    let ghost pv = pair_views(pairs@);
    let mut cols: Vec<String> = Vec::new();
    let mut vals: Vec<String> = Vec::new();
    proof {
        assert(views(cols@) =~~= pv.take(0).map_values(|p: (Seq<char>, Seq<char>)| p.0));
        assert(views(vals@) =~~= pv.take(0).map_values(
            |p: (Seq<char>, Seq<char>)| seq!['\''] + quote_escaped(p.1) + seq!['\''],
        ));
    }
    for i in 0..pairs.len()
        invariant
            views(cols@) == pv.take(i as int).map_values(|p: (Seq<char>, Seq<char>)| p.0),
            views(vals@) == pv.take(i as int).map_values(
                |p: (Seq<char>, Seq<char>)| seq!['\''] + quote_escaped(p.1) + seq!['\''],
            ),
    {
        push_string(&mut cols, pairs[i].0.clone());
        let mut quoted = "'".to_owned();
        let esc = escape_sql_quotes(pairs[i].1.as_str());
        quoted.append(esc.as_str());
        quoted.append("'");
        proof {
            assert(quoted@ =~= seq!['\''] + quote_escaped(pairs@[i as int].1@) + seq!['\'']);
        }
        push_string(&mut vals, quoted);
        proof {
            assert(pv[i as int] == (pairs@[i as int].0@, pairs@[i as int].1@));
            assert(views(cols@) =~~= pv.take(i + 1).map_values(
                |p: (Seq<char>, Seq<char>)| p.0,
            ));
            assert(views(vals@) =~~= pv.take(i + 1).map_values(
                |p: (Seq<char>, Seq<char>)| seq!['\''] + quote_escaped(p.1) + seq!['\''],
            ));
        }
    }
    proof {
        assert(pv.take(pv.len() as int) =~= pv);
    }
    let mut sql = "INSERT INTO ".to_owned();
    sql.append(table_name);
    sql.append(" (");
    let cols_text = join_strings(&cols, ", ");
    sql.append(cols_text.as_str());
    sql.append(") VALUES (");
    let vals_text = join_strings(&vals, ", ");
    sql.append(vals_text.as_str());
    sql.append(")");
    proof {
        assert(sql@ =~= csv_insert_text(table_name@, pv));
    }
    sql
}

/// Fold per-statement import outcomes into the report: success exactly
/// when nothing failed, and the count of what ran.
pub fn fold_import_outcomes(applied: usize, errors: Vec<String>) -> (r: ImportResult)
    ensures
        r.success == (errors@.len() == 0),
        r.rows_imported == applied,
        r.errors == errors,
{
    let success = errors.len() == 0;
    ImportResult { success, rows_imported: applied, errors }
}

} // verus!
