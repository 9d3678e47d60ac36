//! The generic value model: what a cell of a result set or a filter value
//! holds, as plain data, and how a value is rendered into SQL text.

use vstd::prelude::*;
use crate::text::{escape_sql_quotes, i64_to_dec, idec, quote_escaped};

verus! {

/// One element of an array value: a scalar, or a nested composite kept
/// as its serialized JSON text.
#[derive(Debug, Clone)]
pub enum JsonItem {
    Null,
    Bool(bool),
    Int(i64),
    /// A numeric literal kept as text.
    Num(String),
    Str(String),
    /// A nested array or object, kept as its serialized JSON text.
    Raw(String),
}

/// A structured value carried through filters, mutations and result rows.
///
/// Numbers outside `i64` (and all fractional numbers) arrive as their
/// literal text in `Num`; an object arrives as its serialized JSON text,
/// an array with its items and its serialized text.
#[derive(Debug, Clone)]
pub enum JsonVal {
    Null,
    Bool(bool),
    Int(i64),
    /// A numeric literal kept as text.
    Num(String),
    Str(String),
    /// An array: the items, and the serialized JSON text of the whole array.
    Arr(Vec<JsonItem>, String),
    /// An object, kept as its serialized JSON text.
    Obj(String),
}

/// The text an array element contributes as a bound query parameter.
pub open spec fn item_param_text(v: JsonItem) -> Seq<char> {
    match v {
        JsonItem::Null => "NULL"@,
        JsonItem::Bool(b) => if b {
            "true"@
        } else {
            "false"@
        },
        JsonItem::Int(i) => idec(i as int),
        JsonItem::Num(s) => s@,
        JsonItem::Str(s) => s@,
        JsonItem::Raw(s) => s@,
    }
}

/// The text a value contributes as a bound query parameter: strings are
/// passed bare, `NULL` and booleans by name, numbers by their literal,
/// composites by their JSON text.
pub open spec fn param_text(v: JsonVal) -> Seq<char> {
    match v {
        JsonVal::Null => "NULL"@,
        JsonVal::Bool(b) => if b {
            "true"@
        } else {
            "false"@
        },
        JsonVal::Int(i) => idec(i as int),
        JsonVal::Num(s) => s@,
        JsonVal::Str(s) => s@,
        JsonVal::Arr(_, raw) => raw@,
        JsonVal::Obj(raw) => raw@,
    }
}

/// Whether two values carry the same content: scalars by value, strings
/// and numeric literals by their text, composites by their serialized
/// JSON text.
pub open spec fn jv_like(a: JsonVal, b: JsonVal) -> bool {
    match (a, b) {
        (JsonVal::Null, JsonVal::Null) => true,
        (JsonVal::Bool(x), JsonVal::Bool(y)) => x == y,
        (JsonVal::Int(x), JsonVal::Int(y)) => x == y,
        (JsonVal::Num(x), JsonVal::Num(y)) => x@ == y@,
        (JsonVal::Str(x), JsonVal::Str(y)) => x@ == y@,
        (JsonVal::Arr(_, x), JsonVal::Arr(_, y)) => x@ == y@,
        (JsonVal::Obj(x), JsonVal::Obj(y)) => x@ == y@,
        _ => false,
    }
}

/// Copy a value, keeping its content.
pub fn clone_value(v: &JsonVal) -> (r: JsonVal)
    ensures
        jv_like(r, *v),
{
    match v {
        JsonVal::Null => JsonVal::Null,
        JsonVal::Bool(b) => JsonVal::Bool(*b),
        JsonVal::Int(i) => JsonVal::Int(*i),
        JsonVal::Num(s) => JsonVal::Num(s.clone()),
        JsonVal::Str(s) => JsonVal::Str(s.clone()),
        JsonVal::Arr(items, raw) => JsonVal::Arr(items.clone(), raw.clone()),
        JsonVal::Obj(raw) => JsonVal::Obj(raw.clone()),
    }
}

/// Render an array element as the text of a bound query parameter.
pub fn item_param_text_of(v: &JsonItem) -> (r: String)
    ensures
        r@ == item_param_text(*v),
{
    proof {
        reveal_strlit("NULL");
        reveal_strlit("true");
        reveal_strlit("false");
    }
    match v {
        JsonItem::Null => "NULL".to_owned(),
        JsonItem::Bool(b) => if *b {
            "true".to_owned()
        } else {
            "false".to_owned()
        },
        JsonItem::Int(i) => i64_to_dec(*i),
        JsonItem::Num(s) => s.clone(),
        JsonItem::Str(s) => s.clone(),
        JsonItem::Raw(s) => s.clone(),
    }
}

/// The text a value takes when spliced directly into SQL: `NULL`,
/// `TRUE`/`FALSE`, bare numeric literals, and single-quoted escaped text
/// for strings and composites.
pub open spec fn sql_literal(v: JsonVal) -> Seq<char> {
    match v {
        JsonVal::Null => "NULL"@,
        JsonVal::Bool(b) => if b {
            "TRUE"@
        } else {
            "FALSE"@
        },
        JsonVal::Int(i) => idec(i as int),
        JsonVal::Num(s) => s@,
        JsonVal::Str(s) => seq!['\''] + quote_escaped(s@) + seq!['\''],
        JsonVal::Arr(_, raw) => seq!['\''] + quote_escaped(raw@) + seq!['\''],
        JsonVal::Obj(raw) => seq!['\''] + quote_escaped(raw@) + seq!['\''],
    }
}

/// Render a value as the text of a bound query parameter.
pub fn value_param_text(v: &JsonVal) -> (r: String)
    ensures
        r@ == param_text(*v),
{
    proof {
        reveal_strlit("NULL");
        reveal_strlit("true");
        reveal_strlit("false");
    }
    match v {
        JsonVal::Null => "NULL".to_owned(),
        JsonVal::Bool(b) => if *b {
            "true".to_owned()
        } else {
            "false".to_owned()
        },
        JsonVal::Int(i) => i64_to_dec(*i),
        JsonVal::Num(s) => s.clone(),
        JsonVal::Str(s) => s.clone(),
        JsonVal::Arr(_, raw) => raw.clone(),
        JsonVal::Obj(raw) => raw.clone(),
    }
}

fn quoted_escaped_text(s: &str) -> (r: String)
    ensures
        r@ == seq!['\''] + quote_escaped(s@) + seq!['\''],
{
    proof {
        reveal_strlit("'");
    }
    let mut r = "'".to_owned();
    let body = escape_sql_quotes(s);
    r.append(body.as_str());
    r.append("'");
    proof {
        assert(r@ =~= seq!['\''] + quote_escaped(s@) + seq!['\'']);
    }
    r
}

/// Format a value for direct splicing into SQL text, preserving its type.
pub fn format_value_for_sql(v: &JsonVal) -> (r: String)
    ensures
        r@ == sql_literal(*v),
{
    proof {
        reveal_strlit("NULL");
        reveal_strlit("TRUE");
        reveal_strlit("FALSE");
    }
    match v {
        JsonVal::Null => "NULL".to_owned(),
        JsonVal::Bool(b) => if *b {
            "TRUE".to_owned()
        } else {
            "FALSE".to_owned()
        },
        JsonVal::Int(i) => i64_to_dec(*i),
        JsonVal::Num(s) => s.clone(),
        JsonVal::Str(s) => quoted_escaped_text(s.as_str()),
        JsonVal::Arr(_, raw) => quoted_escaped_text(raw.as_str()),
        JsonVal::Obj(raw) => quoted_escaped_text(raw.as_str()),
    }
}

// ---------------------------------------------------------------------------
// Numeric-literal recognition for primary-key formatting
// ---------------------------------------------------------------------------

/// Whether a character is a decimal digit.
pub open spec fn is_dec_digit(c: char) -> bool {
    '0' <= c && c <= '9'
}

/// The length of the longest digit prefix of a character sequence.
pub open spec fn digit_span(s: Seq<char>) -> int
    decreases s.len(),
{
    if s.len() > 0 && is_dec_digit(s.first()) {
        1 + digit_span(s.drop_first())
    } else {
        0
    }
}

/// The sequence with one leading sign character removed, if it has one.
pub open spec fn strip_sign(s: Seq<char>) -> Seq<char> {
    if s.len() > 0 && (s.first() == '+' || s.first() == '-') {
        s.drop_first()
    } else {
        s
    }
}

/// Whether a sequence is an exponent suffix: empty, or `e`/`E`, an
/// optional sign, and one or more digits to the end.
pub open spec fn exponent_ok(s: Seq<char>) -> bool {
    if s.len() == 0 {
        true
    } else if s.first() == 'e' || s.first() == 'E' {
        let t = strip_sign(s.drop_first());
        t.len() > 0 && digit_span(t) == t.len()
    } else {
        false
    }
}

/// Whether a sequence is a decimal numeric literal: an optional sign, a
/// mantissa with at least one digit (integer part, optional point,
/// optional fraction), and an optional exponent.
pub open spec fn is_numeric_text(s: Seq<char>) -> bool {
    let t = strip_sign(s);
    let d1 = digit_span(t);
    let rest = t.skip(d1);
    if rest.len() > 0 && rest.first() == '.' {
        let d2 = digit_span(rest.drop_first());
        (d1 > 0 || d2 > 0) && exponent_ok(rest.skip(1 + d2))
    } else {
        d1 > 0 && exponent_ok(rest)
    }
}

proof fn lemma_digit_span_bound(s: Seq<char>)
    ensures
        0 <= digit_span(s) <= s.len(),
    decreases s.len(),
{
    if s.len() > 0 && is_dec_digit(s.first()) {
        lemma_digit_span_bound(s.drop_first());
    }
}

/// Whether position `i` of `s` (of character length `n`) holds a digit.
fn digit_at(s: &str, i: usize, n: usize) -> (b: bool)
    requires
        n == s@.len(),
        i <= n,
    ensures
        b == (i < s@.len() && is_dec_digit(s@[i as int])),
{
    if i < n {
        let c = s.get_char(i);
        '0' <= c && c <= '9'
    } else {
        false
    }
}

/// Count the digits from position `from` in `s`.
#[verifier::loop_isolation(false)]
fn scan_digits(s: &str, from: usize) -> (k: usize)
    requires
        from <= s@.len(),
    ensures
        k == digit_span(s@.skip(from as int)),
        from + k <= s@.len(),
{
    let n = s.unicode_len();
    let mut i = from;
    while digit_at(s, i, n)
        invariant
            from <= i <= n,
            digit_span(s@.skip(from as int)) == (i - from) + digit_span(s@.skip(i as int)),
        decreases n - i,
    {
        proof {
            assert(s@.skip(i as int).drop_first() =~= s@.skip(i + 1));
        }
        i = i + 1;
    }
    proof {
        if i < n {
            assert(digit_span(s@.skip(i as int)) == 0);
        } else {
            assert(s@.skip(i as int).len() == 0);
        }
        lemma_digit_span_bound(s@.skip(from as int));
    }
    i - from
}

/// Whether the text is a decimal numeric literal (sign, digits, optional
/// fraction, optional exponent).
#[verifier::loop_isolation(false)]
pub fn is_numeric_literal(s: &str) -> (r: bool)
    ensures
        r == is_numeric_text(s@),
{
    let n = s.unicode_len();
    let mut i: usize = 0;
    if n > 0 {
        let c0 = s.get_char(0);
        if c0 == '+' || c0 == '-' {
            i = 1;
        }
    }
    proof {
        assert(strip_sign(s@) =~= s@.skip(i as int));
    }
    let ghost t = s@.skip(i as int);
    let d1 = scan_digits(s, i);
    let after_int = i + d1;
    proof {
        assert(t.skip(d1 as int) =~= s@.skip(after_int as int));
    }
    let ghost rest = s@.skip(after_int as int);
    if after_int < n && s.get_char(after_int) == '.' {
        proof {
            assert(rest.drop_first() =~= s@.skip(after_int + 1));
        }
        let d2 = scan_digits(s, after_int + 1);
        let after_frac = after_int + 1 + d2;
        proof {
            assert(rest.skip(1 + d2 as int) =~= s@.skip(after_frac as int));
        }
        if d1 == 0 && d2 == 0 {
            false
        } else {
            exponent_at(s, after_frac)
        }
    } else {
        if d1 == 0 {
            false
        } else {
            exponent_at(s, after_int)
        }
    }
}

/// Whether the tail of `s` from position `from` is an exponent suffix.
#[verifier::loop_isolation(false)]
fn exponent_at(s: &str, from: usize) -> (r: bool)
    requires
        from <= s@.len(),
    ensures
        r == exponent_ok(s@.skip(from as int)),
{
    let n = s.unicode_len();
    if from == n {
        return true;
    }
    let c = s.get_char(from);
    if c != 'e' && c != 'E' {
        return false;
    }
    let ghost tail = s@.skip(from as int).drop_first();
    proof {
        assert(tail =~= s@.skip(from + 1));
    }
    let mut j = from + 1;
    if j < n {
        let cs = s.get_char(j);
        if cs == '+' || cs == '-' {
            j = j + 1;
        }
    }
    proof {
        assert(strip_sign(tail) =~= s@.skip(j as int));
    }
    let d = scan_digits(s, j);
    proof {
        if d > 0 {
            lemma_digit_span_bound(s@.skip(j as int));
        }
    }
    d > 0 && j + d == n
}

/// The text a primary-key value takes in a WHERE clause: bare when it
/// is a numeric literal, otherwise escaped and single-quoted.
pub open spec fn pk_literal(s: Seq<char>) -> Seq<char> {
    if is_numeric_text(s) {
        s
    } else {
        seq!['\''] + quote_escaped(s) + seq!['\'']
    }
}

/// Format a primary-key value for a WHERE clause: bare when it is a
/// numeric literal, otherwise escaped and single-quoted (the path UUID
/// and numeric keys share).
pub fn format_pk_for_sql(pk: &str) -> (r: String)
    ensures
        r@ == pk_literal(pk@),
{
    if is_numeric_literal(pk) {
        pk.to_owned()
    } else {
        quoted_escaped_text(pk)
    }
}

} // verus!
