//! Character-level string utilities that the SQL builders rest on: decimal
//! rendering of integers, quote escaping, joining, substring search,
//! case-insensitive matching and lexicographic ordering.

use vstd::prelude::*;

verus! {

// ---------------------------------------------------------------------------
// Decimal rendering of integers
// ---------------------------------------------------------------------------

/// The character for one decimal digit.
pub open spec fn dec_digit(d: nat) -> char {
    if d == 0 {
        '0'
    } else if d == 1 {
        '1'
    } else if d == 2 {
        '2'
    } else if d == 3 {
        '3'
    } else if d == 4 {
        '4'
    } else if d == 5 {
        '5'
    } else if d == 6 {
        '6'
    } else if d == 7 {
        '7'
    } else if d == 8 {
        '8'
    } else {
        '9'
    }
}

/// The decimal rendering of a natural number, most significant digit first.
pub open spec fn udec(n: nat) -> Seq<char>
    decreases n,
{
    if n < 10 {
        seq![dec_digit(n)]
    } else {
        udec(n / 10).push(dec_digit(n % 10))
    }
}

/// The decimal rendering of an integer, with a leading minus sign when negative.
pub open spec fn idec(i: int) -> Seq<char> {
    if i < 0 {
        seq!['-'] + udec((-i) as nat)
    } else {
        udec(i as nat)
    }
}

fn digit_str(d: u64) -> (s: &'static str)
    requires
        d < 10,
    ensures
        s@ == seq![dec_digit(d as nat)],
{
    proof {
        reveal_strlit("0");
        reveal_strlit("1");
        reveal_strlit("2");
        reveal_strlit("3");
        reveal_strlit("4");
        reveal_strlit("5");
        reveal_strlit("6");
        reveal_strlit("7");
        reveal_strlit("8");
        reveal_strlit("9");
    }
    let s: &'static str = match d {
        0 => "0",
        1 => "1",
        2 => "2",
        3 => "3",
        4 => "4",
        5 => "5",
        6 => "6",
        7 => "7",
        8 => "8",
        _ => "9",
    };
    proof {
        assert(s@ =~= seq![dec_digit(d as nat)]);
    }
    s
}

/// Render an unsigned integer in decimal.
pub fn u64_to_dec(n: u64) -> (s: String)
    ensures
        s@ == udec(n as nat),
    decreases n,
{
    if n < 10 {
        let s = digit_str(n).to_owned();
        s
    } else {
        let mut s = u64_to_dec(n / 10);
        s.append(digit_str(n % 10));
        proof {
            assert(s@ =~= udec(n as nat));
        }
        s
    }
}

/// Render a signed integer in decimal.
pub fn i64_to_dec(i: i64) -> (s: String)
    ensures
        s@ == idec(i as int),
{
    if i < 0 {
        let mag: u64 = if i == i64::MIN {
            9223372036854775808u64
        } else {
            (-i) as u64
        };
        let mut s = String::new();
        proof {
            reveal_strlit("-");
        }
        s.append("-");
        let digits = u64_to_dec(mag);
        s.append(digits.as_str());
        proof {
            assert(s@ =~= idec(i as int));
        }
        s
    } else {
        u64_to_dec(i as u64)
    }
}

/// Render an `i32` in decimal.
pub fn i32_to_dec(i: i32) -> (s: String)
    ensures
        s@ == idec(i as int),
{
    i64_to_dec(i as i64)
}

/// Render a `usize` in decimal.
pub fn usize_to_dec(n: usize) -> (s: String)
    ensures
        s@ == udec(n as nat),
{
    u64_to_dec(n as u64)
}

// ---------------------------------------------------------------------------
// SQL single-quote escaping
// ---------------------------------------------------------------------------

/// What one character contributes to a single-quote-escaped string:
/// a quote is doubled, anything else is kept.
pub open spec fn quote_escaped_char(c: char) -> Seq<char> {
    if c == '\'' {
        seq!['\'', '\'']
    } else {
        seq![c]
    }
}

/// A string with every single quote doubled, ready to stand between
/// single quotes in SQL text.
pub open spec fn quote_escaped(s: Seq<char>) -> Seq<char>
    decreases s.len(),
{
    if s.len() == 0 {
        Seq::empty()
    } else {
        quote_escaped(s.drop_last()) + quote_escaped_char(s.last())
    }
}

/// Double every single quote in a string.
#[verifier::loop_isolation(false)]
pub fn escape_sql_quotes(s: &str) -> (r: String)
    ensures
        r@ == quote_escaped(s@),
{
    let n = s.unicode_len();
    let mut r = String::new();
    proof {
        reveal_strlit("''");
    }
    for i in 0..n
        invariant
            r@ == quote_escaped(s@.take(i as int)),
    {
        let c = s.get_char(i);
        if c == '\'' {
            r.append("''");
        } else {
            r.append(s.substring_char(i, i + 1));
        }
        proof {
            assert(s@.take(i + 1).drop_last() =~= s@.take(i as int));
            assert(r@ =~= quote_escaped(s@.take(i + 1)));
        }
    }
    proof {
        assert(s@.take(n as int) =~= s@);
    }
    r
}

// ---------------------------------------------------------------------------
// Joining
// ---------------------------------------------------------------------------

/// The character sequences of a list of strings.
pub open spec fn views(v: Seq<String>) -> Seq<Seq<char>> {
    v.map_values(|s: String| s@)
}

/// Appending a string appends its character sequence to the views.
pub proof fn lemma_views_push(pre: Seq<String>, s: String)
    ensures
        views(pre.push(s)) == views(pre).push(s@),
{
    let l = views(pre.push(s));
    let r = views(pre).push(s@);
    assert forall|k: int| 0 <= k < l.len() implies l[k] == r[k] by {
        assert(l[k] == pre.push(s)[k]@);
        if k < pre.len() {
            assert(r[k] == views(pre)[k]);
            assert(views(pre)[k] == pre[k]@);
        } else {
            assert(r[k] == s@);
        }
    }
    assert(l =~= r);
}

/// Push a string onto a list, tracking the list of views.
pub fn push_string(v: &mut Vec<String>, s: String)
    ensures
        final(v)@ == old(v)@.push(s),
        views(final(v)@) == views(old(v)@).push(s@),
{
    proof {
        lemma_views_push(v@, s);
    }
    v.push(s);
}

/// The parts joined with the separator between neighbours.
pub open spec fn joined(parts: Seq<Seq<char>>, sep: Seq<char>) -> Seq<char>
    decreases parts.len(),
{
    if parts.len() == 0 {
        Seq::empty()
    } else if parts.len() == 1 {
        parts[0]
    } else {
        joined(parts.drop_last(), sep) + sep + parts.last()
    }
}

/// Join the parts with the separator between neighbours.
#[verifier::loop_isolation(false)]
pub fn join_strings(parts: &Vec<String>, sep: &str) -> (r: String)
    ensures
        r@ == joined(parts@.map_values(|p: String| p@), sep@),
{
    let ghost views = parts@.map_values(|p: String| p@);
    let mut r = String::new();
    for i in 0..parts.len()
        invariant
            r@ == joined(views.take(i as int), sep@),
    {
        if i > 0 {
            r.append(sep);
        }
        r.append(parts[i].as_str());
        proof {
            assert(views.take(i + 1).drop_last() =~= views.take(i as int));
            if i > 0 {
                assert(r@ =~= joined(views.take(i + 1), sep@));
            } else {
                assert(r@ =~= joined(views.take(i + 1), sep@));
            }
        }
    }
    proof {
        assert(views.take(parts@.len() as int) =~= views);
    }
    r
}

// ---------------------------------------------------------------------------
// Splitting on a separator character
// ---------------------------------------------------------------------------

/// The pieces of a sequence split on a separator character; one more
/// piece than separators, empty pieces kept.
pub open spec fn split_seq(s: Seq<char>, c: char) -> Seq<Seq<char>>
    decreases s.len(),
{
    if s.len() == 0 {
        seq![Seq::empty()]
    } else {
        let rest = split_seq(s.drop_first(), c);
        if s.first() == c {
            seq![Seq::<char>::empty()] + rest
        } else {
            seq![seq![s.first()] + rest.first()] + rest.drop_first()
        }
    }
}

/// A split has at least one piece.
pub proof fn lemma_split_seq_len(s: Seq<char>, c: char)
    ensures
        split_seq(s, c).len() >= 1,
    decreases s.len(),
{
    if s.len() > 0 {
        lemma_split_seq_len(s.drop_first(), c);
    }
}

/// The remaining pieces when the current piece has `cur` collected.
pub open spec fn split_cont(cur: Seq<char>, parts: Seq<Seq<char>>) -> Seq<Seq<char>> {
    seq![cur + parts.first()] + parts.drop_first()
}

/// Split a string on a separator character, keeping empty pieces.
#[verifier::loop_isolation(false)]
pub fn split_char(s: &str, c: char) -> (r: Vec<String>)
    ensures
        views(r@) == split_seq(s@, c),
{
    let n = s.unicode_len();
    let mut pieces: Vec<String> = Vec::new();
    let mut cur = String::new();
    proof {
        lemma_split_seq_len(s@, c);
        assert(s@.skip(0) =~= s@);
        assert(split_cont(cur@, split_seq(s@, c)) =~= split_seq(s@, c));
        assert(views(pieces@) + split_cont(cur@, split_seq(s@.skip(0), c)) =~= split_seq(s@, c));
    }
    for i in 0..n
        invariant
            split_seq(s@, c) == views(pieces@) + split_cont(cur@, split_seq(s@.skip(i as int), c)),
    {
        let ghost pre = split_seq(s@.skip(i as int), c);
        let ghost post = split_seq(s@.skip(i + 1), c);
        proof {
            lemma_split_seq_len(s@, c);
            lemma_split_seq_len(s@.skip(i + 1), c);
            assert(s@.skip(i as int).drop_first() =~= s@.skip(i + 1));
            assert(s@.skip(i as int).first() == s@[i as int]);
        }
        let ch = s.get_char(i);
        if ch == c {
            proof {
                assert(pre =~= seq![Seq::<char>::empty()] + post);
                assert(pre.drop_first() =~= post);
            }
            let done = cur;
            cur = String::new();
            push_string(&mut pieces, done);
            proof {
                assert(views(pieces@) + split_cont(cur@, post) =~= split_seq(s@, c));
            }
        } else {
            let ghost cur_pre = cur@;
            cur.append(s.substring_char(i, i + 1));
            proof {
                assert(pre =~= seq![seq![s@[i as int]] + post.first()] + post.drop_first());
                assert(pre.first() == seq![s@[i as int]] + post.first());
                assert(pre.drop_first() =~= post.drop_first());
                assert(cur@ =~= cur_pre + seq![s@[i as int]]);
                assert(cur_pre + pre.first() =~= cur@ + post.first());
                assert(split_cont(cur_pre, pre) =~= split_cont(cur@, post));
            }
        }
    }
    proof {
        assert(s@.skip(n as int).len() == 0);
        assert(split_cont(cur@, split_seq(s@.skip(n as int), c)) =~= seq![cur@]);
    }
    push_string(&mut pieces, cur);
    proof {
        assert(views(pieces@) =~= split_seq(s@, c));
    }
    pieces
}

// ---------------------------------------------------------------------------
// Trimming surrounding whitespace
// ---------------------------------------------------------------------------

/// Whether a character is blank: space, tab, newline or carriage return.
pub open spec fn is_blank(c: char) -> bool {
    c == ' ' || c == '\t' || c == '\n' || c == '\r'
}

/// The sequence with leading blanks removed.
pub open spec fn ltrimmed(s: Seq<char>) -> Seq<char>
    decreases s.len(),
{
    if s.len() > 0 && is_blank(s.first()) {
        ltrimmed(s.drop_first())
    } else {
        s
    }
}

/// The sequence with trailing blanks removed.
pub open spec fn rtrimmed(s: Seq<char>) -> Seq<char>
    decreases s.len(),
{
    if s.len() > 0 && is_blank(s.last()) {
        rtrimmed(s.drop_last())
    } else {
        s
    }
}

/// The sequence with surrounding blanks removed.
pub open spec fn trimmed(s: Seq<char>) -> Seq<char> {
    rtrimmed(ltrimmed(s))
}

proof fn lemma_ltrimmed_skip(s: Seq<char>, i: int)
    requires
        0 <= i <= s.len(),
        forall|j: int| 0 <= j < i ==> is_blank(s[j]),
    ensures
        ltrimmed(s) == ltrimmed(s.skip(i)),
    decreases i,
{
    if i > 0 {
        assert(s.drop_first() =~= s.skip(1));
        lemma_ltrimmed_skip(s.skip(1), i - 1);
        assert(s.skip(1).skip(i - 1) =~= s.skip(i));
    } else {
        assert(s.skip(0) =~= s);
    }
}

proof fn lemma_rtrimmed_take(s: Seq<char>, i: int)
    requires
        0 <= i <= s.len(),
        forall|j: int| i <= j < s.len() ==> is_blank(s[j]),
    ensures
        rtrimmed(s) == rtrimmed(s.take(i)),
    decreases s.len() - i,
{
    if i < s.len() {
        assert(s.drop_last() =~= s.take(s.len() - 1));
        lemma_rtrimmed_take(s.take(s.len() - 1), i);
        assert(s.take(s.len() - 1).take(i) =~= s.take(i));
    } else {
        assert(s.take(i) =~= s);
    }
}

/// Remove surrounding blanks from a string.
#[verifier::loop_isolation(false)]
pub fn trim_blanks(s: &str) -> (r: String)
    ensures
        r@ == trimmed(s@),
{
    let n = s.unicode_len();
    let mut a: usize = 0;
    while a < n && is_blank_at(s, a)
        invariant
            a <= n,
            forall|j: int| 0 <= j < a ==> is_blank(s@[j]),
        decreases n - a,
    {
        a = a + 1;
    }
    proof {
        lemma_ltrimmed_skip(s@, a as int);
        if a < n {
            assert(s@.skip(a as int).first() == s@[a as int]);
            assert(ltrimmed(s@.skip(a as int)) == s@.skip(a as int));
        } else {
            assert(s@.skip(a as int).len() == 0);
        }
    }
    let mut b: usize = n;
    while b > a && is_blank_at(s, b - 1)
        invariant
            a <= b <= n,
            forall|j: int| b <= j < n ==> is_blank(s@[j]),
        decreases b,
    {
        b = b - 1;
    }
    let piece = s.substring_char(a, b).to_owned();
    proof {
        let t = s@.skip(a as int);
        lemma_rtrimmed_take(t, b - a);
        if b > a {
            assert(t.take(b - a).last() == s@[b - 1]);
            assert(rtrimmed(t.take(b - a)) == t.take(b - a));
        } else {
            assert(t.take(0).len() == 0);
        }
        assert(piece@ =~= t.take(b - a));
        assert(piece@ == trimmed(s@));
    }
    piece
}

/// Whether position `i` of `s` holds a blank character.
fn is_blank_at(s: &str, i: usize) -> (r: bool)
    requires
        i < s@.len(),
    ensures
        r == is_blank(s@[i as int]),
{
    let c = s.get_char(i);
    c == ' ' || c == '\t' || c == '\n' || c == '\r'
}

// ---------------------------------------------------------------------------
// Prefix and substring tests
// ---------------------------------------------------------------------------

/// Whether `p` is a prefix of `s`.
pub open spec fn prefix_of(p: Seq<char>, s: Seq<char>) -> bool {
    p.len() <= s.len() && s.take(p.len() as int) == p
}

/// Whether `needle` occurs inside `hay` as a contiguous run.
pub open spec fn has_substring(hay: Seq<char>, needle: Seq<char>) -> bool {
    exists|i: int|
        0 <= i <= hay.len() - needle.len() && #[trigger] hay.subrange(i, i + needle.len())
            == needle
}

/// Whether `s` starts with the prefix `p`, by characters.
#[verifier::loop_isolation(false)]
pub fn starts_with(s: &str, p: &str) -> (r: bool)
    ensures
        r == prefix_of(p@, s@),
{
    let sn = s.unicode_len();
    let pn = p.unicode_len();
    if pn > sn {
        return false;
    }
    for i in 0..pn
        invariant
            pn <= sn,
            forall|j: int| 0 <= j < i ==> s@[j] == p@[j],
    {
        if s.get_char(i) != p.get_char(i) {
            assert(s@.take(pn as int)[i as int] != p@[i as int]);
            return false;
        }
    }
    proof {
        assert(s@.take(pn as int) =~= p@);
    }
    true
}

// ---------------------------------------------------------------------------
// Lexicographic order and sorting of name lists
// ---------------------------------------------------------------------------

/// Lexicographic order on character sequences, by code point.
pub open spec fn chars_le(a: Seq<char>, b: Seq<char>) -> bool
    decreases a.len(),
{
    if a.len() == 0 {
        true
    } else if b.len() == 0 {
        false
    } else if a.first() < b.first() {
        true
    } else if a.first() > b.first() {
        false
    } else {
        chars_le(a.drop_first(), b.drop_first())
    }
}

/// The order the sorted name lists observe.
pub open spec fn string_le(a: String, b: String) -> bool {
    chars_le(a@, b@)
}

/// `chars_le` is total: of two sequences, one is below the other.
pub proof fn lemma_chars_le_total(a: Seq<char>, b: Seq<char>)
    ensures
        chars_le(a, b) || chars_le(b, a),
    decreases a.len(),
{
    if a.len() == 0 || b.len() == 0 {
    } else if a.first() == b.first() {
        lemma_chars_le_total(a.drop_first(), b.drop_first());
    }
}

/// `chars_le` is reflexive.
pub proof fn lemma_chars_le_refl(a: Seq<char>)
    ensures
        chars_le(a, a),
    decreases a.len(),
{
    if a.len() > 0 {
        lemma_chars_le_refl(a.drop_first());
    }
}

/// `chars_le` is transitive.
pub proof fn lemma_chars_le_trans(a: Seq<char>, b: Seq<char>, c: Seq<char>)
    requires
        chars_le(a, b),
        chars_le(b, c),
    ensures
        chars_le(a, c),
    decreases a.len(),
{
    if a.len() == 0 {
    } else {
        if a.first() == b.first() && b.first() == c.first() {
            lemma_chars_le_trans(a.drop_first(), b.drop_first(), c.drop_first());
        }
    }
}

/// Compare two string slices in lexicographic character order.
#[verifier::loop_isolation(false)]
pub fn str_le(a: &str, b: &str) -> (r: bool)
    ensures
        r == chars_le(a@, b@),
{
    let an = a.unicode_len();
    let bn = b.unicode_len();
    let m: usize = if an < bn {
        an
    } else {
        bn
    };
    proof {
        assert(a@.skip(0) =~= a@);
        assert(b@.skip(0) =~= b@);
    }
    for i in 0..m
        invariant
            chars_le(a@, b@) == chars_le(a@.skip(i as int), b@.skip(i as int)),
    {
        let ca = a.get_char(i);
        let cb = b.get_char(i);
        if ca < cb {
            return true;
        }
        if ca > cb {
            return false;
        }
        proof {
            assert(a@.skip(i as int).drop_first() =~= a@.skip(i + 1));
            assert(b@.skip(i as int).drop_first() =~= b@.skip(i + 1));
        }
    }
    if an <= bn {
        proof {
            assert(a@.skip(m as int).len() == 0);
        }
        true
    } else {
        proof {
            assert(b@.skip(m as int).len() == 0);
            assert(a@.skip(m as int).len() > 0);
        }
        false
    }
}

/// Whether a list of names stands in lexicographic order.
pub open spec fn strings_sorted(s: Seq<String>) -> bool {
    forall|i: int, j: int| 0 <= i < j < s.len() ==> chars_le(#[trigger] s[i]@, #[trigger] s[j]@)
}

/// Sort a list of names into lexicographic order, keeping exactly the
/// same names (as a multiset).
#[verifier::loop_isolation(false)]
pub fn sort_strings(v: Vec<String>) -> (r: Vec<String>)
    ensures
        strings_sorted(r@),
        r@.to_multiset() == v@.to_multiset(),
{
    broadcast use vstd::seq_lib::group_to_multiset_ensures;

    let mut src = v;
    let mut out: Vec<String> = Vec::new();
    let ghost all = src@.to_multiset();
    while src.len() > 0
        invariant
            out@.to_multiset().add(src@.to_multiset()) =~= all,
            strings_sorted(out@),
            forall|k: int, l: int|
                0 <= k < out@.len() && 0 <= l < src@.len() ==> chars_le(
                    #[trigger] out@[k]@,
                    #[trigger] src@[l]@,
                ),
        decreases src.len(),
    {
        let mut m: usize = 0;
        proof {
            lemma_chars_le_refl(src@[0]@);
        }
        for i in 1..src.len()
            invariant
                m < src@.len(),
                forall|l: int| 0 <= l < i ==> chars_le(src@[m as int]@, #[trigger] src@[l]@),
        {
            let ghost m_old = m as int;
            if !str_le(src[m].as_str(), src[i].as_str()) {
                proof {
                    lemma_chars_le_total(src@[m_old]@, src@[i as int]@);
                }
                m = i;
                proof {
                    lemma_chars_le_refl(src@[i as int]@);
                    assert forall|l: int| 0 <= l < i implies chars_le(
                        src@[m as int]@,
                        #[trigger] src@[l]@,
                    ) by {
                        lemma_chars_le_trans(src@[i as int]@, src@[m_old]@, src@[l]@);
                    }
                }
            }
        }
        let ghost src_old = src@;
        let ghost out_old = out@;
        let x = src.remove(m);
        out.push(x);
        proof {
            assert(out@ =~= out_old.push(x));
            assert forall|k: int, l: int|
                0 <= k < out@.len() && 0 <= l < src@.len() implies chars_le(
                #[trigger] out@[k]@,
                #[trigger] src@[l]@,
            ) by {
                let orig = if l < m as int {
                    l
                } else {
                    l + 1
                };
                assert(src@[l] == src_old[orig]);
                if k < out_old.len() {
                    assert(chars_le(out_old[k]@, src_old[orig]@));
                } else {
                    assert(out@[k] == src_old[m as int]);
                    assert(chars_le(src_old[m as int]@, src_old[orig]@));
                }
            }
            assert forall|k: int, l: int| 0 <= k < l < out@.len() implies chars_le(
                #[trigger] out@[k]@,
                #[trigger] out@[l]@,
            ) by {
                if l < out_old.len() {
                    assert(chars_le(out_old[k]@, out_old[l]@));
                } else {
                    assert(out@[l] == src_old[m as int]);
                    assert(chars_le(out_old[k]@, src_old[m as int]@));
                }
            }
            assert(out@.to_multiset().add(src@.to_multiset()) =~= all);
        }
    }
    proof {
        assert(out@.to_multiset() =~= all);
    }
    out
}

// ---------------------------------------------------------------------------
// Trusted bridges to std string functions that vstd leaves unspecified
// ---------------------------------------------------------------------------

/// Relies on str's `PartialEq`: two string slices are equal exactly when
/// their character sequences are.
#[verifier::external_body]
pub fn str_eq(a: &str, b: &str) -> (r: bool)
    ensures
        r == (a@ == b@),
{
    a == b
}

/// Relies on str::contains with a `&str` pattern: true exactly when the
/// needle occurs in the haystack as a contiguous substring.
#[verifier::external_body]
pub fn str_contains(hay: &str, needle: &str) -> (r: bool)
    ensures
        r == has_substring(hay@, needle@),
{
    hay.contains(needle)
}

/// The lowercase form a string is folded to; the result depends on the
/// characters alone.
pub uninterp spec fn lower_of(s: Seq<char>) -> Seq<char>;

/// Relies on str::to_lowercase: the result is a function of the characters
/// alone, and an empty string stays empty.
#[verifier::external_body]
pub fn to_lower(s: &str) -> (r: String)
    ensures
        r@ == lower_of(s@),
        s@.len() == 0 ==> r@.len() == 0,
{
    s.to_lowercase()
}

/// The uppercase form a string is folded to; the result depends on the
/// characters alone.
pub uninterp spec fn upper_of(s: Seq<char>) -> Seq<char>;

/// Relies on str::to_uppercase: the result is a function of the
/// characters alone, and an empty string stays empty.
#[verifier::external_body]
pub fn to_upper(s: &str) -> (r: String)
    ensures
        r@ == upper_of(s@),
        s@.len() == 0 ==> r@.len() == 0,
{
    s.to_uppercase()
}

/// Whether the lowercase folding of `needle` occurs inside the lowercase
/// folding of `hay`: the case-insensitive substring test the list
/// searches use.
pub open spec fn contains_ci(hay: Seq<char>, needle: Seq<char>) -> bool {
    has_substring(lower_of(hay), lower_of(needle))
}

/// Case-insensitive substring test.
pub fn str_contains_ci(hay: &str, needle: &str) -> (r: bool)
    ensures
        r == contains_ci(hay@, needle@),
{
    let h = to_lower(hay);
    let n = to_lower(needle);
    str_contains(h.as_str(), n.as_str())
}

} // verus!
