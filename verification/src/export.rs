//! CSV text for the R and GIS exports.

use vstd::prelude::*;
use crate::text::{chars_of, contains_char, push_char, string_from_chars};

verus! {

/// The field needs quoting: it holds a comma, a double quote or a newline.
pub open spec fn needs_quoting(s: Seq<char>) -> bool {
    s.contains(',') || s.contains('"') || s.contains('\n')
}

/// `s[..m]` with every double quote doubled.
pub open spec fn doubled_quotes(s: Seq<char>, m: int) -> Seq<char>
    decreases m,
{
    if m <= 0 {
        Seq::empty()
    } else {
        doubled_quotes(s, m - 1) + if s[m - 1] == '"' {
            seq!['"', '"']
        } else {
            seq![s[m - 1]]
        }
    }
}

/// A CSV field: quoted, with quotes doubled, when it needs quoting; as is otherwise.
pub open spec fn csv_field(s: Seq<char>) -> Seq<char> {
    if needs_quoting(s) {
        seq!['"'] + doubled_quotes(s, s.len() as int) + seq!['"']
    } else {
        s
    }
}

/// Quote a CSV field when it holds a comma, a double quote or a newline.
pub fn quote_csv(s: &str) -> (r: String)
    ensures
        r@ == csv_field(s@),
{
    let v = chars_of(s);
    if !(contains_char(v.as_slice(), ',') || contains_char(v.as_slice(), '"') || contains_char(v.as_slice(), '\n')) {
        return string_from_chars(v.as_slice());
    }
    let mut out = String::new();
    push_char(&mut out, '"');
    let mut i: usize = 0;
    while i < v.len()
        invariant
            i <= v.len(),
            out@ == seq!['"'] + doubled_quotes(v@, i as int),
        decreases v.len() - i,
    {
        if v[i] == '"' {
            push_char(&mut out, '"');
            push_char(&mut out, '"');
        } else {
            push_char(&mut out, v[i]);
        }
        assert(out@ =~= seq!['"'] + doubled_quotes(v@, i + 1));
        i = i + 1;
    }
    push_char(&mut out, '"');
    out
}

/// The strings joined with `sep` between them.
pub open spec fn join(parts: Seq<Seq<char>>, sep: Seq<char>) -> Seq<char>
    decreases parts.len(),
{
    if parts.len() == 0 {
        Seq::empty()
    } else if parts.len() == 1 {
        parts[0]
    } else {
        join(parts.drop_last(), sep) + sep + parts.last()
    }
}

/// The CSV text: the header line, then one line per row, each ending in a newline.
pub open spec fn csv_text(headers: Seq<Seq<char>>, rows: Seq<Seq<Seq<char>>>) -> Seq<char> {
    join(headers, seq![',']) + seq!['\n'] + csv_lines(rows, rows.len() as int)
}

/// The lines of the first `m` rows.
pub open spec fn csv_lines(rows: Seq<Seq<Seq<char>>>, m: int) -> Seq<char>
    decreases m,
{
    if m <= 0 {
        Seq::empty()
    } else {
        csv_lines(rows, m - 1) + join(rows[m - 1], seq![',']) + seq!['\n']
    }
}

/// Appends the characters of `s`.
fn push_str(out: &mut String, s: &str)
    ensures
        final(out)@ == old(out)@ + s@,
{
    let v = chars_of(s);
    let ghost start = out@;
    let mut i: usize = 0;
    while i < v.len()
        invariant
            i <= v.len(),
            out@ == start + v@.take(i as int),
        decreases v.len() - i,
    {
        push_char(out, v[i]);
        assert(v@.take(i + 1) =~= v@.take(i as int).push(v@[i as int]));
        i = i + 1;
    }
    assert(v@.take(v.len() as int) =~= v@);
}

/// Appends the fields joined with commas.
fn push_joined(out: &mut String, parts: &[String])
    ensures
        final(out)@ == old(out)@ + join(parts@.map_values(|s: String| s@), seq![',']),
{
    let ghost start = out@;
    let ghost pv = parts@.map_values(|s: String| s@);
    let mut i: usize = 0;
    while i < parts.len()
        invariant
            i <= parts.len(),
            pv == parts@.map_values(|s: String| s@),
            out@ == start + join(pv.take(i as int), seq![',']),
        decreases parts.len() - i,
    {
        if i > 0 {
            push_char(out, ',');
        }
        push_str(out, parts[i].as_str());
        proof {
            let t = pv.take(i + 1);
            assert(t.drop_last() =~= pv.take(i as int));
            assert(t.last() == parts@[i as int]@);
            if i == 0 {
                assert(join(t, seq![',']) == t[0]);
            }
        }
        i = i + 1;
    }
    assert(pv.take(parts.len() as int) =~= pv);
}

/// Appends the header names joined with commas.
fn push_joined_strs(out: &mut String, parts: &[&str])
    ensures
        final(out)@ == old(out)@ + join(parts@.map_values(|s: &str| s@), seq![',']),
{
    let ghost start = out@;
    let ghost pv = parts@.map_values(|s: &str| s@);
    let mut i: usize = 0;
    while i < parts.len()
        invariant
            i <= parts.len(),
            pv == parts@.map_values(|s: &str| s@),
            out@ == start + join(pv.take(i as int), seq![',']),
        decreases parts.len() - i,
    {
        if i > 0 {
            push_char(out, ',');
        }
        push_str(out, parts[i]);
        proof {
            let t = pv.take(i + 1);
            assert(t.drop_last() =~= pv.take(i as int));
            assert(t.last() == parts@[i as int]@);
            if i == 0 {
                assert(join(t, seq![',']) == t[0]);
            }
        }
        i = i + 1;
    }
    assert(pv.take(parts.len() as int) =~= pv);
}

/// The views of the fields of each row.
pub open spec fn row_views(rows: Seq<Vec<String>>) -> Seq<Seq<Seq<char>>> {
    rows.map_values(|r: Vec<String>| r@.map_values(|s: String| s@))
}

/// The text of a CSV file: the headers joined with commas, then each row's
/// fields joined with commas, one line each. Fields are written as given.
pub fn render_csv(headers: &[&str], rows: &[Vec<String>]) -> (r: String)
    ensures
        r@ == csv_text(headers@.map_values(|s: &str| s@), row_views(rows@)),
{
    let mut out = String::new();
    push_joined_strs(&mut out, headers);
    push_char(&mut out, '\n');
    let ghost head = out@;
    let ghost rv = row_views(rows@);
    let mut i: usize = 0;
    while i < rows.len()
        invariant
            i <= rows.len(),
            rv == row_views(rows@),
            out@ == head + csv_lines(rv, i as int),
        decreases rows.len() - i,
    {
        push_joined(&mut out, rows[i].as_slice());
        push_char(&mut out, '\n');
        assert(rv[i as int] == rows@[i as int]@.map_values(|s: String| s@));
        assert(out@ =~= head + csv_lines(rv, i + 1));
        i = i + 1;
    }
    out
}

/// The number of newline characters in `s[..m]`.
pub open spec fn newlines(s: Seq<char>, m: int) -> int
    decreases m,
{
    if m <= 0 {
        0
    } else {
        newlines(s, m - 1) + if s[m - 1] == '\n' {
            1int
        } else {
            0int
        }
    }
}

/// The number of lines that `str::lines` yields: one per newline, plus one
/// for a final line without a newline.
pub open spec fn line_count(s: Seq<char>) -> int {
    newlines(s, s.len() as int) + if s.len() > 0 && s.last() != '\n' {
        1int
    } else {
        0int
    }
}

proof fn lemma_newlines_bounded(s: Seq<char>, m: int)
    requires
        0 <= m <= s.len(),
    ensures
        0 <= newlines(s, m) <= m,
    decreases m,
{
    if m > 0 {
        lemma_newlines_bounded(s, m - 1);
    }
}

/// The number of data rows of a CSV text: its lines less the header line.
pub fn data_row_count(content: &str) -> (r: usize)
    ensures
        r == if line_count(content@) > 0 {
            line_count(content@) - 1
        } else {
            0
        },
{
    let v = chars_of(content);
    let mut n: usize = 0;
    let mut i: usize = 0;
    while i < v.len()
        invariant
            i <= v.len(),
            n == newlines(v@, i as int),
            n <= i,
        decreases v.len() - i,
    {
        if v[i] == '\n' {
            n = n + 1;
        }
        i = i + 1;
    }
    let lines = if v.len() > 0 && v[v.len() - 1] != '\n' {
        proof {
            lemma_newlines_bounded(v@, v.len() - 1);
        }
        n + 1
    } else {
        n
    };
    if lines > 0 {
        lines - 1
    } else {
        0
    }
}

} // verus!
