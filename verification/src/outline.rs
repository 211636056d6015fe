//! What the manuscript outline says: its title and the targets it names.

use vstd::prelude::*;
use crate::text::{chars_of, contains, contains_spec, owned, string_from_chars, trim_bounds_of, trim_spec};

verus! {

/// The lines of `s[..m]`, split at `'\n'`; the last one may be empty.
pub open spec fn split_lines(s: Seq<char>, m: int) -> Seq<Seq<char>>
    decreases m,
{
    if m <= 0 {
        seq![Seq::empty()]
    } else {
        let prev = split_lines(s, m - 1);
        if s[m - 1] == '\n' {
            prev.push(Seq::empty())
        } else {
            prev.update(prev.len() - 1, prev.last().push(s[m - 1]))
        }
    }
}

/// The first line from line `k` on that is not blank, trimmed.
pub open spec fn first_nonblank(lines: Seq<Seq<char>>, k: int) -> Option<Seq<char>>
    decreases lines.len() - k,
{
    if k < 0 || k >= lines.len() {
        None
    } else if trim_spec(lines[k]).len() > 0 {
        Some(trim_spec(lines[k]))
    } else {
        first_nonblank(lines, k + 1)
    }
}

/// The detected title: the first non-blank line after the first line, trimmed.
pub open spec fn title_spec(text: Seq<char>) -> Seq<char> {
    match first_nonblank(split_lines(text, text.len() as int), 1) {
        Some(t) => t,
        None => "(title not detected)"@,
    }
}

proof fn lemma_split_lines_nonempty(s: Seq<char>, m: int)
    ensures
        split_lines(s, m).len() >= 1,
    decreases m,
{
    if m > 0 {
        lemma_split_lines_nonempty(s, m - 1);
    }
}

/// The characters that trimming keeps.
fn trimmed_chars(v: &[char]) -> (r: Vec<char>)
    ensures
        r@ == trim_spec(v@),
{
    let (lo, hi) = trim_bounds_of(v);
    let mut out: Vec<char> = Vec::new();
    let mut j = lo;
    while j < hi
        invariant
            lo <= j <= hi <= v.len(),
            out@ == v@.subrange(lo as int, j as int),
        decreases hi - j,
    {
        out.push(v[j]);
        assert(v@.subrange(lo as int, j + 1) =~= v@.subrange(lo as int, j as int).push(v@[j as int]));
        j = j + 1;
    }
    out
}

/// Detect a rough title: the first non-blank line after the first one, trimmed.
pub fn detect_title(full_text: &str) -> (r: String)
    ensures
        r@ == title_spec(full_text@),
{
    let v = chars_of(full_text);
    let ghost s = v@;
    let mut lines: Vec<Vec<char>> = Vec::new();
    let mut current: Vec<char> = Vec::new();
    let mut i: usize = 0;
    while i < v.len()
        invariant
            i <= v.len(),
            s == v@,
            lines@.map_values(|l: Vec<char>| l@).push(current@) == split_lines(s, i as int),
        decreases v.len() - i,
    {
        let ghost before = lines@.map_values(|l: Vec<char>| l@).push(current@);
        if v[i] == '\n' {
            let done = current;
            lines.push(done);
            current = Vec::new();
            assert(lines@.map_values(|l: Vec<char>| l@).push(current@) =~= before.push(Seq::empty()));
        } else {
            current.push(v[i]);
            assert(lines@.map_values(|l: Vec<char>| l@).push(current@) =~= before.update(
                before.len() - 1,
                before.last().push(v@[i as int]),
            ));
        }
        i = i + 1;
    }
    lines.push(current);
    let ghost all = lines@.map_values(|l: Vec<char>| l@);
    assert(all == split_lines(s, s.len() as int));
    let mut k: usize = 1;
    while k < lines.len()
        invariant
            1 <= k,
            k <= lines.len() || lines.len() == 0,
            all == lines@.map_values(|l: Vec<char>| l@),
            s == full_text@,
            all == split_lines(s, s.len() as int),
            first_nonblank(all, 1) == first_nonblank(all, k as int),
        decreases lines.len() - k,
    {
        let t = trimmed_chars(lines[k].as_slice());
        assert(all[k as int] == lines@[k as int]@);
        if t.len() > 0 {
            return string_from_chars(t.as_slice());
        }
        assert(all[k as int] == lines@[k as int]@);
        k = k + 1;
    }
    proof {
        reveal_strlit("(title not detected)");
    }
    let fallback = owned("(title not detected)");
    assert(trim_spec("(title not detected)"@) == "(title not detected)"@) by {
        reveal_strlit("(title not detected)");
        crate::text::lemma_trim_of_unpadded("(title not detected)"@);
    }
    fallback
}

/// The targets named in the outline, in the order Na, Cl, TDS, B, F, NO3.
pub open spec fn outline_targets(text: Seq<char>) -> Seq<Seq<char>> {
    seq!["Na"@, "Cl"@, "TDS"@, "B"@, "F"@, "NO3"@].filter(|t: Seq<char>| contains_spec(text, t))
}

/// Returns the targets explicitly listed in the outline.
/// We scan for the list: Na / Cl / TDS / B / F / NO3.
pub fn extract_targets_from_outline(outline_text: &str) -> (r: Vec<String>)
    ensures
        r@.map_values(|s: String| s@) == outline_targets(outline_text@),
{
    let mut r: Vec<String> = Vec::new();
    let ghost cands = seq!["Na"@, "Cl"@, "TDS"@, "B"@, "F"@, "NO3"@];
    let ghost p = |t: Seq<char>| contains_spec(outline_text@, t);
    if contains(outline_text, "Na") {
        r.push(owned("Na"));
    }
    if contains(outline_text, "Cl") {
        r.push(owned("Cl"));
    }
    if contains(outline_text, "TDS") {
        r.push(owned("TDS"));
    }
    if contains(outline_text, "B") {
        r.push(owned("B"));
    }
    if contains(outline_text, "F") {
        r.push(owned("F"));
    }
    if contains(outline_text, "NO3") {
        r.push(owned("NO3"));
    }
    proof {
        reveal_with_fuel(Seq::<Seq<char>>::filter, 7);
        assert(cands.take(6) =~= cands);
    }
    assert(r@.map_values(|s: String| s@) =~= outline_targets(outline_text@));
    r
}

} // verus!
