//! Checks of the raw groundwater table before ingestion: the columns the
//! analysis needs and the count of below-detection-limit cells.

use vstd::prelude::*;
use crate::io::CsvRow;
use crate::leakage::{any_equal, list_has};
use crate::pipeline::str_views;
use crate::text::{eq_ignore_ascii_case, eq_ignore_ascii_case_spec, owned, trim, trim_spec};

verus! {

/// The columns the analysis needs, in order.
pub open spec fn required_columns_spec() -> Seq<Seq<char>> {
    seq!["SampleID"@, "Dx"@, "Dy"@, "Na"@, "Cl"@, "TDS"@, "F"@, "NO3"@]
}

/// The columns the analysis needs, in order.
pub fn required_columns() -> (r: Vec<&'static str>)
    ensures
        str_views(r@) == required_columns_spec(),
{
    let mut v: Vec<&'static str> = Vec::new();
    v.push("SampleID");
    v.push("Dx");
    v.push("Dy");
    v.push("Na");
    v.push("Cl");
    v.push("TDS");
    v.push("F");
    v.push("NO3");
    assert(str_views(v@) =~= required_columns_spec());
    v
}

/// The entries of `wanted`, in order, that no header equals.
pub open spec fn missing_spec(headers: Seq<String>, wanted: Seq<Seq<char>>) -> Seq<Seq<char>> {
    wanted.filter(|w: Seq<char>| !any_equal(headers, w))
}

/// The entries of `wanted`, in order, that no header equals.
pub fn missing_columns(headers: &[String], wanted: &[&str]) -> (r: Vec<String>)
    ensures
        r@.map_values(|s: String| s@) == missing_spec(headers@, str_views(wanted@)),
{
    let ghost w = str_views(wanted@);
    let mut out: Vec<String> = Vec::new();
    let mut i: usize = 0;
    while i < wanted.len()
        invariant
            i <= wanted.len(),
            w == str_views(wanted@),
            out@.map_values(|s: String| s@) == missing_spec(headers@, w.take(i as int)),
        decreases wanted.len() - i,
    {
        let name = wanted[i];
        let present = list_has(headers, name);
        let ghost prev = out@.map_values(|s: String| s@);
        assert(w.take(i + 1) =~= w.take(i as int).push(name@));
        if !present {
            out.push(owned(name));
            assert(out@.map_values(|s: String| s@) =~= prev.push(name@));
        } else {
            assert(out@.map_values(|s: String| s@) =~= prev);
        }
        proof {
            w.take(i as int).lemma_filter_push(name@, |x: Seq<char>| !any_equal(headers@, x));
        }
        i = i + 1;
    }
    assert(w.take(wanted.len() as int) =~= w);
    out
}

/// A cell whose trimmed text is `bdl` in any ASCII case.
pub open spec fn is_bdl_cell(v: Seq<char>) -> bool {
    eq_ignore_ascii_case_spec(trim_spec(v), "bdl"@)
}

/// The number of BDL cells among the first `m` cells of a row.
pub open spec fn row_bdl_count(row: Seq<(String, String)>, m: int) -> nat
    decreases m,
{
    if m <= 0 {
        0
    } else {
        row_bdl_count(row, m - 1) + if is_bdl_cell(row[m - 1].1@) {
            1nat
        } else {
            0nat
        }
    }
}

/// The number of cells in the first `m` rows.
pub open spec fn cell_total(rows: Seq<CsvRow>, m: int) -> nat
    decreases m,
{
    if m <= 0 {
        0
    } else {
        cell_total(rows, m - 1) + rows[m - 1]@.len()
    }
}

/// The number of BDL cells in the first `m` rows.
pub open spec fn bdl_count(rows: Seq<CsvRow>, m: int) -> nat
    decreases m,
{
    if m <= 0 {
        0
    } else {
        bdl_count(rows, m - 1) + row_bdl_count(rows[m - 1]@, rows[m - 1]@.len() as int)
    }
}

proof fn lemma_row_bdl_bound(row: Seq<(String, String)>, m: int)
    requires
        0 <= m <= row.len(),
    ensures
        row_bdl_count(row, m) <= m,
    decreases m,
{
    if m > 0 {
        lemma_row_bdl_bound(row, m - 1);
    }
}

proof fn lemma_bdl_bound(rows: Seq<CsvRow>, m: int)
    requires
        0 <= m <= rows.len(),
    ensures
        bdl_count(rows, m) <= cell_total(rows, m),
    decreases m,
{
    if m > 0 {
        lemma_bdl_bound(rows, m - 1);
        lemma_row_bdl_bound(rows[m - 1]@, rows[m - 1]@.len() as int);
    }
}

proof fn lemma_cell_total_mono(rows: Seq<CsvRow>, a: int, b: int)
    requires
        0 <= a <= b <= rows.len(),
    ensures
        cell_total(rows, a) <= cell_total(rows, b),
    decreases b,
{
    if a < b {
        lemma_cell_total_mono(rows, a, b - 1);
    }
}

/// The number of cells of the table whose trimmed text reads `bdl` in any
/// ASCII case.
pub fn count_bdl_cells(rows: &[CsvRow]) -> (r: usize)
    requires
        cell_total(rows@, rows@.len() as int) <= usize::MAX,
    ensures
        r == bdl_count(rows@, rows@.len() as int),
{
    let mut count: usize = 0;
    let mut i: usize = 0;
    while i < rows.len()
        invariant
            i <= rows.len(),
            cell_total(rows@, rows@.len() as int) <= usize::MAX,
            count == bdl_count(rows@, i as int),
        decreases rows.len() - i,
    {
        let row = &rows[i];
        let mut j: usize = 0;
        let mut in_row: usize = 0;
        while j < row.len()
            invariant
                j <= row.len(),
                *row == rows@[i as int],
                in_row == row_bdl_count(row@, j as int),
                in_row <= j,
            decreases row.len() - j,
        {
            let t = trim(row[j].1.as_str());
            if eq_ignore_ascii_case(t.as_str(), "bdl") {
                in_row = in_row + 1;
            }
            j = j + 1;
        }
        proof {
            lemma_bdl_bound(rows@, i + 1);
            lemma_cell_total_mono(rows@, i + 1, rows@.len() as int);
        }
        count = count + in_row;
        i = i + 1;
    }
    count
}

} // verus!
