//! The raw groundwater table: CSV bytes parsed by the `csv` crate, then
//! turned into records keyed by trimmed column header.

use vstd::prelude::*;
use crate::io::{pair_lookup, CsvDataset, CsvRow};
use crate::export::join;
use crate::text::{str_eq, trim, trim_spec};

verus! {

/// `csv::Error`, carried through unchanged.
#[verifier::external_type_specification]
#[verifier::external_body]
pub struct ExCsvError(csv::Error);

/// What the `csv` reader (header row expected, fields trimmed, every record
/// as long as the header row) yields for these bytes: the header fields and
/// the records, or `None` where it reports an error.
pub uninterp spec fn csv_table(data: Seq<u8>) -> Option<(Seq<Seq<char>>, Seq<Seq<Seq<char>>>)>;

/// The header row and records as plain text.
pub open spec fn table_view(t: (Vec<String>, Vec<Vec<String>>)) -> (Seq<Seq<char>>, Seq<Seq<Seq<char>>>) {
    (t.0@.map_values(|s: String| s@), t.1@.map_values(|r: Vec<String>| r@.map_values(|s: String| s@)))
}

/// A character that a header field may hold in `one_record_text`: an ASCII
/// letter or digit, `_` or `.`.
pub open spec fn plain_char(c: char) -> bool {
    ('a' <= c && c <= 'z') || ('A' <= c && c <= 'Z') || ('0' <= c && c <= '9') || c == '_' || c == '.'
}

/// A character that a quoted field may hold in `one_record_text`: a plain
/// character, a comma or a space.
pub open spec fn quotable_char(c: char) -> bool {
    plain_char(c) || c == ',' || c == ' '
}

/// A field between double quotes.
pub open spec fn quoted(f: Seq<char>) -> Seq<char> {
    seq!['"'] + f + seq!['"']
}

/// A CSV text of a header row and one record whose every field is quoted.
pub open spec fn one_record_text(hs: Seq<Seq<char>>, fs: Seq<Seq<char>>) -> Seq<char> {
    join(hs, seq![',']) + seq!['\n'] + join(fs.map_values(|f: Seq<char>| quoted(f)), seq![',']) + seq!['\n']
}

/// The header fields are non-empty and plain; the record has as many fields,
/// each non-empty, of quotable characters, not starting or ending with a space.
pub open spec fn one_record_fields_ok(hs: Seq<Seq<char>>, fs: Seq<Seq<char>>) -> bool {
    &&& hs.len() >= 1
    &&& fs.len() == hs.len()
    &&& forall|i: int|
        0 <= i < hs.len() ==> (#[trigger] hs[i]).len() > 0 && (forall|j: int|
            0 <= j < hs[i].len() ==> plain_char(#[trigger] hs[i][j]))
    &&& forall|i: int|
        0 <= i < fs.len() ==> {
            &&& (#[trigger] fs[i]).len() > 0
            &&& fs[i][0] != ' '
            &&& fs[i].last() != ' '
            &&& forall|j: int| 0 <= j < fs[i].len() ==> quotable_char(#[trigger] fs[i][j])
        }
}

/// `csv::ReaderBuilder` with `Trim::All` and `flexible(false)`, reading the
/// header row with `headers` and then every record with `records`; each field
/// copied into a `String`. The result is named by `csv_table`; which error is
/// reported is not stated. Quoting is on, as `ReaderBuilder::quoting`
/// documents for the default, so a field between double quotes is one field
/// with the quotes removed, commas inside it included; stated for a header
/// row of plain fields followed by one record of quoted fields.
#[verifier::external_body]
fn csv_records(data: &[u8]) -> (r: Result<(Vec<String>, Vec<Vec<String>>), csv::Error>)
    ensures
        r is Ok <==> csv_table(data@) is Some,
        r matches Ok(t) ==> csv_table(data@) == Some(table_view(t)),
        r matches Ok(t) ==> forall|x: (Seq<Seq<char>>, Seq<Seq<char>>)|
            one_record_fields_ok(x.0, x.1) && data@ == vstd::utf8::encode_utf8(#[trigger] one_record_text(x.0, x.1))
                ==> table_view(t) == (x.0, seq![x.1]),
        (exists|x: (Seq<Seq<char>>, Seq<Seq<char>>)|
            one_record_fields_ok(x.0, x.1) && data@ == vstd::utf8::encode_utf8(#[trigger] one_record_text(x.0, x.1)))
                ==> r is Ok,
{
    let mut rdr = csv::ReaderBuilder::new().trim(csv::Trim::All).flexible(false).from_reader(data);
    let headers: Vec<String> = rdr.headers()?.iter().map(|s| s.to_string()).collect();
    let mut records: Vec<Vec<String>> = Vec::new();
    for rec in rdr.records() {
        records.push(rec?.iter().map(|s| s.to_string()).collect());
    }
    Ok((headers, records))
}

/// Why the raw table could not be read.
#[derive(Debug)]
pub enum DatasetError {
    /// The `csv` reader's error.
    Csv(csv::Error),
}

// ── Records as keyed pairs ──────────────────────────────────────────────────

/// A record as `(header, value)` text pairs.
pub open spec fn pair_views(row: Seq<(String, String)>) -> Seq<(Seq<char>, Seq<char>)> {
    row.map_values(|e: (String, String)| (e.0@, e.1@))
}

/// The value stored under `key`, as text.
pub open spec fn view_lookup(p: Seq<(Seq<char>, Seq<char>)>, key: Seq<char>) -> Option<Seq<char>>
    decreases p.len(),
{
    if p.len() == 0 {
        None
    } else if p[0].0 == key {
        Some(p[0].1)
    } else {
        view_lookup(p.drop_first(), key)
    }
}

/// Stores `v` under `k`: replaces the entry under `k` where there is one,
/// appends otherwise.
pub open spec fn pairs_insert(p: Seq<(Seq<char>, Seq<char>)>, k: Seq<char>, v: Seq<char>) -> Seq<
    (Seq<char>, Seq<char>),
>
    decreases p.len(),
{
    if p.len() == 0 {
        seq![(k, v)]
    } else if p[0].0 == k {
        seq![(k, v)] + p.drop_first()
    } else {
        seq![p[0]] + pairs_insert(p.drop_first(), k, v)
    }
}

/// The record built from the first `m` fields: each field, trimmed, stored
/// under its trimmed header, a later field replacing an earlier one under
/// the same header.
pub open spec fn record_pairs(headers: Seq<Seq<char>>, fields: Seq<Seq<char>>, m: int) -> Seq<(Seq<char>, Seq<char>)>
    decreases m,
{
    if m <= 0 {
        Seq::empty()
    } else {
        pairs_insert(record_pairs(headers, fields, m - 1), trim_spec(headers[m - 1]), trim_spec(fields[m - 1]))
    }
}

/// The smaller of two lengths.
pub open spec fn min_len(a: int, b: int) -> int {
    if a <= b {
        a
    } else {
        b
    }
}

/// The dataset built from a header row and records: trimmed headers, one
/// keyed record per input record (fields beyond the header row dropped),
/// and the counts.
pub open spec fn dataset_is(d: CsvDataset, headers: Seq<Seq<char>>, records: Seq<Seq<Seq<char>>>) -> bool {
    &&& d.headers@.map_values(|s: String| s@) == headers.map_values(|h: Seq<char>| trim_spec(h))
    &&& d.rows@.len() == records.len()
    &&& forall|k: int|
        0 <= k < records.len() ==> pair_views((#[trigger] d.rows@[k])@) == record_pairs(
            headers,
            records[k],
            min_len(headers.len() as int, records[k].len() as int),
        )
    &&& d.n_rows == records.len()
    &&& d.n_cols == headers.len()
}

proof fn lemma_insert_at(p: Seq<(Seq<char>, Seq<char>)>, k: Seq<char>, v: Seq<char>, i: int)
    requires
        0 <= i < p.len(),
        p[i].0 == k,
        forall|j: int| 0 <= j < i ==> (#[trigger] p[j]).0 != k,
    ensures
        pairs_insert(p, k, v) == p.update(i, (k, v)),
    decreases p.len(),
{
    if i == 0 {
        assert(pairs_insert(p, k, v) =~= p.update(i, (k, v)));
    } else {
        let q = p.drop_first();
        assert forall|j: int| 0 <= j < i - 1 implies (#[trigger] q[j]).0 != k by {
            assert(q[j] == p[j + 1]);
        }
        lemma_insert_at(q, k, v, i - 1);
        assert(pairs_insert(p, k, v) =~= p.update(i, (k, v)));
    }
}

proof fn lemma_insert_new(p: Seq<(Seq<char>, Seq<char>)>, k: Seq<char>, v: Seq<char>)
    requires
        forall|j: int| 0 <= j < p.len() ==> (#[trigger] p[j]).0 != k,
    ensures
        pairs_insert(p, k, v) == p.push((k, v)),
    decreases p.len(),
{
    if p.len() > 0 {
        let q = p.drop_first();
        assert forall|j: int| 0 <= j < q.len() implies (#[trigger] q[j]).0 != k by {
            assert(q[j] == p[j + 1]);
        }
        lemma_insert_new(q, k, v);
        assert(pairs_insert(p, k, v) =~= p.push((k, v)));
    }
}

/// Stores `v` under `k` in a record.
fn row_insert(row: &mut CsvRow, k: String, v: String)
    ensures
        pair_views(final(row)@) == pairs_insert(pair_views(old(row)@), k@, v@),
{
    let ghost p = pair_views(row@);
    let mut i: usize = 0;
    while i < row.len()
        invariant
            i <= row.len(),
            row@ == old(row)@,
            p == pair_views(row@),
            forall|j: int| 0 <= j < i ==> (#[trigger] p[j]).0 != k@,
        decreases row.len() - i,
    {
        if str_eq(row[i].0.as_str(), k.as_str()) {
            proof {
                lemma_insert_at(p, k@, v@, i as int);
            }
            row.set(i, (k, v));
            assert(pair_views(row@) =~= p.update(i as int, (k@, v@)));
            return;
        }
        i = i + 1;
    }
    proof {
        lemma_insert_new(p, k@, v@);
    }
    row.push((k, v));
    assert(pair_views(row@) =~= p.push((k@, v@)));
}

fn trimmed_headers(headers: &Vec<String>) -> (r: Vec<String>)
    ensures
        r@.map_values(|s: String| s@) == headers@.map_values(|s: String| s@).map_values(|h: Seq<char>| trim_spec(h)),
{
    let mut out: Vec<String> = Vec::new();
    let mut i: usize = 0;
    while i < headers.len()
        invariant
            i <= headers.len(),
            out@.len() == i,
            forall|j: int| 0 <= j < i ==> (#[trigger] out@[j])@ == trim_spec(headers@[j]@),
        decreases headers.len() - i,
    {
        out.push(trim(headers[i].as_str()));
        i = i + 1;
    }
    assert(out@.map_values(|s: String| s@) =~= headers@.map_values(|s: String| s@).map_values(
        |h: Seq<char>| trim_spec(h),
    ));
    out
}

fn build_record(headers: &Vec<String>, fields: &Vec<String>) -> (r: CsvRow)
    ensures
        pair_views(r@) == record_pairs(
            headers@.map_values(|s: String| s@),
            fields@.map_values(|s: String| s@),
            min_len(headers@.len() as int, fields@.len() as int),
        ),
{
    let ghost hv = headers@.map_values(|s: String| s@);
    let ghost fv = fields@.map_values(|s: String| s@);
    let n = if headers.len() <= fields.len() {
        headers.len()
    } else {
        fields.len()
    };
    let mut row: CsvRow = Vec::new();
    let mut i: usize = 0;
    while i < n
        invariant
            i <= n,
            n <= headers.len(),
            n <= fields.len(),
            hv == headers@.map_values(|s: String| s@),
            fv == fields@.map_values(|s: String| s@),
            pair_views(row@) == record_pairs(hv, fv, i as int),
        decreases n - i,
    {
        let k = trim(headers[i].as_str());
        let v = trim(fields[i].as_str());
        row_insert(&mut row, k, v);
        i = i + 1;
    }
    row
}

/// The dataset from a header row and records as the `csv` reader gives them.
pub fn build_dataset(headers: Vec<String>, records: Vec<Vec<String>>) -> (d: CsvDataset)
    ensures
        dataset_is(d, table_view((headers, records)).0, table_view((headers, records)).1),
{
    let ghost tv = table_view((headers, records));
    let hs = trimmed_headers(&headers);
    let mut rows: Vec<CsvRow> = Vec::new();
    let mut k: usize = 0;
    while k < records.len()
        invariant
            k <= records.len(),
            tv == table_view((headers, records)),
            rows@.len() == k,
            forall|j: int|
                0 <= j < k ==> pair_views((#[trigger] rows@[j])@) == record_pairs(
                    tv.0,
                    tv.1[j],
                    min_len(tv.0.len() as int, tv.1[j].len() as int),
                ),
        decreases records.len() - k,
    {
        let row = build_record(&headers, &records[k]);
        assert(tv.1[k as int] == records@[k as int]@.map_values(|s: String| s@));
        rows.push(row);
        k = k + 1;
    }
    assert(hs@.map_values(|s: String| s@) == tv.0.map_values(|h: Seq<char>| trim_spec(h)));
    let n_rows = rows.len();
    let n_cols = hs.len();
    CsvDataset { headers: hs, rows, n_rows, n_cols }
}

/// Reads the raw table from the bytes of a CSV file: `Ok` with the dataset
/// exactly when the `csv` reader accepts the bytes.
pub fn read_csv(data: &[u8]) -> (r: Result<CsvDataset, DatasetError>)
    ensures
        r is Ok <==> csv_table(data@) is Some,
        r matches Ok(d) ==> (csv_table(data@) matches Some(t) && dataset_is(d, t.0, t.1)),
        forall|x: (Seq<Seq<char>>, Seq<Seq<char>>)|
            one_record_fields_ok(x.0, x.1) && data@ == vstd::utf8::encode_utf8(#[trigger] one_record_text(x.0, x.1))
                ==> (r matches Ok(d) && dataset_is(d, x.0, seq![x.1])),
{
    match csv_records(data) {
        Ok((headers, records)) => Ok(build_dataset(headers, records)),
        Err(e) => Err(DatasetError::Csv(e)),
    }
}

// ── Reading a record by column ──────────────────────────────────────────────

/// Looking up a key after storing under it gives what was stored; other
/// keys are unaffected.
pub proof fn law_insert_then_lookup(p: Seq<(Seq<char>, Seq<char>)>, k: Seq<char>, v: Seq<char>, key: Seq<char>)
    ensures
        view_lookup(pairs_insert(p, k, v), key) == if key == k {
            Some(v)
        } else {
            view_lookup(p, key)
        },
    decreases p.len(),
{
    let q = pairs_insert(p, k, v);
    if p.len() == 0 {
        assert(q.drop_first() =~= Seq::<(Seq<char>, Seq<char>)>::empty());
    } else if p[0].0 == k {
        assert(q.drop_first() =~= p.drop_first());
        if key != k {
            assert(view_lookup(q, key) == view_lookup(q.drop_first(), key));
            assert(view_lookup(p, key) == view_lookup(p.drop_first(), key));
        }
    } else {
        law_insert_then_lookup(p.drop_first(), k, v, key);
        assert(q.drop_first() =~= pairs_insert(p.drop_first(), k, v));
        assert(q[0] == p[0]);
    }
}

/// Reading a record's cell by column (`crate::io::row_value`) reads the
/// record as text pairs.
pub proof fn lemma_lookup_views(row: Seq<(String, String)>, key: Seq<char>)
    ensures
        match pair_lookup(row, key) {
            Some(v) => view_lookup(pair_views(row), key) == Some(v@),
            None => view_lookup(pair_views(row), key) is None,
        },
    decreases row.len(),
{
    if row.len() > 0 {
        lemma_lookup_views(row.drop_first(), key);
        assert(pair_views(row).drop_first() =~= pair_views(row.drop_first()));
    }
}

} // verus!
