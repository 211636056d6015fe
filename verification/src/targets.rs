//! Ingestion rules for raw samples and measurements: sample identifiers,
//! units, the reading of below-detection-limit markers, cleaning notes and
//! the data-audit summary.

use vstd::prelude::*;
use crate::io::{pair_lookup, row_value, CsvRow};
use crate::text::{
    chars_of, concat, decimal, eq_ignore_ascii_case, eq_ignore_ascii_case_spec, i64_to_string, owned,
    signed_decimal, starts_with_spec, str_eq, string_from_chars, trim, trim_spec, u64_to_string,
    zero_padded, zero_padded_decimal,
};

verus! {

/// The unit of a measured variable.
pub open spec fn unit_for_col(col: Seq<char>) -> Seq<char> {
    if col == "pH"@ {
        "dimensionless"@
    } else if col == "Temp."@ {
        "°C"@
    } else if col == "EC"@ {
        "µS/cm"@
    } else if col == "TDS"@ || col == "Na"@ || col == "K"@ || col == "Mg"@ || col == "Ca"@ || col == "Cl"@
        || col == "SO4"@ || col == "HCO3"@ || col == "CO3"@ || col == "NO3"@ || col == "F"@ || col == "B"@ {
        "mg/L"@
    } else if col == "Dx"@ {
        "decimal_degrees_lon"@
    } else if col == "Dy"@ {
        "decimal_degrees_lat"@
    } else {
        "unknown"@
    }
}

/// The unit of a measured variable.
pub fn infer_unit_for_col(col: &str) -> (r: &'static str)
    ensures
        r@ == unit_for_col(col@),
{
    if str_eq(col, "pH") {
        "dimensionless"
    } else if str_eq(col, "Temp.") {
        "°C"
    } else if str_eq(col, "EC") {
        "µS/cm"
    } else if str_eq(col, "TDS") || str_eq(col, "Na") || str_eq(col, "K") || str_eq(col, "Mg") || str_eq(
        col,
        "Ca",
    ) || str_eq(col, "Cl") || str_eq(col, "SO4") || str_eq(col, "HCO3") || str_eq(col, "CO3") || str_eq(
        col,
        "NO3",
    ) || str_eq(col, "F") || str_eq(col, "B") {
        "mg/L"
    } else if str_eq(col, "Dx") {
        "decimal_degrees_lon"
    } else if str_eq(col, "Dy") {
        "decimal_degrees_lat"
    } else {
        "unknown"
    }
}

/// The identifier of raw sample `row_idx`: its `SampleID` cell, or `ROW_`
/// followed by the 1-based row number padded to four digits.
pub fn raw_sample_id(row: &CsvRow, row_idx: usize) -> (r: String)
    requires
        row_idx < usize::MAX,
    ensures
        r@ == match pair_lookup(row@, "SampleID"@) {
            Some(v) => v@,
            None => "ROW_"@ + zero_padded(decimal((row_idx + 1) as nat), 4),
        },
{
    match row_value(row, "SampleID") {
        Some(v) => v.clone(),
        None => {
            let n = zero_padded_decimal((row_idx + 1) as u64, 4);
            concat("ROW_", n.as_str())
        },
    }
}

/// The identifier under which a record's measurements are stored: its
/// `SampleID` cell, or `UNKNOWN`.
pub fn measurement_sample_id(row: &CsvRow) -> (r: String)
    ensures
        r@ == match pair_lookup(row@, "SampleID"@) {
            Some(v) => v@,
            None => "UNKNOWN"@,
        },
{
    match row_value(row, "SampleID") {
        Some(v) => v.clone(),
        None => owned("UNKNOWN"),
    }
}

// ── Reading a measurement cell ──────────────────────────────────────────────

/// How the text of a measurement cell reads, before any number is parsed.
#[derive(Debug, Clone, PartialEq)]
pub enum RawValueKind {
    /// Nothing but whitespace.
    Empty,
    /// A marker of a value below the detection limit with no limit given
    /// (`bdl`, `nd`, `n.d.`, `<dl`, `bl` in any ASCII case, or `-`).
    BdlMarker,
    /// `<` followed by a reported detection limit (the trimmed text after `<`).
    ReportedLimit(String),
    /// Anything else: the trimmed text, to be read as a plain number.
    Plain(String),
}

/// The text is one of the markers of a value below the detection limit.
pub open spec fn is_bdl_marker(t: Seq<char>) -> bool {
    eq_ignore_ascii_case_spec(t, "bdl"@) || eq_ignore_ascii_case_spec(t, "nd"@) || eq_ignore_ascii_case_spec(
        t,
        "n.d."@,
    ) || eq_ignore_ascii_case_spec(t, "<dl"@) || eq_ignore_ascii_case_spec(t, "bl"@) || t == "-"@
}

/// How the text of a measurement cell reads.
pub open spec fn raw_kind_matches(k: RawValueKind, raw: Seq<char>) -> bool {
    let t = trim_spec(raw);
    if t.len() == 0 {
        k == RawValueKind::Empty
    } else if is_bdl_marker(t) {
        k == RawValueKind::BdlMarker
    } else if t[0] == '<' {
        k matches RawValueKind::ReportedLimit(rest) && rest@ == trim_spec(t.drop_first())
    } else {
        k matches RawValueKind::Plain(p) && p@ == t
    }
}

/// Classify the text of a measurement cell.
pub fn classify_raw_value(raw: &str) -> (k: RawValueKind)
    ensures
        raw_kind_matches(k, raw@),
{
    let t = trim(raw);
    let tv = chars_of(t.as_str());
    if tv.len() == 0 {
        return RawValueKind::Empty;
    }
    let ts = t.as_str();
    if eq_ignore_ascii_case(ts, "bdl") || eq_ignore_ascii_case(ts, "nd") || eq_ignore_ascii_case(ts, "n.d.")
        || eq_ignore_ascii_case(ts, "<dl") || eq_ignore_ascii_case(ts, "bl") || str_eq(ts, "-") {
        return RawValueKind::BdlMarker;
    }
    if tv[0] == '<' {
        let mut rest: Vec<char> = Vec::new();
        let mut i: usize = 1;
        while i < tv.len()
            invariant
                1 <= i <= tv.len(),
                rest@ == tv@.subrange(1, i as int),
            decreases tv.len() - i,
        {
            rest.push(tv[i]);
            assert(tv@.subrange(1, i + 1) =~= tv@.subrange(1, i as int).push(tv@[i as int]));
            i = i + 1;
        }
        assert(rest@ =~= tv@.drop_first());
        let rest_s = string_from_chars(rest.as_slice());
        return RawValueKind::ReportedLimit(trim(rest_s.as_str()));
    }
    RawValueKind::Plain(t)
}

/// Where the substitution limit for a below-detection-limit value comes from.
#[derive(Debug, Clone, Copy, PartialEq, Eq, Structural)]
pub enum LimitSource {
    /// No substitution.
    NoLimit,
    /// A detection limit configured for the variable.
    Configured,
    /// The smallest value detected for the variable.
    MinimumDetected,
}

/// The source of the substitution limit: none when the method is `none`,
/// else a configured limit when there is one, else the smallest detected
/// value when that fallback is on.
pub open spec fn limit_source_spec(method: Seq<char>, has_configured: bool, use_fallback: bool) -> LimitSource {
    if method == "none"@ {
        LimitSource::NoLimit
    } else if has_configured {
        LimitSource::Configured
    } else if use_fallback {
        LimitSource::MinimumDetected
    } else {
        LimitSource::NoLimit
    }
}

/// The source of the substitution limit for one variable.
pub fn limit_source(bdl_method: &str, has_configured: bool, use_fallback: bool) -> (r: LimitSource)
    ensures
        r == limit_source_spec(bdl_method@, has_configured, use_fallback),
{
    if str_eq(bdl_method, "none") {
        LimitSource::NoLimit
    } else if has_configured {
        LimitSource::Configured
    } else if use_fallback {
        LimitSource::MinimumDetected
    } else {
        LimitSource::NoLimit
    }
}

/// The name of a limit source as stored with the measurement.
pub fn limit_source_name(s: LimitSource) -> (r: &'static str)
    ensures
        r@ == match s {
            LimitSource::NoLimit => "none"@,
            LimitSource::Configured => "configured_detection_limit"@,
            LimitSource::MinimumDetected => "minimum_detected_value"@,
        },
{
    match s {
        LimitSource::NoLimit => "none",
        LimitSource::Configured => "configured_detection_limit",
        LimitSource::MinimumDetected => "minimum_detected_value",
    }
}

/// The cleaning note of a measurement.
pub open spec fn cleaning_note_spec(is_err: bool, is_bdl: bool, has_value: bool, raw: Seq<char>, source: LimitSource) -> Seq<char> {
    if is_err {
        "failed_numeric_parse"@
    } else if is_bdl && !has_value {
        "bdl_stored_as_missing"@
    } else if is_bdl && starts_with_spec(trim_spec(raw), "<"@) {
        "bdl_substituted_using_reported_detection_limit"@
    } else if is_bdl && source == LimitSource::MinimumDetected {
        "bdl_substituted_using_min_detected_fallback"@
    } else if is_bdl && source == LimitSource::Configured {
        "bdl_substituted_using_configured_detection_limit"@
    } else {
        ""@
    }
}

/// The cleaning note of a measurement, from whether parsing failed, whether
/// it was below the detection limit, whether a value was stored, the raw
/// text and the source of the substitution limit.
pub fn cleaning_note(is_err: bool, is_bdl: bool, has_value: bool, raw_val: &str, source: LimitSource) -> (r: &'static str)
    ensures
        r@ == cleaning_note_spec(is_err, is_bdl, has_value, raw_val@, source),
{
    if is_err {
        "failed_numeric_parse"
    } else if is_bdl && !has_value {
        "bdl_stored_as_missing"
    } else if is_bdl && crate::text::starts_with(trim(raw_val).as_str(), "<") {
        "bdl_substituted_using_reported_detection_limit"
    } else if is_bdl && source == LimitSource::MinimumDetected {
        "bdl_substituted_using_min_detected_fallback"
    } else if is_bdl && source == LimitSource::Configured {
        "bdl_substituted_using_configured_detection_limit"
    } else {
        ""
    }
}

// ── Data audit ───────────────────────────────────────────────────────────────

/// The audit message listing the counts.
pub open spec fn audit_message(
    n_samples: i64,
    n_columns: i64,
    bdl_count: usize,
    parse_error_count: usize,
    missing_coords: i64,
    duplicate_ids: i64,
) -> Seq<char> {
    "n="@ + signed_decimal(n_samples as int) + ", cols="@ + signed_decimal(n_columns as int) + ", bdl="@
        + decimal(bdl_count as nat) + ", parse_errors="@ + decimal(parse_error_count as nat)
        + ", missing_coords="@ + signed_decimal(missing_coords as int) + ", duplicates="@ + signed_decimal(
        duplicate_ids as int,
    )
}

/// The status and the message of a data audit: `WARNING` when more than
/// five cells failed to parse, `OK` otherwise.
pub fn audit_summary(
    n_samples: i64,
    n_columns: i64,
    bdl_count: usize,
    parse_error_count: usize,
    missing_coords: i64,
    duplicate_ids: i64,
) -> (r: (&'static str, String))
    ensures
        r.0@ == if parse_error_count > 5 {
            "WARNING"@
        } else {
            "OK"@
        },
        r.1@ == audit_message(n_samples, n_columns, bdl_count, parse_error_count, missing_coords, duplicate_ids),
{
    let status = if parse_error_count > 5 {
        "WARNING"
    } else {
        "OK"
    };
    let m = concat("n=", i64_to_string(n_samples).as_str());
    let m = concat(m.as_str(), ", cols=");
    let m = concat(m.as_str(), i64_to_string(n_columns).as_str());
    let m = concat(m.as_str(), ", bdl=");
    let m = concat(m.as_str(), u64_to_string(bdl_count as u64).as_str());
    let m = concat(m.as_str(), ", parse_errors=");
    let m = concat(m.as_str(), u64_to_string(parse_error_count as u64).as_str());
    let m = concat(m.as_str(), ", missing_coords=");
    let m = concat(m.as_str(), i64_to_string(missing_coords).as_str());
    let m = concat(m.as_str(), ", duplicates=");
    let m = concat(m.as_str(), i64_to_string(duplicate_ids).as_str());
    (status, m)
}

// -- Laws of the cell reading --

/// Law: after trimming, `bdl`, `nd`, `n.d.`, `<dl` and `bl` in any ASCII
/// case, and `-`, each read as a below-detection-limit marker.
pub proof fn law_bdl_markers(raw: Seq<char>, k: RawValueKind)
    requires
        raw_kind_matches(k, raw),
        eq_ignore_ascii_case_spec(trim_spec(raw), "bdl"@) || eq_ignore_ascii_case_spec(trim_spec(raw), "nd"@)
            || eq_ignore_ascii_case_spec(trim_spec(raw), "n.d."@) || eq_ignore_ascii_case_spec(trim_spec(raw), "<dl"@)
            || eq_ignore_ascii_case_spec(trim_spec(raw), "bl"@) || trim_spec(raw) == "-"@,
    ensures
        k == RawValueKind::BdlMarker,
{
    reveal_strlit("bdl");
    reveal_strlit("nd");
    reveal_strlit("n.d.");
    reveal_strlit("<dl");
    reveal_strlit("bl");
    reveal_strlit("-");
    assert(trim_spec(raw).len() > 0);
}

/// Law: a trimmed cell starting with `<` that is no marker reads as a
/// reported limit, the trimmed text after `<`; any other non-empty trimmed
/// cell that is no marker reads as a plain value, its trimmed text.
pub proof fn law_limits_and_plain_values(raw: Seq<char>, k: RawValueKind)
    requires
        raw_kind_matches(k, raw),
        trim_spec(raw).len() > 0,
        !is_bdl_marker(trim_spec(raw)),
    ensures
        trim_spec(raw)[0] == '<' ==> (k matches RawValueKind::ReportedLimit(rest) && rest@ == trim_spec(
            trim_spec(raw).drop_first(),
        )),
        trim_spec(raw)[0] != '<' ==> (k matches RawValueKind::Plain(p) && p@ == trim_spec(raw)),
{
}

} // verus!
