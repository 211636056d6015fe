//! Whether a target contaminant has enough labelled cases to be modelled.

use vstd::prelude::*;
use crate::text::{concat, decimal, i64_to_string, owned, signed_decimal, str_eq, u64_to_string};

verus! {

/// The modelling status of a target and why.
#[derive(Debug, Clone)]
pub struct Eligibility {
    pub n_negative: i64,
    pub cv_feasible: bool,
    pub ml_status: String,
    pub reporting_level: String,
    pub eligibility_note: String,
}

/// Both classes reach the minimum number of cases for cross-validation.
pub open spec fn cv_feasible_spec(n_pos: i64, n_neg: int, min_positive: usize) -> bool {
    n_pos >= (min_positive as i64) && n_neg >= (min_positive as i64)
}

/// The status derived from the class counts alone.
pub open spec fn count_status(n_pos: i64, n_neg: int, min_positive: usize) -> Seq<char> {
    if n_pos < 3 {
        "descriptive_only"@
    } else if n_pos < (min_positive as i64) {
        "exploratory_only"@
    } else if !cv_feasible_spec(n_pos, n_neg, min_positive) {
        "exploratory_only"@
    } else {
        "modelled"@
    }
}

/// The note explaining the status derived from the class counts.
pub open spec fn count_note(n_pos: i64, n_neg: int, min_positive: usize) -> Seq<char> {
    if n_pos < 3 {
        "Only "@ + signed_decimal(n_pos as int) + " positive cases; insufficient for any ML"@
    } else if n_pos < (min_positive as i64) {
        signed_decimal(n_pos as int) + " positive cases < minimum "@ + decimal(min_positive as nat)
            + " for standard CV"@
    } else if !cv_feasible_spec(n_pos, n_neg, min_positive) {
        "Class distribution too extreme for reliable CV (n_pos="@ + signed_decimal(n_pos as int) + ", n_neg="@
            + signed_decimal(n_neg) + ")"@
    } else {
        signed_decimal(n_pos as int) + " positive, "@ + signed_decimal(n_neg) + " negative — ML feasible"@
    }
}

/// `e` is the eligibility of a target with `n_total` labelled samples of
/// which `n_pos` are positive.
pub open spec fn eligibility_is(e: Eligibility, n_total: i64, n_pos: i64, min_positive: usize, has_threshold: bool) -> bool {
    let n_neg = n_total - n_pos;
    &&& e.n_negative == n_neg
    &&& e.cv_feasible == cv_feasible_spec(n_pos, n_neg, min_positive)
    &&& e.reporting_level@ == if n_pos < 3 || n_pos < (min_positive as i64) || !cv_feasible_spec(
        n_pos,
        n_neg,
        min_positive,
    ) {
        "Supplement"@
    } else {
        "Main text"@
    }
    &&& e.ml_status@ == if has_threshold {
        count_status(n_pos, n_neg, min_positive)
    } else {
        "no_threshold"@
    }
    &&& e.eligibility_note@ == if has_threshold {
        count_note(n_pos, n_neg, min_positive)
    } else {
        "Threshold not configured — cannot generate labels"@
    }
}

/// Decide whether a target can be modelled from its class counts, the
/// minimum number of positive cases and whether a threshold is configured.
pub fn target_eligibility(n_total: i64, n_pos: i64, min_positive: usize, has_threshold: bool) -> (e: Eligibility)
    requires
        i64::MIN <= n_total - n_pos <= i64::MAX,
    ensures
        eligibility_is(e, n_total, n_pos, min_positive, has_threshold),
{
    let n_neg = n_total - n_pos;
    let min_pos = min_positive as i64;
    let cv_feasible = n_pos >= min_pos && n_neg >= min_pos;
    let (ml_status, reporting_level, note) = if n_pos < 3 {
        let a = concat("Only ", i64_to_string(n_pos).as_str());
        ("descriptive_only", "Supplement", concat(a.as_str(), " positive cases; insufficient for any ML"))
    } else if n_pos < min_pos {
        let a = concat(i64_to_string(n_pos).as_str(), " positive cases < minimum ");
        let b = concat(a.as_str(), u64_to_string(min_positive as u64).as_str());
        ("exploratory_only", "Supplement", concat(b.as_str(), " for standard CV"))
    } else if !cv_feasible {
        let a = concat("Class distribution too extreme for reliable CV (n_pos=", i64_to_string(n_pos).as_str());
        let b = concat(a.as_str(), ", n_neg=");
        let c = concat(b.as_str(), i64_to_string(n_neg).as_str());
        ("exploratory_only", "Supplement", concat(c.as_str(), ")"))
    } else {
        let a = concat(i64_to_string(n_pos).as_str(), " positive, ");
        let b = concat(a.as_str(), i64_to_string(n_neg).as_str());
        ("modelled", "Main text", concat(b.as_str(), " negative — ML feasible"))
    };
    let (final_status, final_note) = if !has_threshold {
        (owned("no_threshold"), owned("Threshold not configured — cannot generate labels"))
    } else {
        (owned(ml_status), note)
    };
    Eligibility {
        n_negative: n_neg,
        cv_feasible,
        ml_status: final_status,
        reporting_level: owned(reporting_level),
        eligibility_note: final_note,
    }
}

/// A target is eligible for modelling when its status is `modelled`.
pub fn is_modelled_status(status: &str) -> (r: bool)
    ensures
        r == (status@ == "modelled"@),
{
    str_eq(status, "modelled")
}

/// Law (eligibility gate): a target is modelled exactly when a threshold is
/// configured, it has at least three positive cases, and both classes reach
/// the configured minimum.
pub proof fn law_modelled_iff_enough_cases(e: Eligibility, n_total: i64, n_pos: i64, min_positive: usize, has_threshold: bool)
    requires
        eligibility_is(e, n_total, n_pos, min_positive, has_threshold),
    ensures
        (e.ml_status@ == "modelled"@) == (has_threshold && n_pos >= 3 && n_pos >= (min_positive as i64) && n_total
            - n_pos >= (min_positive as i64)),
        e.ml_status@ == "modelled"@ ==> e.reporting_level@ == "Main text"@,
{
    reveal_strlit("modelled");
    reveal_strlit("no_threshold");
    reveal_strlit("exploratory_only");
    reveal_strlit("descriptive_only");
    reveal_strlit("Main text");
    reveal_strlit("Supplement");
    assert("modelled"@.len() == 8);
    assert("no_threshold"@.len() == 12);
    assert("exploratory_only"@.len() == 16);
    assert("descriptive_only"@.len() == 16);
    assert("Main text"@.len() == 9);
    assert("Supplement"@.len() == 10);
    assert("modelled"@ != "no_threshold"@);
    assert("modelled"@ != "exploratory_only"@);
    assert("modelled"@ != "descriptive_only"@);
    assert("Main text"@ != "Supplement"@);
}

/// The side of the threshold on which a measurement exceeds it.
#[derive(Debug, Clone, Copy, PartialEq, Eq, Structural)]
pub enum Exceedance {
    /// A value above the threshold exceeds it.
    Above,
    /// A value below the threshold exceeds it.
    Below,
}

/// The exceedance side named in the thresholds file: `less_than` means
/// below; `greater_than`, and any other word, means above.
pub fn exceedance_side(direction: &str) -> (r: Exceedance)
    ensures
        r == if direction@ == "less_than"@ {
            Exceedance::Below
        } else {
            Exceedance::Above
        },
{
    if crate::text::str_eq(direction, "less_than") {
        Exceedance::Below
    } else {
        Exceedance::Above
    }
}

} // verus!
