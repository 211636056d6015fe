//! Screening-priority wording.

use vstd::prelude::*;
use crate::text::str_eq;

verus! {

/// The recommendation that goes with a screening priority class.
pub open spec fn priority_reason(class: Seq<char>) -> Seq<char> {
    if class == "Very_High"@ {
        "Urgent confirmatory laboratory testing recommended"@
    } else if class == "High"@ {
        "Confirmatory testing recommended"@
    } else if class == "Moderate"@ {
        "Monitor or retest seasonally"@
    } else {
        "Lower immediate priority; routine monitoring"@
    }
}

/// The recommendation that goes with a screening priority class.
pub fn screening_priority_reason(class: &str) -> (r: &'static str)
    ensures
        r@ == priority_reason(class@),
{
    if str_eq(class, "Very_High") {
        "Urgent confirmatory laboratory testing recommended"
    } else if str_eq(class, "High") {
        "Confirmatory testing recommended"
    } else if str_eq(class, "Moderate") {
        "Monitor or retest seasonally"
    } else {
        "Lower immediate priority; routine monitoring"
    }
}

} // verus!
