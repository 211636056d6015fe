//! The messages with which cross-validation and run checks report failure.

use vstd::prelude::*;
use crate::cv::CvError;
use crate::pipeline::PipelineError;
use crate::text::{concat, decimal, push_decimal};

verus! {

/// The message of a cross-validation error.
pub open spec fn cv_error_text(e: CvError) -> Seq<char> {
    match e {
        CvError::TooFewSamples { n_samples, n_folds } => "n_samples ("@ + decimal(n_samples as nat) + ") < n_folds ("@
            + decimal(n_folds as nat) + ")"@,
        CvError::MissingClass => "Stratified CV requires at least one positive and one negative sample"@,
        CvError::TooFewInnerSamples { n_inner } => "Too few training samples for "@ + decimal(n_inner as nat)
            + " inner folds"@,
        CvError::FoldCountMismatch { cv_mode, produced, requested } => cv_mode@ + " produced "@ + decimal(
            produced as nat,
        ) + " usable folds, but "@ + decimal(requested as nat) + " were requested"@,
        CvError::UnbalancedFold { cv_mode, repeat, fold, train_pos, train_neg, test_pos, test_neg } => cv_mode@
            + " repeat "@ + decimal(repeat as nat) + " fold "@ + decimal(fold as nat)
            + " is not class-balanced enough: train_pos="@ + decimal(train_pos as nat) + ", train_neg="@ + decimal(
            train_neg as nat,
        ) + ", test_pos="@ + decimal(test_pos as nat) + ", test_neg="@ + decimal(test_neg as nat),
    }
}

/// The message of a run check's error.
pub open spec fn pipeline_error_text(e: PipelineError) -> Seq<char> {
    match e {
        PipelineError::InsufficientSamples { n_samples, outer_folds, target } => "Insufficient samples ("@
            + decimal(n_samples as nat) + ") for "@ + decimal(outer_folds as nat) + "-fold CV on target '"@
            + target@ + "'"@,
        PipelineError::NoFeatures { target, tier } => "No features remain after leakage filtering for "@
            + target@ + "/"@ + tier@,
    }
}

/// `s` followed by the decimal notation of `n`.
fn with_number(s: &str, n: usize) -> (r: String)
    ensures
        r@ == s@ + decimal(n as nat),
{
    let mut out = crate::text::owned(s);
    push_decimal(&mut out, n as u64);
    out
}

impl CvError {
    /// The message that reports this error.
    pub fn message(&self) -> (r: String)
        ensures
            r@ == cv_error_text(*self),
    {
        match self {
            CvError::TooFewSamples { n_samples, n_folds } => {
                let a = with_number("n_samples (", *n_samples);
                let b = concat(a.as_str(), ") < n_folds (");
                let c = with_number(b.as_str(), *n_folds);
                let r = concat(c.as_str(), ")");
                assert(r@ =~= cv_error_text(*self));
                r
            },
            CvError::MissingClass => crate::text::owned(
                "Stratified CV requires at least one positive and one negative sample",
            ),
            CvError::TooFewInnerSamples { n_inner } => {
                let a = with_number("Too few training samples for ", *n_inner);
                let r = concat(a.as_str(), " inner folds");
                assert(r@ =~= cv_error_text(*self));
                r
            },
            CvError::FoldCountMismatch { cv_mode, produced, requested } => {
                let a = concat(cv_mode.as_str(), " produced ");
                let b = with_number(a.as_str(), *produced);
                let c = concat(b.as_str(), " usable folds, but ");
                let d = with_number(c.as_str(), *requested);
                let r = concat(d.as_str(), " were requested");
                assert(r@ =~= cv_error_text(*self));
                r
            },
            CvError::UnbalancedFold { cv_mode, repeat, fold, train_pos, train_neg, test_pos, test_neg } => {
                let a = concat(cv_mode.as_str(), " repeat ");
                let a = with_number(a.as_str(), *repeat);
                let a = concat(a.as_str(), " fold ");
                let a = with_number(a.as_str(), *fold);
                let a = concat(a.as_str(), " is not class-balanced enough: train_pos=");
                let a = with_number(a.as_str(), *train_pos);
                let a = concat(a.as_str(), ", train_neg=");
                let a = with_number(a.as_str(), *train_neg);
                let a = concat(a.as_str(), ", test_pos=");
                let a = with_number(a.as_str(), *test_pos);
                let a = concat(a.as_str(), ", test_neg=");
                let r = with_number(a.as_str(), *test_neg);
                assert(r@ =~= cv_error_text(*self));
                r
            },
        }
    }
}

impl PipelineError {
    /// The message that reports this error.
    pub fn message(&self) -> (r: String)
        ensures
            r@ == pipeline_error_text(*self),
    {
        match self {
            PipelineError::InsufficientSamples { n_samples, outer_folds, target } => {
                let a = with_number("Insufficient samples (", *n_samples);
                let b = concat(a.as_str(), ") for ");
                let c = with_number(b.as_str(), *outer_folds);
                let d = concat(c.as_str(), "-fold CV on target '");
                let e = concat(d.as_str(), target.as_str());
                let r = concat(e.as_str(), "'");
                assert(r@ =~= pipeline_error_text(*self));
                r
            },
            PipelineError::NoFeatures { target, tier } => {
                let a = concat("No features remain after leakage filtering for ", target.as_str());
                let b = concat(a.as_str(), "/");
                let r = concat(b.as_str(), tier.as_str());
                assert(r@ =~= pipeline_error_text(*self));
                r
            },
        }
    }
}

} // verus!
