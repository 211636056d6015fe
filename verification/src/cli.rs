//! The commands of the screening tool and their arguments.

use vstd::prelude::*;

verus! {

/// A parsed command line: the command to run.
#[derive(Debug, Clone)]
pub struct Cli {
    pub command: Commands,
}

/// The commands of the tool, each with the paths it works on.
#[derive(Debug, Clone)]
pub enum Commands {
    /// Validate all input files and report readiness.
    ValidateInputs { data: String, outline: String, thresholds: String, leakage: String, config: String },
    /// Initialise an empty SQLite database with the full schema.
    InitDb { db: String },
    /// Ingest all inputs into the SQLite database.
    IngestInputs {
        data: String,
        outline: String,
        thresholds: String,
        leakage: String,
        config: String,
        db: String,
    },
    /// Audit the leakage rules and store the decisions.
    AuditLeakage { db: String },
    /// Run the models for a single target, tier and CV mode.
    RunTarget { target: String, tier: String, cv_mode: String, db: String },
    /// Run the complete pipeline for all eligible targets and tiers.
    RunPipeline { db: String, config: String },
    /// Export R-ready CSV files.
    ExportR { db: String, out: String },
    /// Export GIS-ready CSV files.
    ExportGis { db: String, out: String },
}

/// The CV mode of `run-target` when none is given.
pub fn default_cv_mode() -> (r: String)
    ensures
        r@ == "Stratified_Nested_CV"@,
{
    crate::text::owned("Stratified_Nested_CV")
}

} // verus!
