//! The pipeline's input data and configuration, as plain values.
//!
//! Reading files and YAML happens outside the library; these types hold what
//! the logic reads. Keyed tables are lists of `(key, value)` pairs in which
//! each key occurs once.

use vstd::prelude::*;

verus! {

/// One CSV record: `(column header, trimmed cell text)` pairs in column order.
pub type CsvRow = Vec<(String, String)>;

/// The raw dataset: header names, records, and their counts.
#[derive(Debug, Clone)]
pub struct CsvDataset {
    pub headers: Vec<String>,
    pub rows: Vec<CsvRow>,
    pub n_rows: usize,
    pub n_cols: usize,
}

/// The first value stored under `key` in a list of pairs.
pub open spec fn pair_lookup<T>(pairs: Seq<(String, T)>, key: Seq<char>) -> Option<T>
    decreases pairs.len(),
{
    if pairs.len() == 0 {
        None
    } else if pairs[0].0@ == key {
        Some(pairs[0].1)
    } else {
        pair_lookup(pairs.drop_first(), key)
    }
}

/// The first value stored under `key` in a list of pairs.
pub fn pair_get<'a, T>(pairs: &'a [(String, T)], key: &str) -> (r: Option<&'a T>)
    ensures
        match pair_lookup(pairs@, key@) {
            Some(v) => r == Some(&v),
            None => r is None,
        },
{
    let mut i: usize = 0;
    assert(pairs@.skip(0) =~= pairs@);
    while i < pairs.len()
        invariant
            i <= pairs.len(),
            pair_lookup(pairs@, key@) == pair_lookup(pairs@.skip(i as int), key@),
        decreases pairs.len() - i,
    {
        if crate::text::str_eq(pairs[i].0.as_str(), key) {
            return Some(&pairs[i].1);
        }
        assert(pairs@.skip(i as int).drop_first() =~= pairs@.skip(i + 1));
        i = i + 1;
    }
    None
}

/// The cell of a record under the given column, if the record has it.
pub fn row_value<'a>(row: &'a CsvRow, key: &str) -> (r: Option<&'a String>)
    ensures
        match pair_lookup(row@, key@) {
            Some(v) => r == Some(&v),
            None => r is None,
        },
{
    pair_get(row.as_slice(), key)
}

// ── Runtime configuration ───────────────────────────────────────────────────

#[derive(Debug, Clone)]
pub struct RuntimeConfig {
    pub project: ProjectMeta,
    pub paths: Paths,
    pub cv: CvSettings,
    pub spatial: SpatialSettings,
    pub models: ModelToggles,
    pub outputs: OutputSettings,
}

#[derive(Debug, Clone)]
pub struct ProjectMeta {
    pub name: String,
    pub version: String,
}

#[derive(Debug, Clone)]
pub struct Paths {
    pub input_csv: String,
    pub manuscript_outline: String,
    pub thresholds_yaml: String,
    pub leakage_rules_yaml: String,
    pub sqlite_db: String,
    pub logs_dir: String,
    pub gis_exports_dir: String,
}

#[derive(Debug, Clone)]
pub struct CvSettings {
    pub outer_folds: usize,
    pub spatial_outer_folds: Option<usize>,
    pub inner_folds: usize,
    pub repeats: usize,
    pub random_seed: u64,
    pub minimum_positive_cases_for_ml: usize,
}

#[derive(Debug, Clone)]
pub struct SpatialSettings {
    pub latitude_column: String,
    pub longitude_column: String,
    pub clustering_method: String,
    pub number_of_spatial_clusters: Option<usize>,
    pub max_clusters: usize,
}

#[derive(Debug, Clone)]
pub struct ModelToggles {
    pub run_majority_dummy: bool,
    pub run_stratified_dummy: bool,
    pub run_ec_only_logistic: bool,
    pub run_regularized_logistic: bool,
    pub run_random_forest: bool,
    pub run_gradient_boosted_tree: bool,
    pub run_svm: bool,
}

#[derive(Debug, Clone)]
pub struct OutputSettings {
    pub write_fold_predictions: bool,
    pub write_shap_values: bool,
    pub write_gis_exports: bool,
}

/// The default treatment of values below the detection limit.
pub fn default_bdl_method() -> (r: String)
    ensures
        r@ == seq!['l', 'i', 'm', 'i', 't', '_', 'd', 'i', 'v', '_', 's', 'q', 'r', 't', '2'],
{
    let r = crate::text::owned("limit_div_sqrt2");
    proof {
        reveal_strlit("limit_div_sqrt2");
    }
    r
}

/// The default of switches that are on unless configured off.
pub fn default_true() -> (r: bool)
    ensures
        r,
{
    true
}

// ── Leakage rules ───────────────────────────────────────────────────────────

/// Leakage rules: patterns forbidden for every target, and per-target rules.
#[derive(Debug, Clone)]
pub struct LeakageRulesConfig {
    pub global_forbidden_patterns: Vec<String>,
    pub targets: Vec<(String, TargetLeakageRule)>,
}

/// The leakage rule of one target contaminant.
#[derive(Debug, Clone)]
pub struct TargetLeakageRule {
    pub forbidden_exact: Vec<String>,
    pub forbidden_contains: Vec<String>,
    pub special_models: Option<Vec<(String, SpecialModel)>>,
    pub notes: String,
}

/// A named variant of a target's model with its own allowances and bans.
#[derive(Debug, Clone)]
pub struct SpecialModel {
    pub allow: Vec<String>,
    pub forbidden_exact: Vec<String>,
    pub notes: String,
}

} // verus!
