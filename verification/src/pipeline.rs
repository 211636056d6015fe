//! The decisions of a modelling run: how many outer folds, whether there are
//! enough samples and features, which algorithms run, the run identifier and
//! the per-fold seeds, and the order in which the pipeline visits targets,
//! tiers and cross-validation modes.

use vstd::prelude::*;
use crate::digest::{hex_lower, sha256_spec, sha256_str};
use crate::io::{CvSettings, ModelToggles};
use crate::leakage::{any_equal, list_has};
use crate::text::{chars_of, concat, owned, push_char, str_eq, string_from_chars};

verus! {

/// Why a modelling run cannot start.
#[derive(Debug, Clone)]
pub enum PipelineError {
    /// Fewer than two samples per outer fold.
    InsufficientSamples { n_samples: usize, outer_folds: usize, target: String },
    /// Leakage filtering left no predictor.
    NoFeatures { target: String, tier: String },
}

// ── Effective tier and fold count ───────────────────────────────────────────

/// The tier under which a run is stored: the tier, followed by `_` and the
/// special variant where there is one.
pub open spec fn effective_tier_spec(tier: Seq<char>, variant: Option<Seq<char>>) -> Seq<char> {
    match variant {
        Some(v) => tier + seq!['_'] + v,
        None => tier,
    }
}

/// The tier under which a run is stored.
pub fn effective_tier(tier: &str, variant: Option<&str>) -> (r: String)
    ensures
        r@ == effective_tier_spec(tier@, crate::leakage::opt_view(variant)),
{
    match variant {
        Some(v) => {
            let mut t = owned(tier);
            push_char(&mut t, '_');
            let r = concat(t.as_str(), v);
            r
        },
        None => owned(tier),
    }
}

/// The number of outer folds of a cross-validation mode: spatial grouping
/// uses its own count where one is configured.
pub open spec fn outer_fold_count_spec(cv_mode: Seq<char>, cv: CvSettings) -> usize {
    if cv_mode == "Spatial_Group_CV"@ {
        match cv.spatial_outer_folds {
            Some(k) => k,
            None => cv.outer_folds,
        }
    } else {
        cv.outer_folds
    }
}

/// The number of outer folds of a cross-validation mode.
pub fn outer_fold_count(cv_mode: &str, cv: &CvSettings) -> (r: usize)
    ensures
        r == outer_fold_count_spec(cv_mode@, *cv),
{
    if str_eq(cv_mode, "Spatial_Group_CV") {
        match cv.spatial_outer_folds {
            Some(k) => k,
            None => cv.outer_folds,
        }
    } else {
        cv.outer_folds
    }
}

/// Spatial group CV draws its folds from the spatial clusters; every other
/// mode uses repeated stratified folds.
pub fn is_spatial_mode(cv_mode: &str) -> (r: bool)
    ensures
        r == (cv_mode@ == "Spatial_Group_CV"@),
{
    str_eq(cv_mode, "Spatial_Group_CV")
}

/// The number of folds a run's design must have: the outer folds for
/// spatial group CV, the outer folds times the repeats otherwise.
pub fn expected_fold_count(cv_mode: &str, outer_folds: usize, repeats: usize) -> (r: usize)
    requires
        cv_mode@ != "Spatial_Group_CV"@ ==> outer_folds * repeats <= usize::MAX,
    ensures
        r == if cv_mode@ == "Spatial_Group_CV"@ {
            outer_folds as int
        } else {
            outer_folds * repeats
        },
{
    if is_spatial_mode(cv_mode) {
        outer_folds
    } else {
        outer_folds * repeats
    }
}

/// A run needs at least two samples per outer fold.
pub fn check_sample_count(n_samples: usize, outer_folds: usize, target: &str) -> (r: Result<(), PipelineError>)
    ensures
        r is Ok <==> n_samples >= 2 * outer_folds,
        r matches Err(PipelineError::InsufficientSamples { n_samples: n, outer_folds: k, target: t }) ==> n
            == n_samples && k == outer_folds && t@ == target@,
        r is Err ==> r matches Err(PipelineError::InsufficientSamples { .. }),
{
    if outer_folds > n_samples / 2 {
        Err(PipelineError::InsufficientSamples { n_samples, outer_folds, target: owned(target) })
    } else {
        Ok(())
    }
}

/// A run needs at least one predictor left after leakage filtering.
pub fn check_feature_set(feature_names: &[String], target: &str, tier: &str) -> (r: Result<(), PipelineError>)
    ensures
        r is Ok <==> feature_names@.len() > 0,
        r matches Err(PipelineError::NoFeatures { target: t, tier: u }) ==> t@ == target@ && u@ == tier@,
        r is Err ==> r matches Err(PipelineError::NoFeatures { .. }),
{
    if feature_names.len() == 0 {
        Err(PipelineError::NoFeatures { target: owned(target), tier: owned(tier) })
    } else {
        Ok(())
    }
}

// ── Algorithms ──────────────────────────────────────────────────────────────

/// `name` when `on`, nothing otherwise.
pub open spec fn when_on(on: bool, name: Seq<char>) -> Seq<Seq<char>> {
    if on {
        seq![name]
    } else {
        Seq::empty()
    }
}

/// The algorithms a run fits, in order: the switched-on baselines, the
/// EC-only logistic model where `EC` is among the predictors, then the
/// switched-on learners.
pub open spec fn algorithms_spec(m: ModelToggles, has_ec: bool) -> Seq<Seq<char>> {
    when_on(m.run_majority_dummy, "DummyMajority"@) + when_on(m.run_stratified_dummy, "DummyStratified"@)
        + when_on(m.run_ec_only_logistic && has_ec, "EcOnlyLogistic"@) + when_on(
        m.run_regularized_logistic,
        "LogisticRegression"@,
    ) + when_on(m.run_random_forest, "RandomForest"@) + when_on(
        m.run_gradient_boosted_tree,
        "GradientBoostedTrees"@,
    )
}

/// The views of a list of string slices.
pub open spec fn str_views(v: Seq<&str>) -> Seq<Seq<char>> {
    v.map_values(|s: &str| s@)
}

fn push_when(v: &mut Vec<&'static str>, on: bool, name: &'static str)
    ensures
        str_views(final(v)@) == str_views(old(v)@) + when_on(on, name@),
{
    let ghost before = str_views(v@);
    if on {
        v.push(name);
        assert(str_views(v@) =~= before + seq![name@]);
    } else {
        assert(str_views(v@) =~= before + Seq::<Seq<char>>::empty());
    }
}

/// The algorithms a run fits, given the model switches and the predictors
/// left after leakage filtering.
pub fn select_algorithms(models: &ModelToggles, feature_names: &[String]) -> (r: Vec<&'static str>)
    ensures
        str_views(r@) == algorithms_spec(*models, any_equal(feature_names@, "EC"@)),
{
    let has_ec = list_has(feature_names, "EC");
    let mut v: Vec<&'static str> = Vec::new();
    assert(str_views(v@) =~= Seq::<Seq<char>>::empty());
    push_when(&mut v, models.run_majority_dummy, "DummyMajority");
    push_when(&mut v, models.run_stratified_dummy, "DummyStratified");
    push_when(&mut v, models.run_ec_only_logistic && has_ec, "EcOnlyLogistic");
    push_when(&mut v, models.run_regularized_logistic, "LogisticRegression");
    push_when(&mut v, models.run_random_forest, "RandomForest");
    push_when(&mut v, models.run_gradient_boosted_tree, "GradientBoostedTrees");
    v
}

// ── Run identifier and seeds ────────────────────────────────────────────────

/// Every space replaced by `_`.
pub open spec fn spaces_to_underscores(s: Seq<char>) -> Seq<char> {
    s.map_values(|c: char| if c == ' ' { '_' } else { c })
}

/// The text from which a run identifier is hashed:
/// `target_tier_algorithm_cvmode`, with spaces in the tier made `_`.
pub open spec fn run_key_spec(target: Seq<char>, tier: Seq<char>, algorithm: Seq<char>, cv_mode: Seq<char>) -> Seq<
    char,
> {
    target + seq!['_'] + spaces_to_underscores(tier) + seq!['_'] + algorithm + seq!['_'] + cv_mode
}

fn replace_spaces(s: &str) -> (r: String)
    ensures
        r@ == spaces_to_underscores(s@),
{
    let v = chars_of(s);
    let mut out: Vec<char> = Vec::new();
    let mut i: usize = 0;
    while i < v.len()
        invariant
            i <= v.len(),
            v@ == s@,
            out@ == spaces_to_underscores(v@.take(i as int)),
        decreases v.len() - i,
    {
        let c = v[i];
        if c == ' ' {
            out.push('_');
        } else {
            out.push(c);
        }
        assert(spaces_to_underscores(v@.take(i + 1)) =~= spaces_to_underscores(v@.take(i as int)).push(
            if c == ' ' { '_' } else { c },
        ));
        i = i + 1;
    }
    assert(v@.take(v.len() as int) =~= v@);
    string_from_chars(out.as_slice())
}

/// The text from which a run identifier is hashed.
pub fn run_key(target: &str, tier: &str, algorithm: &str, cv_mode: &str) -> (r: String)
    ensures
        r@ == run_key_spec(target@, tier@, algorithm@, cv_mode@),
{
    let mut k = owned(target);
    push_char(&mut k, '_');
    let t = replace_spaces(tier);
    let mut k = concat(k.as_str(), t.as_str());
    push_char(&mut k, '_');
    let mut k = concat(k.as_str(), algorithm);
    push_char(&mut k, '_');
    let k = concat(k.as_str(), cv_mode);
    assert(k@ =~= run_key_spec(target@, tier@, algorithm@, cv_mode@));
    k
}

/// The identifier of a run: the first 32 hexadecimal digits of the SHA-256
/// digest of its key.
pub open spec fn run_id_spec(target: Seq<char>, tier: Seq<char>, algorithm: Seq<char>, cv_mode: Seq<char>) -> Seq<
    char,
> {
    hex_lower(sha256_spec(vstd::utf8::encode_utf8(run_key_spec(target, tier, algorithm, cv_mode)))).take(32)
}

/// The identifier of a run, stable across invocations.
pub fn run_id(target: &str, tier: &str, algorithm: &str, cv_mode: &str) -> (r: String)
    ensures
        r@ == run_id_spec(target@, tier@, algorithm@, cv_mode@),
        r@.len() == 32,
{
    let key = run_key(target, tier, algorithm, cv_mode);
    let digest = sha256_str(key.as_str());
    let mut v = chars_of(digest.as_str());
    v.truncate(32);
    string_from_chars(v.as_slice())
}

/// The seed of one outer fold: the configured seed plus `31337` per repeat
/// plus the fold index, wrapping at 2^64.
pub open spec fn fold_seed_spec(random_seed: u64, repeat: usize, fold: usize) -> int {
    (random_seed + repeat * 31337 + fold) % 0x1_0000_0000_0000_0000
}

/// The seed of one outer fold.
pub fn fold_seed(random_seed: u64, repeat: usize, fold: usize) -> (r: u64)
    requires
        repeat * 31337 + fold <= u64::MAX,
    ensures
        r == fold_seed_spec(random_seed, repeat, fold),
{
    let offset: u64 = repeat as u64 * 31337 + fold as u64;
    random_seed.wrapping_add(offset)
}

// ── What the pipeline visits ───────────────────────────────────────────────

/// One modelling run of the pipeline.
#[derive(Debug, Clone)]
pub struct RunSpec {
    pub target: String,
    pub tier: String,
    pub cv_mode: String,
    pub variant: Option<String>,
}

/// One leakage audit of the candidate predictors of a tier.
#[derive(Debug, Clone)]
pub struct AuditJob {
    pub target: String,
    pub tier: String,
    pub storage_tier: String,
    pub variant: Option<String>,
}

/// A run or an audit as plain text: target, tier, third field, variant.
pub type JobView = (Seq<char>, Seq<char>, Seq<char>, Option<Seq<char>>);

/// The view of an optional owned string.
pub open spec fn opt_string(o: Option<String>) -> Option<Seq<char>> {
    match o {
        Some(s) => Some(s@),
        None => None,
    }
}

pub open spec fn run_view(r: RunSpec) -> JobView {
    (r.target@, r.tier@, r.cv_mode@, opt_string(r.variant))
}

pub open spec fn audit_view(a: AuditJob) -> JobView {
    (a.target@, a.tier@, a.storage_tier@, opt_string(a.variant))
}

/// The contaminants the pipeline screens, in order.
pub open spec fn screened_targets_spec() -> Seq<Seq<char>> {
    seq!["Na"@, "Cl"@, "TDS"@, "B"@, "F"@, "NO3"@]
}

/// The two runs of a tier, first with stratified nested CV, then with
/// spatial group CV.
pub open spec fn runs_of_tier(target: Seq<char>, tier: Seq<char>, variant: Option<Seq<char>>) -> Seq<JobView> {
    seq![
        (target, tier, "Stratified_Nested_CV"@, variant),
        (target, tier, "Spatial_Group_CV"@, variant),
    ]
}

/// The runs of an eligible target, in order: each predictor tier under both
/// CV modes; for TDS, then the reduced tier once more for each EC variant.
pub open spec fn target_runs_spec(target: Seq<char>) -> Seq<JobView> {
    runs_of_tier(target, "Tier1_Field"@, None) + runs_of_tier(target, "Tier2_Reduced"@, None) + runs_of_tier(
        target,
        "Tier3_Full"@,
        None,
    ) + if target == "TDS"@ {
        runs_of_tier(target, "Tier2_Reduced"@, Some("TDS_EC_inclusive"@)) + runs_of_tier(
            target,
            "Tier2_Reduced"@,
            Some("TDS_EC_strict"@),
        )
    } else {
        Seq::empty()
    }
}

/// The audits of a target, in order: each predictor tier, stored under its
/// own name; for TDS, then the reduced tier for each EC variant, stored
/// under the effective tier.
pub open spec fn target_audits_spec(target: Seq<char>) -> Seq<JobView> {
    seq![
        (target, "Tier1_Field"@, "Tier1_Field"@, None),
        (target, "Tier2_Reduced"@, "Tier2_Reduced"@, None),
        (target, "Tier3_Full"@, "Tier3_Full"@, None),
    ] + if target == "TDS"@ {
        seq![
            (target, "Tier2_Reduced"@, effective_tier_spec("Tier2_Reduced"@, Some("TDS_EC_inclusive"@)), Some("TDS_EC_inclusive"@)),
            (target, "Tier2_Reduced"@, effective_tier_spec("Tier2_Reduced"@, Some("TDS_EC_strict"@)), Some("TDS_EC_strict"@)),
        ]
    } else {
        Seq::empty()
    }
}

/// The contaminants the pipeline screens, in order.
pub fn screened_targets() -> (r: Vec<&'static str>)
    ensures
        str_views(r@) == screened_targets_spec(),
{
    let mut v: Vec<&'static str> = Vec::new();
    v.push("Na");
    v.push("Cl");
    v.push("TDS");
    v.push("B");
    v.push("F");
    v.push("NO3");
    assert(str_views(v@) =~= screened_targets_spec());
    v
}

fn opt_owned(o: Option<&str>) -> (r: Option<String>)
    ensures
        opt_string(r) == crate::leakage::opt_view(o),
{
    match o {
        Some(s) => Some(owned(s)),
        None => None,
    }
}

fn push_tier_runs(v: &mut Vec<RunSpec>, target: &str, tier: &str, variant: Option<&str>)
    ensures
        final(v)@.map_values(|r: RunSpec| run_view(r)) == old(v)@.map_values(|r: RunSpec| run_view(r))
            + runs_of_tier(target@, tier@, crate::leakage::opt_view(variant)),
{
    let ghost before = v@.map_values(|r: RunSpec| run_view(r));
    v.push(RunSpec { target: owned(target), tier: owned(tier), cv_mode: owned("Stratified_Nested_CV"), variant: opt_owned(variant) });
    v.push(RunSpec { target: owned(target), tier: owned(tier), cv_mode: owned("Spatial_Group_CV"), variant: opt_owned(variant) });
    assert(v@.map_values(|r: RunSpec| run_view(r)) =~= before + runs_of_tier(
        target@,
        tier@,
        crate::leakage::opt_view(variant),
    ));
}

/// The modelling runs of an eligible target, in the order the pipeline
/// makes them.
pub fn target_runs(target: &str) -> (r: Vec<RunSpec>)
    ensures
        r@.map_values(|x: RunSpec| run_view(x)) == target_runs_spec(target@),
{
    let mut v: Vec<RunSpec> = Vec::new();
    assert(v@.map_values(|x: RunSpec| run_view(x)) =~= Seq::<JobView>::empty());
    push_tier_runs(&mut v, target, "Tier1_Field", None);
    push_tier_runs(&mut v, target, "Tier2_Reduced", None);
    push_tier_runs(&mut v, target, "Tier3_Full", None);
    let ghost standard = v@.map_values(|x: RunSpec| run_view(x));
    if str_eq(target, "TDS") {
        push_tier_runs(&mut v, target, "Tier2_Reduced", Some("TDS_EC_inclusive"));
        push_tier_runs(&mut v, target, "Tier2_Reduced", Some("TDS_EC_strict"));
    } else {
        assert(standard + Seq::<JobView>::empty() =~= standard);
    }
    assert(v@.map_values(|x: RunSpec| run_view(x)) =~= target_runs_spec(target@));
    v
}

fn audit_job(target: &str, tier: &str, variant: Option<&str>) -> (r: AuditJob)
    ensures
        audit_view(r) == (target@, tier@, effective_tier_spec(tier@, crate::leakage::opt_view(variant)), crate::leakage::opt_view(variant)),
{
    AuditJob { target: owned(target), tier: owned(tier), storage_tier: effective_tier(tier, variant), variant: opt_owned(variant) }
}

/// The leakage audits of a target, in the order the audit command makes them.
pub fn target_audits(target: &str) -> (r: Vec<AuditJob>)
    ensures
        r@.map_values(|x: AuditJob| audit_view(x)) == target_audits_spec(target@),
{
    let mut v: Vec<AuditJob> = Vec::new();
    v.push(audit_job(target, "Tier1_Field", None));
    v.push(audit_job(target, "Tier2_Reduced", None));
    v.push(audit_job(target, "Tier3_Full", None));
    if str_eq(target, "TDS") {
        v.push(audit_job(target, "Tier2_Reduced", Some("TDS_EC_inclusive")));
        v.push(audit_job(target, "Tier2_Reduced", Some("TDS_EC_strict")));
    }
    assert(v@.map_values(|x: AuditJob| audit_view(x)) =~= target_audits_spec(target@));
    v
}

// -- Laws of the plan --

proof fn lemma_plan_literals()
    ensures
        "Tier1_Field"@.len() == 11,
        "Tier2_Reduced"@.len() == 13,
        "Tier3_Full"@.len() == 10,
        "TDS_EC_inclusive"@.len() == 16,
        "TDS_EC_strict"@.len() == 13,
        "Stratified_Nested_CV"@.len() == 20,
        "Spatial_Group_CV"@.len() == 16,
{
    reveal_strlit("Tier1_Field");
    reveal_strlit("Tier2_Reduced");
    reveal_strlit("Tier3_Full");
    reveal_strlit("TDS_EC_inclusive");
    reveal_strlit("TDS_EC_strict");
    reveal_strlit("Stratified_Nested_CV");
    reveal_strlit("Spatial_Group_CV");
}

/// Law: no two runs of a target share both their stored tier and their CV
/// mode, so no run of the plan overwrites the records of another.
pub proof fn law_runs_distinct(target: Seq<char>, i: int, j: int)
    requires
        0 <= i < j < target_runs_spec(target).len(),
    ensures
        ({
            let a = target_runs_spec(target)[i];
            let b = target_runs_spec(target)[j];
            effective_tier_spec(a.1, a.3) != effective_tier_spec(b.1, b.3) || a.2 != b.2
        }),
{
    lemma_plan_literals();
    let runs = target_runs_spec(target);
    let a = runs[i];
    let b = runs[j];
    let ta = effective_tier_spec(a.1, a.3);
    let tb = effective_tier_spec(b.1, b.3);
    if ta == tb && a.2 == b.2 {
        assert(ta.len() == tb.len());
        assert(a.2.len() == b.2.len());
    }
}

/// Law: the audits of a target are stored under pairwise distinct tiers, so
/// a variant's audit never overwrites the standard model's.
pub proof fn law_audits_distinct(target: Seq<char>, i: int, j: int)
    requires
        0 <= i < j < target_audits_spec(target).len(),
    ensures
        target_audits_spec(target)[i].2 != target_audits_spec(target)[j].2,
{
    lemma_plan_literals();
    let a = target_audits_spec(target)[i].2;
    let b = target_audits_spec(target)[j].2;
    if a == b {
        assert(a.len() == b.len());
    }
}

} // verus!
