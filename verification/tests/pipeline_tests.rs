use groundwater_virtual_screening::cli::default_cv_mode;
use groundwater_virtual_screening::digest::sha256_str;
use groundwater_virtual_screening::io::{CvSettings, ModelToggles};
use groundwater_virtual_screening::pipeline::{
    check_feature_set, check_sample_count, effective_tier, fold_seed, outer_fold_count, run_id, run_key,
    screened_targets, select_algorithms, target_audits, target_runs, PipelineError,
};
use groundwater_virtual_screening::pipeline::{expected_fold_count, is_spatial_mode};
use groundwater_virtual_screening::thresholds::{exceedance_side, is_modelled_status, target_eligibility, Exceedance};
use groundwater_virtual_screening::thresholds_operational::screening_priority_reason;

fn cv(spatial: Option<usize>) -> CvSettings {
    CvSettings {
        outer_folds: 5,
        spatial_outer_folds: spatial,
        inner_folds: 3,
        repeats: 2,
        random_seed: 42,
        minimum_positive_cases_for_ml: 10,
    }
}

fn all_models() -> ModelToggles {
    ModelToggles {
        run_majority_dummy: true,
        run_stratified_dummy: true,
        run_ec_only_logistic: true,
        run_regularized_logistic: true,
        run_random_forest: true,
        run_gradient_boosted_tree: true,
        run_svm: false,
    }
}

fn strings(v: &[&str]) -> Vec<String> {
    v.iter().map(|s| s.to_string()).collect()
}

#[test]
fn effective_tiers() {
    assert_eq!(effective_tier("Tier2_Reduced", Some("TDS_EC_strict")), "Tier2_Reduced_TDS_EC_strict");
    assert_eq!(effective_tier("Tier1_Field", None), "Tier1_Field");
}

#[test]
fn outer_fold_counts() {
    assert_eq!(outer_fold_count("Spatial_Group_CV", &cv(Some(4))), 4);
    assert_eq!(outer_fold_count("Spatial_Group_CV", &cv(None)), 5);
    assert_eq!(outer_fold_count("Stratified_Nested_CV", &cv(Some(4))), 5);
    assert_eq!(default_cv_mode(), "Stratified_Nested_CV");
}

#[test]
fn sample_count_check() {
    assert!(check_sample_count(10, 5, "Na").is_ok());
    match check_sample_count(9, 5, "Na") {
        Err(e) => {
            assert!(matches!(e, PipelineError::InsufficientSamples { n_samples: 9, outer_folds: 5, .. }));
            assert_eq!(e.message(), "Insufficient samples (9) for 5-fold CV on target 'Na'");
        }
        Ok(()) => panic!("expected an error"),
    }
    assert!(check_sample_count(3, usize::MAX, "Na").is_err());
}

#[test]
fn feature_set_check() {
    assert!(check_feature_set(&strings(&["pH"]), "B", "Tier1_Field").is_ok());
    let e = check_feature_set(&[], "B", "Tier1_Field").unwrap_err();
    assert_eq!(e.message(), "No features remain after leakage filtering for B/Tier1_Field");
}

#[test]
fn algorithms_follow_the_switches() {
    let with_ec = select_algorithms(&all_models(), &strings(&["pH", "EC"]));
    assert_eq!(
        with_ec,
        vec!["DummyMajority", "DummyStratified", "EcOnlyLogistic", "LogisticRegression", "RandomForest", "GradientBoostedTrees"]
    );
    let without_ec = select_algorithms(&all_models(), &strings(&["pH", "ec"]));
    assert_eq!(
        without_ec,
        vec!["DummyMajority", "DummyStratified", "LogisticRegression", "RandomForest", "GradientBoostedTrees"]
    );
    let mut some = all_models();
    some.run_majority_dummy = false;
    some.run_random_forest = false;
    some.run_ec_only_logistic = false;
    assert_eq!(
        select_algorithms(&some, &strings(&["EC"])),
        vec!["DummyStratified", "LogisticRegression", "GradientBoostedTrees"]
    );
}

#[test]
fn run_keys_and_identifiers() {
    let key = run_key("Na", "Tier 2 x", "RandomForest", "Spatial_Group_CV");
    assert_eq!(key, "Na_Tier_2_x_RandomForest_Spatial_Group_CV");
    let id = run_id("Na", "Tier 2 x", "RandomForest", "Spatial_Group_CV");
    assert_eq!(id.len(), 32);
    assert_eq!(id, sha256_str(&key)[..32]);
    assert_ne!(id, run_id("Na", "Tier 2 x", "RandomForest", "Stratified_Nested_CV"));
}

#[test]
fn fold_seeds_wrap() {
    assert_eq!(fold_seed(42, 1, 2), 42 + 31337 + 2);
    assert_eq!(fold_seed(42, 0, 0), 42);
    assert_eq!(fold_seed(u64::MAX, 0, 1), 0);
    assert_eq!(fold_seed(u64::MAX - 1, 1, 0), 31335);
}

#[test]
fn pipeline_visits_targets_tiers_and_modes() {
    assert_eq!(screened_targets(), vec!["Na", "Cl", "TDS", "B", "F", "NO3"]);
    let na = target_runs("Na");
    assert_eq!(na.len(), 6);
    let pairs: Vec<(&str, &str)> = na.iter().map(|r| (r.tier.as_str(), r.cv_mode.as_str())).collect();
    assert_eq!(
        pairs,
        vec![
            ("Tier1_Field", "Stratified_Nested_CV"),
            ("Tier1_Field", "Spatial_Group_CV"),
            ("Tier2_Reduced", "Stratified_Nested_CV"),
            ("Tier2_Reduced", "Spatial_Group_CV"),
            ("Tier3_Full", "Stratified_Nested_CV"),
            ("Tier3_Full", "Spatial_Group_CV"),
        ]
    );
    assert!(na.iter().all(|r| r.variant.is_none() && r.target == "Na"));
    let tds = target_runs("TDS");
    assert_eq!(tds.len(), 10);
    assert_eq!(tds[6].variant.as_deref(), Some("TDS_EC_inclusive"));
    assert_eq!(tds[9].variant.as_deref(), Some("TDS_EC_strict"));
    assert_eq!(tds[9].tier, "Tier2_Reduced");
    assert_eq!(tds[9].cv_mode, "Spatial_Group_CV");
}

#[test]
fn audits_of_a_target() {
    assert_eq!(target_audits("F").len(), 3);
    let tds = target_audits("TDS");
    assert_eq!(tds.len(), 5);
    assert_eq!(tds[0].storage_tier, "Tier1_Field");
    assert_eq!(tds[3].tier, "Tier2_Reduced");
    assert_eq!(tds[3].storage_tier, "Tier2_Reduced_TDS_EC_inclusive");
    assert_eq!(tds[4].storage_tier, "Tier2_Reduced_TDS_EC_strict");
    assert_eq!(tds[4].variant.as_deref(), Some("TDS_EC_strict"));
}

#[test]
fn eligibility_statuses() {
    let e = target_eligibility(81, 2, 10, true);
    assert_eq!((e.ml_status.as_str(), e.reporting_level.as_str()), ("descriptive_only", "Supplement"));
    assert_eq!(e.eligibility_note, "Only 2 positive cases; insufficient for any ML");
    assert_eq!(e.n_negative, 79);
    assert!(!e.cv_feasible);

    let e = target_eligibility(81, 5, 10, true);
    assert_eq!(e.ml_status, "exploratory_only");
    assert_eq!(e.eligibility_note, "5 positive cases < minimum 10 for standard CV");

    let e = target_eligibility(81, 78, 10, true);
    assert_eq!(e.ml_status, "exploratory_only");
    assert_eq!(e.eligibility_note, "Class distribution too extreme for reliable CV (n_pos=78, n_neg=3)");

    let e = target_eligibility(81, 20, 10, true);
    assert_eq!((e.ml_status.as_str(), e.reporting_level.as_str()), ("modelled", "Main text"));
    assert_eq!(e.eligibility_note, "20 positive, 61 negative — ML feasible");
    assert!(e.cv_feasible);
    assert!(is_modelled_status(&e.ml_status));

    let e = target_eligibility(81, 20, 10, false);
    assert_eq!(e.ml_status, "no_threshold");
    assert_eq!(e.reporting_level, "Main text");
    assert_eq!(e.eligibility_note, "Threshold not configured — cannot generate labels");
    assert!(!is_modelled_status(&e.ml_status));
}

#[test]
fn screening_priority_reasons() {
    assert_eq!(screening_priority_reason("Very_High"), "Urgent confirmatory laboratory testing recommended");
    assert_eq!(screening_priority_reason("High"), "Confirmatory testing recommended");
    assert_eq!(screening_priority_reason("Moderate"), "Monitor or retest seasonally");
    assert_eq!(screening_priority_reason("Low"), "Lower immediate priority; routine monitoring");
}

#[test]
fn runs_and_audits_of_a_target_never_collide() {
    let runs = target_runs("TDS");
    let keys: Vec<(String, String)> = runs
        .iter()
        .map(|r| (effective_tier(&r.tier, r.variant.as_deref()), r.cv_mode.clone()))
        .collect();
    for i in 0..keys.len() {
        for j in (i + 1)..keys.len() {
            assert_ne!(keys[i], keys[j]);
        }
    }
    let audits = target_audits("TDS");
    for i in 0..audits.len() {
        for j in (i + 1)..audits.len() {
            assert_ne!(audits[i].storage_tier, audits[j].storage_tier);
        }
    }
}

#[test]
fn fold_design_sizes_and_modes() {
    assert!(is_spatial_mode("Spatial_Group_CV"));
    assert!(!is_spatial_mode("Stratified_Nested_CV"));
    assert!(!is_spatial_mode("spatial_group_cv"));
    assert_eq!(expected_fold_count("Spatial_Group_CV", 5, 3), 5);
    assert_eq!(expected_fold_count("Stratified_Nested_CV", 5, 3), 15);
}

#[test]
fn exceedance_sides() {
    assert_eq!(exceedance_side("less_than"), Exceedance::Below);
    assert_eq!(exceedance_side("greater_than"), Exceedance::Above);
    assert_eq!(exceedance_side("sideways"), Exceedance::Above);
}
