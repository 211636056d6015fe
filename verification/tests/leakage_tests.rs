use groundwater_virtual_screening::features::tier_candidate_features;
use groundwater_virtual_screening::io::{LeakageRulesConfig, SpecialModel, TargetLeakageRule};
use groundwater_virtual_screening::leakage::{apply_leakage_filter, is_forbidden};

fn strings(v: &[&str]) -> Vec<String> {
    v.iter().map(|s| s.to_string()).collect()
}

fn rules() -> LeakageRulesConfig {
    LeakageRulesConfig {
        global_forbidden_patterns: strings(&["Exceed", "label"]),
        targets: vec![
            (
                "TDS".to_string(),
                TargetLeakageRule {
                    forbidden_exact: strings(&["TDS"]),
                    forbidden_contains: strings(&["tds"]),
                    special_models: Some(vec![
                        (
                            "TDS_EC_inclusive".to_string(),
                            SpecialModel { allow: strings(&["EC", "TDS_calc", "TDS"]), forbidden_exact: vec![], notes: String::new() },
                        ),
                        (
                            "TDS_EC_strict".to_string(),
                            SpecialModel { allow: vec![], forbidden_exact: strings(&["EC", "Na"]), notes: String::new() },
                        ),
                    ]),
                    notes: String::new(),
                },
            ),
            (
                "Cl".to_string(),
                TargetLeakageRule {
                    forbidden_exact: strings(&["Cl", "Na_Cl_ratio"]),
                    forbidden_contains: strings(&["_cl"]),
                    special_models: None,
                    notes: String::new(),
                },
            ),
        ],
    }
}

#[test]
fn global_patterns_forbid_in_any_case_for_every_target() {
    let r = rules();
    assert!(is_forbidden("pH_EXCEEDANCE", "Na", &r, None));
    assert!(is_forbidden("true_LABEL", "Cl", &r, None));
    assert!(!is_forbidden("pH", "Na", &r, None));
}

#[test]
fn exact_bans_match_the_whole_name() {
    let r = rules();
    assert!(is_forbidden("Cl", "Cl", &r, None));
    assert!(is_forbidden("Na_Cl_ratio", "Cl", &r, None));
    assert!(!is_forbidden("Na", "Cl", &r, None));
}

#[test]
fn contains_bans_ignore_case() {
    let r = rules();
    assert!(is_forbidden("TDS_calc", "TDS", &r, None));
    assert!(is_forbidden("HCO3_CL_ratio", "Cl", &r, None));
}

#[test]
fn a_variant_adds_bans_and_lifts_substring_bans_it_allows() {
    let r = rules();
    assert!(!is_forbidden("EC", "TDS", &r, None));
    assert!(is_forbidden("EC", "TDS", &r, Some("TDS_EC_strict")));
    assert!(is_forbidden("Na", "TDS", &r, Some("TDS_EC_strict")));
    assert!(!is_forbidden("EC", "TDS", &r, Some("TDS_EC_inclusive")));
    // an allowance overrides the target's substring bans
    assert!(is_forbidden("TDS_calc", "TDS", &r, None));
    assert!(!is_forbidden("TDS_calc", "TDS", &r, Some("TDS_EC_inclusive")));
    assert!(is_forbidden("TDS_calc", "TDS", &r, Some("TDS_EC_strict")));
    // but not an exact ban of the target, nor a global pattern
    assert!(is_forbidden("TDS", "TDS", &r, Some("TDS_EC_inclusive")));
    assert!(is_forbidden("label_EC", "TDS", &r, Some("TDS_EC_inclusive")));
    // an unknown variant changes nothing
    assert!(!is_forbidden("Na", "TDS", &r, Some("other")));
    assert!(is_forbidden("TDS_calc", "TDS", &r, Some("other")));
}

#[test]
fn a_target_without_rule_is_held_only_to_global_patterns() {
    let r = rules();
    assert!(!is_forbidden("Cl", "NO3", &r, None));
    assert!(!is_forbidden("TDS", "NO3", &r, Some("TDS_EC_strict")));
    assert!(is_forbidden("exceedance", "NO3", &r, None));
}

#[test]
fn leakage_filter_splits_candidates_in_order() {
    let r = rules();
    let cands = tier_candidate_features("Tier2_Reduced");
    let audit = apply_leakage_filter(&cands, "Cl", "Tier2_Reduced", "Tier2_Reduced", &r, None);
    assert_eq!(audit.excluded, strings(&["Cl"]));
    assert_eq!(audit.included, strings(&["pH", "Temp.", "EC", "Dx", "Dy", "Na", "K", "Mg", "Ca", "HCO3", "SO4"]));
    assert_eq!(audit.included.len() + audit.excluded.len(), cands.len());
    assert_eq!(audit.decisions.len(), cands.len());
    let cl = &audit.decisions[9];
    assert_eq!(cl.feature_name, "Cl");
    assert_eq!(cl.action, "excluded");
    assert_eq!(cl.reason, "Leakage rule applied for target 'Cl'");
    assert_eq!(cl.rule_source, "leakage_rules.yaml");
    assert_eq!(audit.decisions[0].action, "included");
    assert_eq!(audit.decisions[0].reason, "Passed all leakage checks");
}

#[test]
fn leakage_filter_records_the_storage_tier() {
    let r = rules();
    let cands = tier_candidate_features("Tier2_Reduced");
    let audit =
        apply_leakage_filter(&cands, "TDS", "Tier2_Reduced", "Tier2_Reduced_TDS_EC_strict", &r, Some("TDS_EC_strict"));
    assert!(audit.decisions.iter().all(|d| d.tier_name == "Tier2_Reduced_TDS_EC_strict"));
    assert!(audit.decisions.iter().all(|d| d.target_contaminant == "TDS"));
    assert_eq!(audit.excluded, strings(&["EC", "Na"]));
}
