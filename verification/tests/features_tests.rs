use groundwater_virtual_screening::features::{
    build_column_metadata, candidate_feature_rows, classify_feature, infer_unit, predictor_tier_definitions,
    tier_candidate_features,
};
use groundwater_virtual_screening::targets::infer_unit_for_col;

fn strings(v: &[&str]) -> Vec<String> {
    v.iter().map(|s| s.to_string()).collect()
}

#[test]
fn column_roles_and_units() {
    let metas = build_column_metadata(&strings(&["SampleID", "Dx", "pH", "Na", "K", "Location"]));
    let roles: Vec<&str> = metas.iter().map(|m| m.scientific_role.as_str()).collect();
    assert_eq!(roles, vec!["identifier", "coordinate", "field_parameter", "target_contaminant", "laboratory_chemical", "identifier"]);
    let units: Vec<&str> = metas.iter().map(|m| m.unit.as_str()).collect();
    assert_eq!(units, vec!["text", "decimal_degrees_lon", "dimensionless", "mg/L", "mg/L", "text"]);
    assert!(metas.iter().all(|m| m.inferred_type == "numeric" && !m.is_derived_variable));
    assert!(metas[1].is_coordinate && !metas[1].is_lab_variable);
    assert!(metas[2].is_field_variable);
    assert!(metas[3].is_target_candidate && !metas[3].is_lab_variable);
    assert!(metas[4].is_lab_variable);
    assert!(!metas[0].is_lab_variable);
}

#[test]
fn dictionary_units() {
    assert_eq!(infer_unit("Temp."), "°C");
    assert_eq!(infer_unit("EC"), "µS/cm");
    assert_eq!(infer_unit("Dy"), "decimal_degrees_lat");
    assert_eq!(infer_unit("Location"), "text");
    assert_eq!(infer_unit("HCO3"), "mg/L");
}

#[test]
fn measurement_units() {
    assert_eq!(infer_unit_for_col("K"), "mg/L");
    assert_eq!(infer_unit_for_col("pH"), "dimensionless");
    assert_eq!(infer_unit_for_col("Dx"), "decimal_degrees_lon");
    assert_eq!(infer_unit_for_col("Location"), "unknown");
}

#[test]
fn tiers_are_nested() {
    let t1 = tier_candidate_features("Tier1_Field");
    let t2 = tier_candidate_features("Tier2_Reduced");
    let t3 = tier_candidate_features("Tier3_Full");
    assert_eq!(t1, strings(&["pH", "Temp.", "EC", "Dx", "Dy"]));
    assert_eq!((t1.len(), t2.len(), t3.len()), (5, 12, 21));
    assert_eq!(&t2[..5], &t1[..]);
    assert_eq!(&t3[..12], &t2[..]);
    assert_eq!(t3[20], "Ca_Mg_ratio");
    assert!(tier_candidate_features("Tier4").is_empty());
}

#[test]
fn feature_kinds_and_formulas() {
    assert_eq!(classify_feature("SAR"), ("derived_ratio", Some("Na/sqrt(0.5*(Ca+Mg))".to_string())));
    assert_eq!(classify_feature("Na_Cl_ratio"), ("derived_ratio", Some("Na/Cl".to_string())));
    assert_eq!(classify_feature("Dy"), ("coordinate", None));
    assert_eq!(classify_feature("K"), ("measured", None));
}

#[test]
fn candidate_table_lists_every_tier() {
    let rows = candidate_feature_rows();
    assert_eq!(rows.len(), 38);
    assert_eq!(rows[0].tier_name, "Tier1_Field");
    assert_eq!(rows[5].tier_name, "Tier2_Reduced");
    assert_eq!(rows[17].tier_name, "Tier3_Full");
    let sar = rows.iter().find(|r| r.feature_name == "SAR").unwrap();
    assert_eq!(sar.feature_type, "derived_ratio");
    assert_eq!(sar.source_variable, "SAR");
    assert_eq!(sar.formula_if_derived.as_deref(), Some("Na/sqrt(0.5*(Ca+Mg))"));
}

#[test]
fn tier_definitions() {
    let tiers = predictor_tier_definitions();
    let names: Vec<&str> = tiers.iter().map(|t| t.tier_name.as_str()).collect();
    assert_eq!(names, vec!["Tier1_Field", "Tier2_Reduced", "Tier3_Full"]);
    assert_eq!(tiers[0].tier_description, "Field-screening model — lowest cost");
}
