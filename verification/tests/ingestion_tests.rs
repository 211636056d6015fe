use groundwater_virtual_screening::dataset::{read_csv, DatasetError};
use groundwater_virtual_screening::io::{default_bdl_method, default_true, row_value, CsvRow};
use groundwater_virtual_screening::targets::{
    audit_summary, classify_raw_value, cleaning_note, limit_source, limit_source_name, measurement_sample_id,
    raw_sample_id, LimitSource, RawValueKind,
};
use groundwater_virtual_screening::validation::{count_bdl_cells, missing_columns, required_columns};

fn row(pairs: &[(&str, &str)]) -> CsvRow {
    pairs.iter().map(|(k, v)| (k.to_string(), v.to_string())).collect()
}

#[test]
fn csv_bytes_become_keyed_records() {
    let d = read_csv(b"SampleID, Na ,Cl\nW1, 12 ,bdl\nW2,3,4\n").unwrap();
    assert_eq!(d.headers, vec!["SampleID", "Na", "Cl"]);
    assert_eq!((d.n_rows, d.n_cols), (2, 3));
    assert_eq!(row_value(&d.rows[0], "Na").map(|s| s.as_str()), Some("12"));
    assert_eq!(row_value(&d.rows[0], "Cl").map(|s| s.as_str()), Some("bdl"));
    assert_eq!(row_value(&d.rows[1], "SampleID").map(|s| s.as_str()), Some("W2"));
    assert_eq!(row_value(&d.rows[1], "F"), None);
}

#[test]
fn a_repeated_header_keeps_the_later_field() {
    let d = read_csv(b"a,b,a\n1,2,3\n").unwrap();
    assert_eq!(d.rows[0].len(), 2);
    assert_eq!(row_value(&d.rows[0], "a").map(|s| s.as_str()), Some("3"));
    assert_eq!(row_value(&d.rows[0], "b").map(|s| s.as_str()), Some("2"));
}

#[test]
fn ragged_records_are_refused() {
    match read_csv(b"a,b\n1\n") {
        Err(DatasetError::Csv(_)) => {}
        Ok(_) => panic!("expected the csv reader to refuse the record"),
    }
}

#[test]
fn defaults_of_the_bdl_settings() {
    assert_eq!(default_bdl_method(), "limit_div_sqrt2");
    assert!(default_true());
}

#[test]
fn required_and_missing_columns() {
    let req = required_columns();
    assert_eq!(req, vec!["SampleID", "Dx", "Dy", "Na", "Cl", "TDS", "F", "NO3"]);
    let headers: Vec<String> = ["SampleID", "Dx", "Na", "pH"].iter().map(|s| s.to_string()).collect();
    assert_eq!(missing_columns(&headers, &req), vec!["Dy", "Cl", "TDS", "F", "NO3"]);
}

#[test]
fn bdl_cells_are_counted_after_trimming() {
    let rows = vec![row(&[("Na", " bdl"), ("Cl", "BDL ")]), row(&[("Na", "<0.1"), ("Cl", "nd"), ("F", "bdl.")])];
    assert_eq!(count_bdl_cells(&rows), 2);
    assert_eq!(count_bdl_cells(&[]), 0);
}

#[test]
fn raw_values_are_classified() {
    assert_eq!(classify_raw_value("   "), RawValueKind::Empty);
    assert_eq!(classify_raw_value(" BDL "), RawValueKind::BdlMarker);
    assert_eq!(classify_raw_value("N.D."), RawValueKind::BdlMarker);
    assert_eq!(classify_raw_value("-"), RawValueKind::BdlMarker);
    assert_eq!(classify_raw_value("<DL"), RawValueKind::BdlMarker);
    assert_eq!(classify_raw_value(" < 0.05 "), RawValueKind::ReportedLimit("0.05".to_string()));
    assert_eq!(classify_raw_value("12.5 "), RawValueKind::Plain("12.5".to_string()));
}

#[test]
fn sample_identifiers() {
    assert_eq!(raw_sample_id(&row(&[("SampleID", "W12")]), 3), "W12");
    assert_eq!(raw_sample_id(&row(&[("Na", "1")]), 6), "ROW_0007");
    assert_eq!(raw_sample_id(&row(&[]), 12344), "ROW_12345");
    assert_eq!(measurement_sample_id(&row(&[("Na", "1")])), "UNKNOWN");
    assert_eq!(measurement_sample_id(&row(&[("SampleID", "P-3")])), "P-3");
}

#[test]
fn substitution_limit_sources() {
    assert_eq!(limit_source("none", true, true), LimitSource::NoLimit);
    assert_eq!(limit_source("limit_div_sqrt2", true, false), LimitSource::Configured);
    assert_eq!(limit_source("limit_div_sqrt2", false, true), LimitSource::MinimumDetected);
    assert_eq!(limit_source("limit_div_sqrt2", false, false), LimitSource::NoLimit);
    assert_eq!(limit_source_name(LimitSource::Configured), "configured_detection_limit");
    assert_eq!(limit_source_name(LimitSource::MinimumDetected), "minimum_detected_value");
    assert_eq!(limit_source_name(LimitSource::NoLimit), "none");
}

#[test]
fn cleaning_notes() {
    assert_eq!(cleaning_note(true, true, false, "x", LimitSource::NoLimit), "failed_numeric_parse");
    assert_eq!(cleaning_note(false, true, false, "bdl", LimitSource::NoLimit), "bdl_stored_as_missing");
    assert_eq!(
        cleaning_note(false, true, true, " <0.1", LimitSource::Configured),
        "bdl_substituted_using_reported_detection_limit"
    );
    assert_eq!(
        cleaning_note(false, true, true, "bdl", LimitSource::MinimumDetected),
        "bdl_substituted_using_min_detected_fallback"
    );
    assert_eq!(
        cleaning_note(false, true, true, "bdl", LimitSource::Configured),
        "bdl_substituted_using_configured_detection_limit"
    );
    assert_eq!(cleaning_note(false, false, true, "1.2", LimitSource::Configured), "");
}

#[test]
fn data_audit_summary() {
    let (status, msg) = audit_summary(81, 20, 3, 6, 2, 0);
    assert_eq!(status, "WARNING");
    assert_eq!(msg, "n=81, cols=20, bdl=3, parse_errors=6, missing_coords=2, duplicates=0");
    let (status, msg) = audit_summary(5, 4, 0, 5, -1, 1);
    assert_eq!(status, "OK");
    assert_eq!(msg, "n=5, cols=4, bdl=0, parse_errors=5, missing_coords=-1, duplicates=1");
}
