use groundwater_virtual_screening::digest::{sha256_hex, sha256_str};
use groundwater_virtual_screening::export::{data_row_count, quote_csv, render_csv};
use groundwater_virtual_screening::outline::{detect_title, extract_targets_from_outline};
use groundwater_virtual_screening::text::{
    eq_ignore_ascii_case, i64_to_string, to_lowercase, trim, u64_to_string, zero_padded_decimal,
};

#[test]
fn sha256_of_known_inputs() {
    assert_eq!(sha256_str("abc"), "ba7816bf8f01cfea414140de5dae2223b00361a396177a9cb410ff61f20015ad");
    assert_eq!(sha256_hex(b""), "e3b0c44298fc1c149afbf4c8996fb92427ae41e4649b934ca495991b7852b855");
    assert_eq!(sha256_str("é").len(), 64);
}

#[test]
fn csv_quoting() {
    assert_eq!(quote_csv("plain"), "plain");
    assert_eq!(quote_csv("a,b"), "\"a,b\"");
    assert_eq!(quote_csv("say \"hi\""), "\"say \"\"hi\"\"\"");
    assert_eq!(quote_csv("two\nlines"), "\"two\nlines\"");
}

#[test]
fn csv_rendering_and_row_count() {
    let rows = vec![vec!["1".to_string(), "2".to_string()], vec!["3".to_string(), "4".to_string()]];
    let text = render_csv(&["a", "b"], &rows);
    assert_eq!(text, "a,b\n1,2\n3,4\n");
    assert_eq!(data_row_count(&text), 2);
    assert_eq!(data_row_count("a,b\n1,2"), 1);
    assert_eq!(data_row_count("a,b\n"), 0);
    assert_eq!(data_row_count(""), 0);
    assert_eq!(render_csv(&["only"], &[]), "only\n");
}

#[test]
fn outline_title_and_targets() {
    assert_eq!(detect_title("HEADER LINE\n\n   Groundwater screening  \nmore"), "Groundwater screening");
    assert_eq!(detect_title("just one line"), "(title not detected)");
    assert_eq!(detect_title("first\r\n  \r\nSecond\r\n"), "Second");
    assert_eq!(extract_targets_from_outline("Targets: Na, Cl and NO3"), vec!["Na", "Cl", "NO3"]);
    assert_eq!(extract_targets_from_outline("TDS; B; F"), vec!["TDS", "B", "F"]);
    assert!(extract_targets_from_outline("nothing here").is_empty());
}

#[test]
fn text_helpers() {
    assert_eq!(trim("\t x y \n"), "x y");
    assert!(eq_ignore_ascii_case("BdL", "bdl"));
    assert!(!eq_ignore_ascii_case("bd", "bdl"));
    assert_eq!(to_lowercase("TDS_Ratio"), "tds_ratio");
    assert_eq!(u64_to_string(1234567), "1234567");
    assert_eq!(i64_to_string(-42), "-42");
    assert_eq!(zero_padded_decimal(7, 4), "0007");
    assert_eq!(zero_padded_decimal(123456, 4), "123456");
}
