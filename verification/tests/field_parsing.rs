use mp4box::fields::{parse_compatible_brands, parse_string_field, parse_u32_field, parse_u64_field};

#[test]
fn parse_u64_field_extracts_number() {
    let s = "timescale=600000 duration=65536";
    assert_eq!(parse_u64_field(s, "timescale="), Some(600000));
    assert_eq!(parse_u64_field(s, "duration="), Some(65536));
    assert_eq!(parse_u64_field(s, "missing="), None);
}

#[test]
fn parse_u32_field_clamps_to_u32() {
    let s = "timescale=12345";
    assert_eq!(parse_u32_field(s, "timescale="), Some(12345));
}

#[test]
fn parse_string_field_basic() {
    let s = "major=isom minor=512";
    assert_eq!(parse_string_field(s, "major="), Some("isom".to_string()));
    assert_eq!(parse_string_field(s, "minor="), Some("512".to_string()));
    assert_eq!(parse_string_field(s, "missing="), None);
}

#[test]
fn parse_string_field_trims_quotes() {
    let s = r#"language="und""#;
    assert_eq!(parse_string_field(s, "language="), Some("und".to_string()));
}

#[test]
fn parse_compatible_brands_parses_list() {
    let s = r#"major=isom minor=512 compatible=["isom", "iso2", "avc1", "mp41"]"#;
    let brands = parse_compatible_brands(s).unwrap();
    assert_eq!(brands, vec!["isom", "iso2", "avc1", "mp41"]);
}

#[test]
fn parse_compatible_brands_empty() {
    let s = r#"compatible=[]"#;
    let brands = parse_compatible_brands(s).unwrap();
    assert!(brands.is_empty());
}
