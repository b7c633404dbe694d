//! Registry construction: validation, duplicates and lookups.

use iso3166_static::Alpha2;
use iso3166_static::BuildError;
use iso3166_static::Numeric;
use iso3166_static::RawEntry;
use iso3166_static::Registry;
use iso3166_static::dataset;

fn raw(name: &str, numeric: u16, a2: &str, a3: &str) -> RawEntry {
    RawEntry {
        name: name.to_owned(),
        numeric,
        alpha2: a2.as_bytes().to_vec(),
        alpha3: a3.as_bytes().to_vec(),
    }
}

#[test]
fn dataset_has_the_standard_assignments() {
    assert_eq!(249, dataset().len());
}

#[test]
fn registry_holds_standard_and_reserved_entries() {
    let reg = Registry::build(dataset()).unwrap();
    // 249 standard entries, 100 reserved numeric codes, 42 reserved
    // alpha-2 codes and 1092 reserved alpha-3 codes.
    assert_eq!(249 + 100 + 42 + 1092, reg.len());
}

#[test]
fn empty_dataset_builds_the_reserved_blocks_alone() {
    let reg = Registry::build(Vec::new()).unwrap();
    assert_eq!(1234, reg.len());
    assert!(reg.lookup_by_numeric(900).is_some());
    assert!(reg.lookup_by_alpha2("ZZ").is_some());
    assert!(reg.lookup_by_alpha3("XAA").is_some());
    assert!(reg.lookup_by_numeric(840).is_none());
}

#[test]
fn build_rejects_numeric_out_of_domain() {
    let rows = vec![raw("Nowhere", 1000, "PZ", "PZZ")];
    assert_eq!(Err(BuildError::InvalidNumeric), Registry::build(rows).map(|_| ()));
}

#[test]
fn build_rejects_ill_shaped_alpha2() {
    let rows = vec![raw("Nowhere", 5, "P", "PZZ")];
    assert_eq!(Err(BuildError::InvalidAlpha2), Registry::build(rows).map(|_| ()));
    let rows = vec![raw("Nowhere", 5, "p5", "PZZ")];
    assert_eq!(Err(BuildError::InvalidAlpha2), Registry::build(rows).map(|_| ()));
}

#[test]
fn build_rejects_ill_shaped_alpha3() {
    let rows = vec![raw("Nowhere", 5, "PZ", "PZ")];
    assert_eq!(Err(BuildError::InvalidAlpha3), Registry::build(rows).map(|_| ()));
    let rows = vec![raw("Nowhere", 5, "PZ", "pzz")];
    assert_eq!(Err(BuildError::InvalidAlpha3), Registry::build(rows).map(|_| ()));
}

#[test]
fn build_rejects_duplicate_numeric() {
    let rows = vec![raw("First", 5, "PZ", "PZA"), raw("Second", 5, "PY", "PYA")];
    assert_eq!(Err(BuildError::DuplicateNumeric), Registry::build(rows).map(|_| ()));
}

#[test]
fn build_rejects_duplicate_alpha2() {
    let rows = vec![raw("First", 5, "PZ", "PZA"), raw("Second", 6, "PZ", "PYA")];
    assert_eq!(Err(BuildError::DuplicateAlpha2), Registry::build(rows).map(|_| ()));
}

#[test]
fn build_rejects_duplicate_alpha3() {
    let rows = vec![raw("First", 5, "PZ", "PZA"), raw("Second", 6, "PY", "PZA")];
    assert_eq!(Err(BuildError::DuplicateAlpha3), Registry::build(rows).map(|_| ()));
}

#[test]
fn build_rejects_collisions_with_reserved_blocks() {
    let rows = vec![raw("Band", 950, "PZ", "PZA")];
    assert_eq!(Err(BuildError::DuplicateNumeric), Registry::build(rows).map(|_| ()));
    let rows = vec![raw("Block", 5, "ZZ", "PZA")];
    assert_eq!(Err(BuildError::DuplicateAlpha2), Registry::build(rows).map(|_| ()));
    let rows = vec![raw("Block", 5, "PZ", "XAA")];
    assert_eq!(Err(BuildError::DuplicateAlpha3), Registry::build(rows).map(|_| ()));
}

#[test]
fn lookup_by_numeric_finds_the_entry() {
    let reg = Registry::build(dataset()).unwrap();
    let e = reg.lookup_by_numeric(840).unwrap();
    assert_eq!("United States of America", e.name);
    assert_eq!(Some(840), e.numeric);
    assert_eq!(Some((b'U', b'S')), e.alpha2);
    assert_eq!(Some((b'U', b'S', b'A')), e.alpha3);
    assert!(!e.user_assigned);
    assert!(reg.lookup_by_numeric(123).is_none());
    assert!(reg.lookup_by_numeric(0).is_none());
    // First and last standard assignments by numeric code.
    assert_eq!("Afghanistan", reg.lookup_by_numeric(4).unwrap().name);
    assert_eq!("Zambia", reg.lookup_by_numeric(894).unwrap().name);
    // Top of the reserved band.
    assert_eq!(Some(999), reg.lookup_by_numeric(999).unwrap().numeric);
}

#[test]
fn lookup_by_alpha_codes_is_exact() {
    let reg = Registry::build(dataset()).unwrap();
    assert!(reg.lookup_by_alpha2("US").is_some());
    // No normalization: case and whitespace are not tolerated here.
    assert!(reg.lookup_by_alpha2("us").is_none());
    assert!(reg.lookup_by_alpha2(" US").is_none());
    assert!(reg.lookup_by_alpha3("USA").is_some());
    assert!(reg.lookup_by_alpha3("usa").is_none());
}

#[test]
fn reserved_entries_have_deterministic_names() {
    let reg = Registry::build(Vec::new()).unwrap();
    assert_eq!("User-assigned 900", reg.lookup_by_numeric(900).unwrap().name);
    assert_eq!("User-assigned ZZ", reg.lookup_by_alpha2("ZZ").unwrap().name);
    assert_eq!("User-assigned QMA", reg.lookup_by_alpha3("QMA").unwrap().name);
}

#[test]
fn reserved_blocks_are_complete() {
    let reg = Registry::build(dataset()).unwrap();
    for n in 900..=999u16 {
        assert!(Numeric::from_u16(&reg, n).is_ok());
    }
    for b in b'M'..=b'Z' {
        let code = String::from_utf8(vec![b'Q', b]).unwrap();
        assert!(Alpha2::from_str_slice(&reg, &code).is_ok());
    }
    for b in b'A'..=b'Z' {
        let code = String::from_utf8(vec![b'X', b]).unwrap();
        assert!(Alpha2::from_str_slice(&reg, &code).is_ok());
    }
}
