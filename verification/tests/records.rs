//! Dataset record shapes and their conversion to registry tuples.

use iso3166_static::lukes;
use iso3166_static::m49;

fn lukes_record(
    name: Option<&str>,
    alpha_2: Option<&str>,
    alpha_3: Option<&str>,
    country_code: Option<&str>,
) -> lukes::Record {
    lukes::Record {
        name: name.map(str::to_owned),
        alpha_2: alpha_2.map(str::to_owned),
        alpha_3: alpha_3.map(str::to_owned),
        country_code: country_code.map(str::to_owned),
        iso_3166_2: None,
        region: None,
        sub_region: None,
        intermediate_region: None,
        region_code: None,
        sub_region_code: None,
        intermediate_region_code: None,
    }
}

#[test]
fn complete_record_becomes_a_tuple() {
    let rec = lukes_record(
        Some("United States of America"),
        Some("US"),
        Some("USA"),
        Some("840"),
    );
    let raw = rec.to_raw().unwrap();
    assert_eq!("United States of America", raw.name);
    assert_eq!(840, raw.numeric);
    assert_eq!(b"US".to_vec(), raw.alpha2);
    assert_eq!(b"USA".to_vec(), raw.alpha3);
}

#[test]
fn leading_zeros_in_the_country_code_are_accepted() {
    let rec = lukes_record(Some("Afghanistan"), Some("AF"), Some("AFG"), Some("004"));
    assert_eq!(4, rec.to_raw().unwrap().numeric);
}

#[test]
fn incomplete_records_become_no_tuple() {
    assert!(lukes_record(None, Some("US"), Some("USA"), Some("840")).to_raw().is_none());
    assert!(lukes_record(Some("x"), None, Some("USA"), Some("840")).to_raw().is_none());
    assert!(lukes_record(Some("x"), Some("US"), None, Some("840")).to_raw().is_none());
    assert!(lukes_record(Some("x"), Some("US"), Some("USA"), None).to_raw().is_none());
}

#[test]
fn unparsable_country_codes_become_no_tuple() {
    assert!(lukes_record(Some("x"), Some("US"), Some("USA"), Some("")).to_raw().is_none());
    assert!(lukes_record(Some("x"), Some("US"), Some("USA"), Some("84a")).to_raw().is_none());
    assert!(lukes_record(Some("x"), Some("US"), Some("USA"), Some("-4")).to_raw().is_none());
    assert!(lukes_record(Some("x"), Some("US"), Some("USA"), Some("65536")).to_raw().is_none());
    assert!(lukes_record(Some("x"), Some("US"), Some("USA"), Some("99999999")).to_raw().is_none());
}

#[test]
fn largest_country_code_value_is_accepted() {
    let rec = lukes_record(Some("x"), Some("US"), Some("USA"), Some("65535"));
    assert_eq!(65535, rec.to_raw().unwrap().numeric);
}

#[test]
fn m49_record_holds_its_fields() {
    let rec = m49::Record {
        global_code: 1,
        global_name: "World".to_owned(),
        region_code: Some(19),
        region_name: Some("Americas".to_owned()),
        subregion_code: Some(21),
        subregion_name: Some("Northern America".to_owned()),
        intermediate_region_code: None,
        intermediate_region_name: None,
        country_or_area: "United States of America".to_owned(),
        m49_code: 840,
        alpha2: "US".to_owned(),
        alpha3: "USA".to_owned(),
        least_developed_country: false,
        landlocked_developing_country: false,
        small_island_developing_state: false,
    };
    assert_eq!(840, rec.m49_code);
    assert_eq!("US", rec.alpha2);
    assert!(!rec.least_developed_country);
}
