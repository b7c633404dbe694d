//! Conversion behaviour of the three representations.

use iso3166_static::Alpha2;
use iso3166_static::Alpha3;
use iso3166_static::Error;
use iso3166_static::Numeric;
use iso3166_static::Registry;
use iso3166_static::dataset;

fn registry() -> Registry {
    Registry::build(dataset()).expect("the embedded dataset is valid")
}

#[test]
fn numeric_display() {
    let reg = registry();
    let src = Numeric::from_u16(&reg, 840).unwrap();

    assert_eq!("840", src.to_decimal_string());
}

#[test]
fn numeric_u16_roundtrip() {
    let reg = registry();
    let actual = Numeric::from_u16(&reg, 840).expect("valid u16");
    assert_eq!(840, actual.as_u16());
}

#[test]
fn numeric_from_u16() {
    let reg = registry();
    assert!(Numeric::from_u16(&reg, 840).is_ok());
    assert_eq!(Err(Error::UnknownCode), Numeric::from_u16(&reg, u16::MAX));
    assert_eq!(Err(Error::UnknownCode), Numeric::from_u16(&reg, 123));
}

#[test]
fn numeric_from_alpha2() {
    let reg = registry();
    let us = Alpha2::from_str_slice(&reg, "US").unwrap();
    let zz = Alpha2::from_str_slice(&reg, "ZZ").unwrap();

    assert_eq!(840, Numeric::from_alpha2(&reg, us).unwrap().as_u16());
    assert_eq!(Err(Error::UserAssigned), Numeric::from_alpha2(&reg, zz));
}

#[test]
fn numeric_from_alpha3() {
    let reg = registry();
    let usa = Alpha3::from_str_slice(&reg, "USA").unwrap();
    let zzz = Alpha3::from_str_slice(&reg, "ZZZ").unwrap();

    assert_eq!(840, Numeric::from_alpha3(&reg, usa).unwrap().as_u16());
    assert_eq!(Err(Error::UserAssigned), Numeric::from_alpha3(&reg, zzz));
}

#[test]
fn alpha2_from_str() {
    let reg = registry();
    assert_eq!("US", Alpha2::from_str_slice(&reg, "US").unwrap().as_str());
    assert_eq!(Err(Error::UnknownCode), Alpha2::from_str_slice(&reg, "QB"));
    assert_eq!(Err(Error::InvalidLength), Alpha2::from_str_slice(&reg, "USA"));
    assert_eq!(Err(Error::InvalidCharset), Alpha2::from_str_slice(&reg, "\u{1F4A9}"));
}

#[test]
fn alpha3_from_str() {
    let reg = registry();
    assert_eq!("USA", Alpha3::from_str_slice(&reg, "USA").unwrap().as_str());
    assert_eq!(Err(Error::UnknownCode), Alpha3::from_str_slice(&reg, "BBB"));
    assert_eq!(Err(Error::InvalidLength), Alpha3::from_str_slice(&reg, "USAID"));
    assert_eq!(Err(Error::InvalidCharset), Alpha3::from_str_slice(&reg, "\u{1F4A9}"));
}

#[test]
fn alpha2_from_numeric_and_alpha3() {
    let reg = registry();
    let n = Numeric::from_u16(&reg, 840).unwrap();
    let usa = Alpha3::from_str_slice(&reg, "USA").unwrap();

    assert_eq!("US", Alpha2::from_numeric(&reg, n).unwrap().as_str());
    assert_eq!("US", Alpha2::from_alpha3(&reg, usa).unwrap().as_str());
}

#[test]
fn alpha3_from_numeric_and_alpha2() {
    let reg = registry();
    let n = Numeric::from_u16(&reg, 840).unwrap();
    let us = Alpha2::from_str_slice(&reg, "US").unwrap();

    assert_eq!("USA", Alpha3::from_numeric(&reg, n).unwrap().as_str());
    assert_eq!("USA", Alpha3::from_alpha2(&reg, us).unwrap().as_str());
}

#[test]
fn numeric_from_str_dispatches_on_width() {
    let reg = registry();
    assert_eq!(840, Numeric::from_str_slice(&reg, "US").unwrap().as_u16());
    assert_eq!(840, Numeric::from_str_slice(&reg, "USA").unwrap().as_u16());
    assert_eq!(Err(Error::UnknownCode), Numeric::from_str_slice(&reg, "QB"));
    assert_eq!(Err(Error::UserAssigned), Numeric::from_str_slice(&reg, "ZZ"));
    assert_eq!(Err(Error::InvalidLength), Numeric::from_str_slice(&reg, "USAID"));
}

#[test]
fn numeric_from_i128_range_checks() {
    let reg = registry();
    assert_eq!(840, Numeric::from_i128(&reg, 840).unwrap().as_u16());
    assert_eq!(Err(Error::UnknownCode), Numeric::from_i128(&reg, -1));
    assert_eq!(Err(Error::UnknownCode), Numeric::from_i128(&reg, 70000));
    assert_eq!(Err(Error::UnknownCode), Numeric::from_i128(&reg, i128::MAX));
}

#[test]
fn user_assigned_flags() {
    let reg = registry();
    assert!(!Numeric::from_u16(&reg, 840).unwrap().is_user_assigned());
    assert!(Numeric::from_u16(&reg, 900).unwrap().is_user_assigned());
    assert!(!Alpha2::from_str_slice(&reg, "US").unwrap().is_user_assigned());
    assert!(Alpha2::from_str_slice(&reg, "XX").unwrap().is_user_assigned());
    assert!(!Alpha3::from_str_slice(&reg, "USA").unwrap().is_user_assigned());
    assert!(Alpha3::from_str_slice(&reg, "ZZZ").unwrap().is_user_assigned());
}

#[test]
fn round_trip_standard_entry() {
    let reg = registry();
    let us = Alpha2::from_str_slice(&reg, "US").unwrap();
    let usa = Alpha3::from_str_slice(&reg, "USA").unwrap();

    let n = Numeric::from_alpha2(&reg, us).unwrap();
    assert_eq!(us, Alpha2::from_numeric(&reg, n).unwrap());

    let n3 = Numeric::from_alpha3(&reg, usa).unwrap();
    assert_eq!(usa, Alpha3::from_numeric(&reg, n3).unwrap());

    assert_eq!(us, Alpha2::from_alpha3(&reg, Alpha3::from_alpha2(&reg, us).unwrap()).unwrap());
}

#[test]
fn reserved_numeric_is_an_island() {
    let reg = registry();
    let n = Numeric::from_u16(&reg, 999).unwrap();
    assert_eq!(Err(Error::UserAssigned), Alpha2::from_numeric(&reg, n));
    assert_eq!(Err(Error::UserAssigned), Alpha3::from_numeric(&reg, n));
}

#[test]
fn reserved_alpha_codes_parse_but_do_not_bridge() {
    let reg = registry();
    let aa = Alpha2::from_str_slice(&reg, "AA").unwrap();
    assert_eq!("AA", aa.as_str());
    assert_eq!(Err(Error::UserAssigned), Numeric::from_alpha2(&reg, aa));
    assert_eq!(Err(Error::UserAssigned), Alpha3::from_alpha2(&reg, aa));

    let qma = Alpha3::from_str_slice(&reg, "QMA").unwrap();
    assert_eq!("QMA", qma.as_str());
    assert_eq!(Err(Error::UserAssigned), Numeric::from_alpha3(&reg, qma));
    assert_eq!(Err(Error::UserAssigned), Alpha2::from_alpha3(&reg, qma));
}

#[test]
fn cross_representation_equality_is_entry_identity() {
    let reg = registry();
    let n = Numeric::from_u16(&reg, 840).unwrap();
    let us = Alpha2::from_str_slice(&reg, "US").unwrap();
    let usa = Alpha3::from_str_slice(&reg, "USA").unwrap();
    let ca = Alpha2::from_str_slice(&reg, "CA").unwrap();
    let zz = Alpha2::from_str_slice(&reg, "ZZ").unwrap();

    assert!(n.eq_alpha2(&reg, &us));
    assert!(n.eq_alpha3(&reg, &usa));
    assert!(us.eq_alpha3(&reg, &usa));
    assert!(!n.eq_alpha2(&reg, &ca));
    assert!(!n.eq_alpha2(&reg, &zz));
    assert!(!zz.eq_alpha3(&reg, &usa));
    // A reserved numeric code denotes an entry with no alpha codes.
    let user = Numeric::from_u16(&reg, 900).unwrap();
    assert!(!user.eq_alpha2(&reg, &us));
}

#[test]
fn error_messages() {
    assert_eq!("Unknown Code", Error::UnknownCode.message());
    assert_eq!("User Assigned", Error::UserAssigned.message());
    assert_eq!("Invalid Length", Error::InvalidLength.message());
    assert_eq!("Invalid Character Set", Error::InvalidCharset.message());
}
