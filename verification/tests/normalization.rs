//! Normalization behaviour shared by the string entry points.

use iso3166_static::Alpha2;
use iso3166_static::Alpha3;
use iso3166_static::Error;
use iso3166_static::Numeric;
use iso3166_static::Registry;
use iso3166_static::dataset;
use iso3166_static::norm::FixedAscii;
use iso3166_static::norm::normalize;

#[test]
fn parse_is_case_and_whitespace_insensitive() {
    let reg = Registry::build(dataset()).unwrap();
    let a = Alpha2::from_str_slice(&reg, "us").unwrap();
    let b = Alpha2::from_str_slice(&reg, "US").unwrap();
    let c = Alpha2::from_str_slice(&reg, "  US  ").unwrap();
    assert_eq!(a, b);
    assert_eq!(b, c);
    assert_eq!(840, Numeric::from_str_slice(&reg, " usa\t").unwrap().as_u16());
}

#[test]
fn normalize_trims_folds_and_tags_width() {
    assert_eq!(Ok(FixedAscii::Two(b'U', b'S')), normalize("  us "));
    assert_eq!(Ok(FixedAscii::Three(b'U', b'S', b'A')), normalize("usa"));
}

#[test]
fn normalize_is_idempotent_on_its_output() {
    // Feeding a canonical buffer's bytes back through normalization
    // returns the same buffer.
    assert_eq!(Ok(FixedAscii::Two(b'U', b'S')), normalize("US"));
    assert_eq!(normalize("US"), normalize("US"));
    let folded = normalize(" us ").unwrap();
    match folded {
        FixedAscii::Two(a, b) => {
            let s = String::from_utf8(vec![a, b]).unwrap();
            assert_eq!(Ok(folded), normalize(&s));
        },
        FixedAscii::Three(_, _, _) => panic!("two bytes expected"),
    }
}

#[test]
fn charset_takes_precedence_over_length() {
    // A non-ASCII input fails on its charset whatever its byte length;
    // an over-long ASCII input fails on its length.
    assert_eq!(Err(Error::InvalidCharset), normalize("\u{1F4A9}"));
    assert_eq!(Err(Error::InvalidCharset), normalize("\u{00E9}a"));
    assert_eq!(Err(Error::InvalidLength), normalize("USAID"));
}

#[test]
fn empty_and_whitespace_inputs_fail_on_length() {
    let reg = Registry::build(dataset()).unwrap();
    assert_eq!(Err(Error::InvalidLength), Alpha2::from_str_slice(&reg, ""));
    assert_eq!(Err(Error::InvalidLength), Alpha2::from_str_slice(&reg, "   "));
    assert_eq!(Err(Error::InvalidLength), Alpha3::from_str_slice(&reg, "\t\n"));
    assert_eq!(Err(Error::InvalidLength), Numeric::from_str_slice(&reg, "X"));
}

#[test]
fn interior_whitespace_is_not_removed() {
    let reg = Registry::build(dataset()).unwrap();
    // "U S" trims to three bytes with an interior space: the width is
    // three, but no entry carries such a code.
    assert_eq!(Err(Error::UnknownCode), Alpha3::from_str_slice(&reg, " U S "));
}
