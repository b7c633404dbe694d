//! The closed error sets of the library.
//!
//! Conversion and parsing failures are always reported as values of
//! [`Error`]; registry construction failures as values of [`BuildError`].
//! Nothing here panics and nothing is silently defaulted.

use vstd::prelude::*;

verus! {

/// An enumeration of errors related to ISO 3166 codes.
#[derive(Clone, Copy, Debug, Eq, Hash, PartialEq, Structural)]
pub enum Error {
    /// The given value is not a known ISO 3166-1 code.
    UnknownCode,
    /// User-assigned codes cannot be converted between representations.
    UserAssigned,
    /// The string length is not a viable code.
    InvalidLength,
    /// The string contains non-ASCII bytes.
    InvalidCharset,
}

impl Error {
    /// A short human-readable description of the error.
    pub fn message(&self) -> (r: &'static str)
        ensures
            *self is UnknownCode ==> r@ == "Unknown Code"@,
            *self is UserAssigned ==> r@ == "User Assigned"@,
            *self is InvalidLength ==> r@ == "Invalid Length"@,
            *self is InvalidCharset ==> r@ == "Invalid Character Set"@,
    {
        match self {
            Error::UnknownCode => "Unknown Code",
            Error::UserAssigned => "User Assigned",
            Error::InvalidLength => "Invalid Length",
            Error::InvalidCharset => "Invalid Character Set",
        }
    }
}

/// An enumeration of the ways a registry dataset can be rejected.
#[derive(Clone, Copy, Debug, Eq, Hash, PartialEq, Structural)]
pub enum BuildError {
    /// A numeric code lies outside the 0..=999 domain.
    InvalidNumeric,
    /// An alpha-2 code is not two uppercase ASCII letters.
    InvalidAlpha2,
    /// An alpha-3 code is not three uppercase ASCII letters.
    InvalidAlpha3,
    /// A numeric code occurs twice, or collides with the reserved band.
    DuplicateNumeric,
    /// An alpha-2 code occurs twice, or collides with a reserved block.
    DuplicateAlpha2,
    /// An alpha-3 code occurs twice, or collides with a reserved block.
    DuplicateAlpha3,
}

} // verus!
