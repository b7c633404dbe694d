//! The three representations of a country and the conversions
//! between them.
//!
//! [`Numeric`], [`Alpha2`] and [`Alpha3`] are thin validated values:
//! each is produced only by a conversion that looked its code up in a
//! registry. Conversions within a representation family always round
//! trip; conversions across families are defined only when both sides
//! belong to the same registry entry, and fail with
//! [`Error::UserAssigned`] when the source is a reserved code — a
//! structurally valid but intentionally unmapped "island".

use vstd::prelude::*;
use vstd::string::StringSliceAdditionalSpecFns;

use crate::ascii::ascii_bytes_to_string;
use crate::ascii::chars_of_bytes;
use crate::ascii::dec_rep;
use crate::ascii::u16_decimal_string;
use crate::entry::EntryCodes;
use crate::entry::is_reserved_alpha2;
use crate::entry::is_reserved_alpha3;
use crate::entry::is_reserved_numeric;
use crate::entry::upper2;
use crate::entry::upper3;
use crate::error::Error;
use crate::norm::FixedAscii;
use crate::norm::normalize;
use crate::norm::normalize_spec;
use crate::registry::Registry;
use crate::registry::lemma_entry_alpha2_upper;
use crate::registry::lemma_entry_alpha3_upper;
use crate::registry::lemma_unique_alpha2;
use crate::registry::lemma_unique_alpha3;
use crate::registry::lemma_unique_numeric;
use crate::reserved::has_alpha2;
use crate::reserved::has_alpha3;
use crate::reserved::has_numeric;

verus! {

/// An ISO 3166-1 numeric country code.
#[derive(Clone, Copy, Debug, Eq, Hash, PartialEq, Structural)]
pub struct Numeric {
    code: u16,
}

/// An ISO 3166-1 alpha-2 country code.
#[derive(Clone, Copy, Debug, Eq, Hash, PartialEq, Structural)]
pub struct Alpha2 {
    b0: u8,
    b1: u8,
}

/// An ISO 3166-1 alpha-3 country code.
#[derive(Clone, Copy, Debug, Eq, Hash, PartialEq, Structural)]
pub struct Alpha3 {
    b0: u8,
    b1: u8,
    b2: u8,
}

impl View for Numeric {
    type V = u16;

    closed spec fn view(&self) -> u16 {
        self.code
    }
}

impl View for Alpha2 {
    type V = (u8, u8);

    closed spec fn view(&self) -> (u8, u8) {
        (self.b0, self.b1)
    }
}

impl View for Alpha3 {
    type V = (u8, u8, u8);

    closed spec fn view(&self) -> (u8, u8, u8) {
        (self.b0, self.b1, self.b2)
    }
}

/// What [`Numeric::from_u16`] returns: the code itself when some entry
/// carries it, [`Error::UnknownCode`] otherwise.
pub open spec fn spec_numeric_from_u16(s: Seq<EntryCodes>, v: u16) -> Result<u16, Error> {
    if has_numeric(s, v) {
        Ok(v)
    } else {
        Err(Error::UnknownCode)
    }
}

/// What [`Numeric::from_alpha2`] returns: the numeric code of the
/// entry that carries both representations, [`Error::UserAssigned`]
/// when no entry bridges the alpha-2 code to a numeric code.
pub open spec fn spec_numeric_from_alpha2(s: Seq<EntryCodes>, c: (u8, u8)) -> Result<u16, Error> {
    if exists|i: int|
        0 <= i < s.len() && #[trigger] s[i].alpha2 == Some(c) && s[i].numeric is Some {
        let i = choose|i: int|
            0 <= i < s.len() && #[trigger] s[i].alpha2 == Some(c) && s[i].numeric is Some;
        Ok(s[i].numeric->Some_0)
    } else {
        Err(Error::UserAssigned)
    }
}

/// What [`Numeric::from_alpha3`] returns; see
/// [`spec_numeric_from_alpha2`].
pub open spec fn spec_numeric_from_alpha3(s: Seq<EntryCodes>, c: (u8, u8, u8)) -> Result<
    u16,
    Error,
> {
    if exists|i: int|
        0 <= i < s.len() && #[trigger] s[i].alpha3 == Some(c) && s[i].numeric is Some {
        let i = choose|i: int|
            0 <= i < s.len() && #[trigger] s[i].alpha3 == Some(c) && s[i].numeric is Some;
        Ok(s[i].numeric->Some_0)
    } else {
        Err(Error::UserAssigned)
    }
}

/// What [`Alpha2::from_numeric`] returns: the alpha-2 code of the
/// entry that carries both representations, [`Error::UserAssigned`]
/// when no entry bridges the numeric code to an alpha-2 code.
pub open spec fn spec_alpha2_from_numeric(s: Seq<EntryCodes>, v: u16) -> Result<(u8, u8), Error> {
    if exists|i: int|
        0 <= i < s.len() && #[trigger] s[i].numeric == Some(v) && s[i].alpha2 is Some {
        let i = choose|i: int|
            0 <= i < s.len() && #[trigger] s[i].numeric == Some(v) && s[i].alpha2 is Some;
        Ok(s[i].alpha2->Some_0)
    } else {
        Err(Error::UserAssigned)
    }
}

/// What [`Alpha3::from_numeric`] returns; see
/// [`spec_alpha2_from_numeric`].
pub open spec fn spec_alpha3_from_numeric(s: Seq<EntryCodes>, v: u16) -> Result<
    (u8, u8, u8),
    Error,
> {
    if exists|i: int|
        0 <= i < s.len() && #[trigger] s[i].numeric == Some(v) && s[i].alpha3 is Some {
        let i = choose|i: int|
            0 <= i < s.len() && #[trigger] s[i].numeric == Some(v) && s[i].alpha3 is Some;
        Ok(s[i].alpha3->Some_0)
    } else {
        Err(Error::UserAssigned)
    }
}

/// What [`Alpha2::from_alpha3`] returns: the alpha-2 code of the entry
/// that carries both alpha codes, [`Error::UserAssigned`] otherwise.
pub open spec fn spec_alpha2_from_alpha3(s: Seq<EntryCodes>, c: (u8, u8, u8)) -> Result<
    (u8, u8),
    Error,
> {
    if exists|i: int|
        0 <= i < s.len() && #[trigger] s[i].alpha3 == Some(c) && s[i].alpha2 is Some {
        let i = choose|i: int|
            0 <= i < s.len() && #[trigger] s[i].alpha3 == Some(c) && s[i].alpha2 is Some;
        Ok(s[i].alpha2->Some_0)
    } else {
        Err(Error::UserAssigned)
    }
}

/// What [`Alpha3::from_alpha2`] returns; see
/// [`spec_alpha2_from_alpha3`].
pub open spec fn spec_alpha3_from_alpha2(s: Seq<EntryCodes>, c: (u8, u8)) -> Result<
    (u8, u8, u8),
    Error,
> {
    if exists|i: int|
        0 <= i < s.len() && #[trigger] s[i].alpha2 == Some(c) && s[i].alpha3 is Some {
        let i = choose|i: int|
            0 <= i < s.len() && #[trigger] s[i].alpha2 == Some(c) && s[i].alpha3 is Some;
        Ok(s[i].alpha3->Some_0)
    } else {
        Err(Error::UserAssigned)
    }
}

/// What [`Alpha2::from_str_slice`] returns: normalization errors pass
/// through, a width-three buffer is the wrong length for an alpha-2
/// code, and an unmatched code fails with [`Error::UnknownCode`].
pub open spec fn spec_alpha2_from_str(s: Seq<EntryCodes>, input: Seq<u8>) -> Result<
    (u8, u8),
    Error,
> {
    match normalize_spec(input) {
        Err(e) => Err(e),
        Ok(FixedAscii::Two(b0, b1)) => if has_alpha2(s, (b0, b1)) {
            Ok((b0, b1))
        } else {
            Err(Error::UnknownCode)
        },
        Ok(FixedAscii::Three(_, _, _)) => Err(Error::InvalidLength),
    }
}

/// What [`Alpha3::from_str_slice`] returns; see
/// [`spec_alpha2_from_str`].
pub open spec fn spec_alpha3_from_str(s: Seq<EntryCodes>, input: Seq<u8>) -> Result<
    (u8, u8, u8),
    Error,
> {
    match normalize_spec(input) {
        Err(e) => Err(e),
        Ok(FixedAscii::Two(_, _)) => Err(Error::InvalidLength),
        Ok(FixedAscii::Three(b0, b1, b2)) => if has_alpha3(s, (b0, b1, b2)) {
            Ok((b0, b1, b2))
        } else {
            Err(Error::UnknownCode)
        },
    }
}

/// What [`Numeric::from_str_slice`] returns: normalization errors pass
/// through; the normalized code is resolved through the alpha index of
/// its width, [`Error::UnknownCode`] when the code is not catalogued,
/// and [`Error::UserAssigned`] when it is catalogued but reserved, so
/// that no numeric mapping exists for it.
pub open spec fn spec_numeric_from_str(s: Seq<EntryCodes>, input: Seq<u8>) -> Result<u16, Error> {
    match normalize_spec(input) {
        Err(e) => Err(e),
        Ok(FixedAscii::Two(b0, b1)) => if has_alpha2(s, (b0, b1)) {
            spec_numeric_from_alpha2(s, (b0, b1))
        } else {
            Err(Error::UnknownCode)
        },
        Ok(FixedAscii::Three(b0, b1, b2)) => if has_alpha3(s, (b0, b1, b2)) {
            spec_numeric_from_alpha3(s, (b0, b1, b2))
        } else {
            Err(Error::UnknownCode)
        },
    }
}

/// Whether one entry carries both the numeric code `n` and the
/// alpha-2 code `c`: equality across these two representations is
/// identity of the underlying entry, not equality of strings.
pub open spec fn spec_links_numeric_alpha2(s: Seq<EntryCodes>, n: u16, c: (u8, u8)) -> bool {
    exists|i: int| 0 <= i < s.len() && #[trigger] s[i].numeric == Some(n) && s[i].alpha2 == Some(c)
}

/// Whether one entry carries both the numeric code `n` and the
/// alpha-3 code `c`.
pub open spec fn spec_links_numeric_alpha3(s: Seq<EntryCodes>, n: u16, c: (u8, u8, u8)) -> bool {
    exists|i: int| 0 <= i < s.len() && #[trigger] s[i].numeric == Some(n) && s[i].alpha3 == Some(c)
}

/// Whether one entry carries both the alpha-2 code `c2` and the
/// alpha-3 code `c3`.
pub open spec fn spec_links_alpha2_alpha3(s: Seq<EntryCodes>, c2: (u8, u8), c3: (u8, u8, u8)) -> bool {
    exists|i: int| 0 <= i < s.len() && #[trigger] s[i].alpha2 == Some(c2) && s[i].alpha3 == Some(c3)
}

impl Numeric {
    /// The 16-bit value of the code.
    pub fn as_u16(&self) -> (r: u16)
        ensures
            r == self@,
    {
        self.code
    }

    /// The decimal rendering of the code, as its `Display` form.
    pub fn to_decimal_string(&self) -> (r: String)
        ensures
            r@ == chars_of_bytes(dec_rep(self@ as nat)),
    {
        u16_decimal_string(self.code)
    }

    /// Whether the code lies in the reserved numeric band.
    pub fn is_user_assigned(&self) -> (r: bool)
        ensures
            r == is_reserved_numeric(self@),
    {
        900 <= self.code && self.code <= 999
    }

    /// Whether this numeric code and the given alpha-2 code denote the
    /// same registry entry. The relation is symmetric.
    pub fn eq_alpha2(&self, reg: &Registry, other: &Alpha2) -> (r: bool)
        requires
            reg.wf(),
        ensures
            r == spec_links_numeric_alpha2(reg@, self@, other@),
    {
        match reg.find_numeric(self.code) {
            Some(i) => {
                let linked = match reg.alpha2_at(i) {
                    Some(c) => c.0 == other.b0 && c.1 == other.b1,
                    None => false,
                };
                proof {
                    if spec_links_numeric_alpha2(reg@, self@, other@) {
                        let j = choose|j: int|
                            0 <= j < reg@.len() && #[trigger] reg@[j].numeric == Some(self@)
                                && reg@[j].alpha2 == Some(other@);
                        lemma_unique_numeric(reg@, i as int, j);
                    }
                }
                linked
            },
            None => false,
        }
    }

    /// Whether this numeric code and the given alpha-3 code denote the
    /// same registry entry. The relation is symmetric.
    pub fn eq_alpha3(&self, reg: &Registry, other: &Alpha3) -> (r: bool)
        requires
            reg.wf(),
        ensures
            r == spec_links_numeric_alpha3(reg@, self@, other@),
    {
        match reg.find_numeric(self.code) {
            Some(i) => {
                let linked = match reg.alpha3_at(i) {
                    Some(c) => c.0 == other.b0 && c.1 == other.b1 && c.2 == other.b2,
                    None => false,
                };
                proof {
                    if spec_links_numeric_alpha3(reg@, self@, other@) {
                        let j = choose|j: int|
                            0 <= j < reg@.len() && #[trigger] reg@[j].numeric == Some(self@)
                                && reg@[j].alpha3 == Some(other@);
                        lemma_unique_numeric(reg@, i as int, j);
                    }
                }
                linked
            },
            None => false,
        }
    }

    /// Try to create a numeric code from the given 16-bit integer.
    ///
    /// Fails with [`Error::UnknownCode`] exactly when no entry of the
    /// registry carries the code.
    pub fn from_u16(reg: &Registry, value: u16) -> (r: Result<Numeric, Error>)
        requires
            reg.wf(),
        ensures
            match r {
                Ok(n) => spec_numeric_from_u16(reg@, value) == Ok::<u16, Error>(n@),
                Err(e) => spec_numeric_from_u16(reg@, value) == Err::<u16, Error>(e),
            },
    {
        match reg.find_numeric(value) {
            Some(_) => Ok(Numeric { code: value }),
            None => Err(Error::UnknownCode),
        }
    }

    /// Try to create a numeric code from a wider integer, as a
    /// structured-deserialization boundary hands them over: the value
    /// is range-checked into the 16-bit domain before table lookup.
    pub fn from_i128(reg: &Registry, value: i128) -> (r: Result<Numeric, Error>)
        requires
            reg.wf(),
        ensures
            match r {
                Ok(n) => 0 <= value <= u16::MAX && spec_numeric_from_u16(reg@, value as u16)
                    == Ok::<u16, Error>(n@),
                Err(e) => if 0 <= value <= u16::MAX {
                    spec_numeric_from_u16(reg@, value as u16) == Err::<u16, Error>(e)
                } else {
                    e == Error::UnknownCode
                },
            },
    {
        if value < 0 || value > 65535 {
            Err(Error::UnknownCode)
        } else {
            Numeric::from_u16(reg, value as u16)
        }
    }

    /// Try to create a numeric code from the given alpha-2 code.
    ///
    /// Fails with [`Error::UserAssigned`] exactly when no entry
    /// bridges the alpha-2 code to a numeric code — in particular for
    /// every user-assigned alpha-2 code, which has no numeric
    /// representation.
    pub fn from_alpha2(reg: &Registry, value: Alpha2) -> (r: Result<Numeric, Error>)
        requires
            reg.wf(),
        ensures
            match r {
                Ok(n) => spec_numeric_from_alpha2(reg@, value@) == Ok::<u16, Error>(n@),
                Err(e) => spec_numeric_from_alpha2(reg@, value@) == Err::<u16, Error>(e),
            },
    {
        match reg.find_alpha2(value.b0, value.b1) {
            Some(i) => {
                match reg.numeric_at(i) {
                    Some(n) => {
                        proof {
                            let j = choose|j: int|
                                0 <= j < reg@.len() && #[trigger] reg@[j].alpha2 == Some(value@)
                                    && reg@[j].numeric is Some;
                            lemma_unique_alpha2(reg@, i as int, j);
                        }
                        Ok(Numeric { code: n })
                    },
                    None => {
                        proof {
                            if exists|j: int|
                                0 <= j < reg@.len() && #[trigger] reg@[j].alpha2 == Some(value@)
                                    && reg@[j].numeric is Some {
                                let j = choose|j: int|
                                    0 <= j < reg@.len() && #[trigger] reg@[j].alpha2 == Some(
                                        value@,
                                    ) && reg@[j].numeric is Some;
                                lemma_unique_alpha2(reg@, j, i as int);
                            }
                        }
                        Err(Error::UserAssigned)
                    },
                }
            },
            None => Err(Error::UserAssigned),
        }
    }

    /// Try to create a numeric code from the given alpha-3 code.
    ///
    /// Fails with [`Error::UserAssigned`] exactly when no entry
    /// bridges the alpha-3 code to a numeric code.
    pub fn from_alpha3(reg: &Registry, value: Alpha3) -> (r: Result<Numeric, Error>)
        requires
            reg.wf(),
        ensures
            match r {
                Ok(n) => spec_numeric_from_alpha3(reg@, value@) == Ok::<u16, Error>(n@),
                Err(e) => spec_numeric_from_alpha3(reg@, value@) == Err::<u16, Error>(e),
            },
    {
        match reg.find_alpha3(value.b0, value.b1, value.b2) {
            Some(i) => {
                match reg.numeric_at(i) {
                    Some(n) => {
                        proof {
                            let j = choose|j: int|
                                0 <= j < reg@.len() && #[trigger] reg@[j].alpha3 == Some(value@)
                                    && reg@[j].numeric is Some;
                            lemma_unique_alpha3(reg@, i as int, j);
                        }
                        Ok(Numeric { code: n })
                    },
                    None => {
                        proof {
                            if exists|j: int|
                                0 <= j < reg@.len() && #[trigger] reg@[j].alpha3 == Some(value@)
                                    && reg@[j].numeric is Some {
                                let j = choose|j: int|
                                    0 <= j < reg@.len() && #[trigger] reg@[j].alpha3 == Some(
                                        value@,
                                    ) && reg@[j].numeric is Some;
                                lemma_unique_alpha3(reg@, j, i as int);
                            }
                        }
                        Err(Error::UserAssigned)
                    },
                }
            },
            None => Err(Error::UserAssigned),
        }
    }

    /// Parse free-form input into a numeric code: normalize, resolve
    /// through the alpha index of the detected width, then follow the
    /// alpha-to-numeric link.
    pub fn from_str_slice(reg: &Registry, value: &str) -> (r: Result<Numeric, Error>)
        requires
            reg.wf(),
        ensures
            match r {
                Ok(n) => spec_numeric_from_str(reg@, value.spec_bytes()) == Ok::<u16, Error>(n@),
                Err(e) => spec_numeric_from_str(reg@, value.spec_bytes()) == Err::<u16, Error>(e),
            },
    {
        match normalize(value) {
            Err(e) => Err(e),
            Ok(FixedAscii::Two(b0, b1)) => {
                match reg.find_alpha2(b0, b1) {
                    Some(_) => {
                        let a = Alpha2 { b0, b1 };
                        proof {
                            assert(has_alpha2(reg@, (b0, b1)));
                        }
                        Numeric::from_alpha2(reg, a)
                    },
                    None => Err(Error::UnknownCode),
                }
            },
            Ok(FixedAscii::Three(b0, b1, b2)) => {
                match reg.find_alpha3(b0, b1, b2) {
                    Some(_) => {
                        let a = Alpha3 { b0, b1, b2 };
                        proof {
                            assert(has_alpha3(reg@, (b0, b1, b2)));
                        }
                        Numeric::from_alpha3(reg, a)
                    },
                    None => Err(Error::UnknownCode),
                }
            },
        }
    }
}

impl Alpha2 {
    /// Whether the code's bytes are uppercase ASCII letters; every
    /// conversion returns codes with this shape.
    pub open spec fn wf(self) -> bool {
        upper2(self@)
    }

    /// The string representation of the code.
    pub fn as_str(&self) -> (r: String)
        requires
            self.wf(),
        ensures
            r@ == chars_of_bytes(seq![self@.0, self@.1]),
    {
        let mut bytes: Vec<u8> = Vec::new();
        bytes.push(self.b0);
        bytes.push(self.b1);
        proof {
            assert(bytes@ =~= seq![self@.0, self@.1]);
        }
        ascii_bytes_to_string(bytes)
    }

    /// Whether the code lies in a reserved alpha-2 block.
    pub fn is_user_assigned(&self) -> (r: bool)
        ensures
            r == is_reserved_alpha2(self@),
    {
        (self.b0 == 65 && self.b1 == 65) || (self.b0 == 81 && 77 <= self.b1 && self.b1 <= 90) || (
        self.b0 == 88 && 65 <= self.b1 && self.b1 <= 90) || (self.b0 == 90 && self.b1 == 90)
    }

    /// Whether this alpha-2 code and the given alpha-3 code denote the
    /// same registry entry. The relation is symmetric.
    pub fn eq_alpha3(&self, reg: &Registry, other: &Alpha3) -> (r: bool)
        requires
            reg.wf(),
        ensures
            r == spec_links_alpha2_alpha3(reg@, self@, other@),
    {
        match reg.find_alpha2(self.b0, self.b1) {
            Some(i) => {
                let linked = match reg.alpha3_at(i) {
                    Some(c) => c.0 == other.b0 && c.1 == other.b1 && c.2 == other.b2,
                    None => false,
                };
                proof {
                    if spec_links_alpha2_alpha3(reg@, self@, other@) {
                        let j = choose|j: int|
                            0 <= j < reg@.len() && #[trigger] reg@[j].alpha2 == Some(self@)
                                && reg@[j].alpha3 == Some(other@);
                        lemma_unique_alpha2(reg@, i as int, j);
                    }
                }
                linked
            },
            None => false,
        }
    }

    /// Parse free-form input into an alpha-2 code.
    ///
    /// Normalization errors pass through; a normalized width of three
    /// fails with [`Error::InvalidLength`]; a two-byte code absent
    /// from the registry fails with [`Error::UnknownCode`]. Reserved
    /// alpha-2 codes are catalogued, so they parse successfully.
    pub fn from_str_slice(reg: &Registry, value: &str) -> (r: Result<Alpha2, Error>)
        requires
            reg.wf(),
        ensures
            match r {
                Ok(a) => spec_alpha2_from_str(reg@, value.spec_bytes()) == Ok::<(u8, u8), Error>(
                    a@,
                ) && a.wf(),
                Err(e) => spec_alpha2_from_str(reg@, value.spec_bytes()) == Err::<
                    (u8, u8),
                    Error,
                >(e),
            },
    {
        match normalize(value) {
            Err(e) => Err(e),
            Ok(FixedAscii::Three(_, _, _)) => Err(Error::InvalidLength),
            Ok(FixedAscii::Two(b0, b1)) => {
                match reg.find_alpha2(b0, b1) {
                    Some(i) => {
                        proof {
                            assert(has_alpha2(reg@, (b0, b1)));
                            lemma_entry_alpha2_upper(reg@, i as int);
                        }
                        Ok(Alpha2 { b0, b1 })
                    },
                    None => Err(Error::UnknownCode),
                }
            },
        }
    }

    /// Try to convert the given numeric code into its alpha-2 code.
    ///
    /// Fails with [`Error::UserAssigned`] exactly when no entry
    /// bridges the numeric code to an alpha-2 code — in particular
    /// for every reserved numeric code.
    pub fn from_numeric(reg: &Registry, value: Numeric) -> (r: Result<Alpha2, Error>)
        requires
            reg.wf(),
        ensures
            match r {
                Ok(a) => spec_alpha2_from_numeric(reg@, value@) == Ok::<(u8, u8), Error>(a@)
                    && a.wf(),
                Err(e) => spec_alpha2_from_numeric(reg@, value@) == Err::<(u8, u8), Error>(e),
            },
    {
        match reg.find_numeric(value.code) {
            Some(i) => {
                match reg.alpha2_at(i) {
                    Some(c) => {
                        proof {
                            let j = choose|j: int|
                                0 <= j < reg@.len() && #[trigger] reg@[j].numeric == Some(value@)
                                    && reg@[j].alpha2 is Some;
                            lemma_unique_numeric(reg@, i as int, j);
                            lemma_entry_alpha2_upper(reg@, i as int);
                        }
                        Ok(Alpha2 { b0: c.0, b1: c.1 })
                    },
                    None => {
                        proof {
                            if exists|j: int|
                                0 <= j < reg@.len() && #[trigger] reg@[j].numeric == Some(value@)
                                    && reg@[j].alpha2 is Some {
                                let j = choose|j: int|
                                    0 <= j < reg@.len() && #[trigger] reg@[j].numeric == Some(
                                        value@,
                                    ) && reg@[j].alpha2 is Some;
                                lemma_unique_numeric(reg@, j, i as int);
                            }
                        }
                        Err(Error::UserAssigned)
                    },
                }
            },
            None => Err(Error::UserAssigned),
        }
    }

    /// Try to convert the given alpha-3 code into its alpha-2 code.
    ///
    /// Fails with [`Error::UserAssigned`] exactly when no entry
    /// carries both alpha codes — in particular for every reserved
    /// alpha-3 code.
    pub fn from_alpha3(reg: &Registry, value: Alpha3) -> (r: Result<Alpha2, Error>)
        requires
            reg.wf(),
        ensures
            match r {
                Ok(a) => spec_alpha2_from_alpha3(reg@, value@) == Ok::<(u8, u8), Error>(a@)
                    && a.wf(),
                Err(e) => spec_alpha2_from_alpha3(reg@, value@) == Err::<(u8, u8), Error>(e),
            },
    {
        match reg.find_alpha3(value.b0, value.b1, value.b2) {
            Some(i) => {
                match reg.alpha2_at(i) {
                    Some(c) => {
                        proof {
                            let j = choose|j: int|
                                0 <= j < reg@.len() && #[trigger] reg@[j].alpha3 == Some(value@)
                                    && reg@[j].alpha2 is Some;
                            lemma_unique_alpha3(reg@, i as int, j);
                            lemma_entry_alpha2_upper(reg@, i as int);
                        }
                        Ok(Alpha2 { b0: c.0, b1: c.1 })
                    },
                    None => {
                        proof {
                            if exists|j: int|
                                0 <= j < reg@.len() && #[trigger] reg@[j].alpha3 == Some(value@)
                                    && reg@[j].alpha2 is Some {
                                let j = choose|j: int|
                                    0 <= j < reg@.len() && #[trigger] reg@[j].alpha3 == Some(
                                        value@,
                                    ) && reg@[j].alpha2 is Some;
                                lemma_unique_alpha3(reg@, j, i as int);
                            }
                        }
                        Err(Error::UserAssigned)
                    },
                }
            },
            None => Err(Error::UserAssigned),
        }
    }
}

impl Alpha3 {
    /// Whether the code's bytes are uppercase ASCII letters; every
    /// conversion returns codes with this shape.
    pub open spec fn wf(self) -> bool {
        upper3(self@)
    }

    /// The string representation of the code.
    pub fn as_str(&self) -> (r: String)
        requires
            self.wf(),
        ensures
            r@ == chars_of_bytes(seq![self@.0, self@.1, self@.2]),
    {
        let mut bytes: Vec<u8> = Vec::new();
        bytes.push(self.b0);
        bytes.push(self.b1);
        bytes.push(self.b2);
        proof {
            assert(bytes@ =~= seq![self@.0, self@.1, self@.2]);
        }
        ascii_bytes_to_string(bytes)
    }

    /// Whether the code lies in a reserved alpha-3 block.
    pub fn is_user_assigned(&self) -> (r: bool)
        ensures
            r == is_reserved_alpha3(self@),
    {
        (self.b0 == 65 && self.b1 == 65 && 65 <= self.b2 && self.b2 <= 90) || (self.b0 == 81 && 77
            <= self.b1 && self.b1 <= 90 && 65 <= self.b2 && self.b2 <= 90) || (self.b0 == 88 && 65
            <= self.b1 && self.b1 <= 90 && 65 <= self.b2 && self.b2 <= 90) || (self.b0 == 90
            && self.b1 == 90 && 65 <= self.b2 && self.b2 <= 90)
    }

    /// Parse free-form input into an alpha-3 code.
    ///
    /// Normalization errors pass through; a normalized width of two
    /// fails with [`Error::InvalidLength`]; a three-byte code absent
    /// from the registry fails with [`Error::UnknownCode`]. Reserved
    /// alpha-3 codes are catalogued, so they parse successfully.
    pub fn from_str_slice(reg: &Registry, value: &str) -> (r: Result<Alpha3, Error>)
        requires
            reg.wf(),
        ensures
            match r {
                Ok(a) => spec_alpha3_from_str(reg@, value.spec_bytes()) == Ok::<
                    (u8, u8, u8),
                    Error,
                >(a@) && a.wf(),
                Err(e) => spec_alpha3_from_str(reg@, value.spec_bytes()) == Err::<
                    (u8, u8, u8),
                    Error,
                >(e),
            },
    {
        match normalize(value) {
            Err(e) => Err(e),
            Ok(FixedAscii::Two(_, _)) => Err(Error::InvalidLength),
            Ok(FixedAscii::Three(b0, b1, b2)) => {
                match reg.find_alpha3(b0, b1, b2) {
                    Some(i) => {
                        proof {
                            assert(has_alpha3(reg@, (b0, b1, b2)));
                            lemma_entry_alpha3_upper(reg@, i as int);
                        }
                        Ok(Alpha3 { b0, b1, b2 })
                    },
                    None => Err(Error::UnknownCode),
                }
            },
        }
    }

    /// Try to convert the given numeric code into its alpha-3 code.
    ///
    /// Fails with [`Error::UserAssigned`] exactly when no entry
    /// bridges the numeric code to an alpha-3 code — in particular
    /// for every reserved numeric code.
    pub fn from_numeric(reg: &Registry, value: Numeric) -> (r: Result<Alpha3, Error>)
        requires
            reg.wf(),
        ensures
            match r {
                Ok(a) => spec_alpha3_from_numeric(reg@, value@) == Ok::<(u8, u8, u8), Error>(a@)
                    && a.wf(),
                Err(e) => spec_alpha3_from_numeric(reg@, value@) == Err::<(u8, u8, u8), Error>(e),
            },
    {
        match reg.find_numeric(value.code) {
            Some(i) => {
                match reg.alpha3_at(i) {
                    Some(c) => {
                        proof {
                            let j = choose|j: int|
                                0 <= j < reg@.len() && #[trigger] reg@[j].numeric == Some(value@)
                                    && reg@[j].alpha3 is Some;
                            lemma_unique_numeric(reg@, i as int, j);
                            lemma_entry_alpha3_upper(reg@, i as int);
                        }
                        Ok(Alpha3 { b0: c.0, b1: c.1, b2: c.2 })
                    },
                    None => {
                        proof {
                            if exists|j: int|
                                0 <= j < reg@.len() && #[trigger] reg@[j].numeric == Some(value@)
                                    && reg@[j].alpha3 is Some {
                                let j = choose|j: int|
                                    0 <= j < reg@.len() && #[trigger] reg@[j].numeric == Some(
                                        value@,
                                    ) && reg@[j].alpha3 is Some;
                                lemma_unique_numeric(reg@, j, i as int);
                            }
                        }
                        Err(Error::UserAssigned)
                    },
                }
            },
            None => Err(Error::UserAssigned),
        }
    }

    /// Try to convert the given alpha-2 code into its alpha-3 code.
    ///
    /// Fails with [`Error::UserAssigned`] exactly when no entry
    /// carries both alpha codes — in particular for every reserved
    /// alpha-2 code.
    pub fn from_alpha2(reg: &Registry, value: Alpha2) -> (r: Result<Alpha3, Error>)
        requires
            reg.wf(),
        ensures
            match r {
                Ok(a) => spec_alpha3_from_alpha2(reg@, value@) == Ok::<(u8, u8, u8), Error>(a@)
                    && a.wf(),
                Err(e) => spec_alpha3_from_alpha2(reg@, value@) == Err::<(u8, u8, u8), Error>(e),
            },
    {
        match reg.find_alpha2(value.b0, value.b1) {
            Some(i) => {
                match reg.alpha3_at(i) {
                    Some(c) => {
                        proof {
                            let j = choose|j: int|
                                0 <= j < reg@.len() && #[trigger] reg@[j].alpha2 == Some(value@)
                                    && reg@[j].alpha3 is Some;
                            lemma_unique_alpha2(reg@, i as int, j);
                            lemma_entry_alpha3_upper(reg@, i as int);
                        }
                        Ok(Alpha3 { b0: c.0, b1: c.1, b2: c.2 })
                    },
                    None => {
                        proof {
                            if exists|j: int|
                                0 <= j < reg@.len() && #[trigger] reg@[j].alpha2 == Some(value@)
                                    && reg@[j].alpha3 is Some {
                                let j = choose|j: int|
                                    0 <= j < reg@.len() && #[trigger] reg@[j].alpha2 == Some(
                                        value@,
                                    ) && reg@[j].alpha3 is Some;
                                lemma_unique_alpha2(reg@, j, i as int);
                            }
                        }
                        Err(Error::UserAssigned)
                    },
                }
            },
            None => Err(Error::UserAssigned),
        }
    }
}

} // verus!
