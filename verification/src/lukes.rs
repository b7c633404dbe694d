//! The record shape of the combined country-codes JSON dataset.
//!
//! Each record of the dataset carries a country's name, its three ISO
//! 3166-1 representations and its M49 region information, every field
//! optional. Reading the file and decoding its JSON happen outside the
//! library; the library receives the decoded records and turns the
//! complete ones into registry tuples.

use vstd::prelude::*;
use vstd::string::StrSliceExecFns;
use vstd::utf8::encode_utf8;

use crate::ascii::all_digits;
use crate::ascii::dec_value;
use crate::ascii::parse_u16;
use crate::entry::RawEntry;

verus! {

/// A record of the combined country-codes dataset.
#[derive(Debug, Default)]
pub struct Record {
    /// The name of the country record.
    pub name: Option<String>,
    /// The alpha-2 code.
    pub alpha_2: Option<String>,
    /// The alpha-3 code.
    pub alpha_3: Option<String>,
    /// The numeric code, as a decimal string.
    pub country_code: Option<String>,
    /// The ISO 3166-2 code.
    pub iso_3166_2: Option<String>,
    /// The M49 region name.
    pub region: Option<String>,
    /// The M49 sub-region name.
    pub sub_region: Option<String>,
    /// The M49 intermediate-region name.
    pub intermediate_region: Option<String>,
    /// The M49 region numeric code.
    pub region_code: Option<String>,
    /// The M49 sub-region numeric code.
    pub sub_region_code: Option<String>,
    /// The M49 intermediate-region numeric code.
    pub intermediate_region_code: Option<String>,
}

/// Whether a country-code string denotes a 16-bit decimal number.
pub open spec fn country_code_parses(s: Seq<u8>) -> bool {
    s.len() > 0 && all_digits(s) && dec_value(s) <= u16::MAX
}

impl Record {
    /// The registry tuple this record denotes: available exactly when
    /// the name, both alpha codes and the numeric code are present and
    /// the numeric code is a 16-bit decimal string. The alpha codes
    /// are passed through as bytes; the registry validates their shape
    /// when it is built.
    pub fn to_raw(&self) -> (r: Option<RawEntry>)
        ensures
            match r {
                Some(raw) => {
                    &&& self.name matches Some(n) && raw.name@ == n@
                    &&& self.alpha_2 matches Some(a2) && raw.alpha2@ == encode_utf8(a2@)
                    &&& self.alpha_3 matches Some(a3) && raw.alpha3@ == encode_utf8(a3@)
                    &&& self.country_code matches Some(cc) && country_code_parses(encode_utf8(cc@))
                        && raw.numeric == dec_value(encode_utf8(cc@))
                },
                None => {
                    ||| self.name is None
                    ||| self.alpha_2 is None
                    ||| self.alpha_3 is None
                    ||| self.country_code is None
                    ||| (self.country_code matches Some(cc) && !country_code_parses(
                        encode_utf8(cc@),
                    ))
                },
            },
    {
        let name = match &self.name {
            Some(n) => n.clone(),
            None => {
                return None;
            },
        };
        let a2 = match &self.alpha_2 {
            Some(a) => a.as_str().as_bytes_vec(),
            None => {
                return None;
            },
        };
        let a3 = match &self.alpha_3 {
            Some(a) => a.as_str().as_bytes_vec(),
            None => {
                return None;
            },
        };
        let cc = match &self.country_code {
            Some(c) => c.as_str().as_bytes_vec(),
            None => {
                return None;
            },
        };
        let numeric = match parse_u16(cc.as_slice()) {
            Some(n) => n,
            None => {
                return None;
            },
        };
        Some(RawEntry { name, numeric, alpha2: a2, alpha3: a3 })
    }
}

} // verus!
