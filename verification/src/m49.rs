//! United Nations M49 statistical records.
//!
//! The M49 dataset is the primary public source behind the ISO 3166-1
//! assignments. The record shape is kept here; reading the CSV file
//! and decoding its fields happen outside the library.

use vstd::prelude::*;

verus! {

/// An M49 CSV record.
#[derive(Debug, Eq, Hash, PartialEq)]
pub struct Record {
    /// The global numeric code.
    pub global_code: u16,
    /// The global name.
    pub global_name: String,
    /// The numeric region code.
    pub region_code: Option<u16>,
    /// The alphanumeric region name.
    pub region_name: Option<String>,
    /// The numeric sub-region code.
    pub subregion_code: Option<u16>,
    /// The alphanumeric sub-region name.
    pub subregion_name: Option<String>,
    /// The optional numeric intermediate region code.
    pub intermediate_region_code: Option<u16>,
    /// The optional alphanumeric intermediate region name.
    pub intermediate_region_name: Option<String>,
    /// The country name.
    pub country_or_area: String,
    /// The numeric code for this country.
    pub m49_code: u16,
    /// The ISO alpha-2 code.
    pub alpha2: String,
    /// The ISO alpha-3 code.
    pub alpha3: String,
    /// Whether the UN considers this country one of the least
    /// developed.
    pub least_developed_country: bool,
    /// Whether this country is landlocked, and the UN considers it
    /// developing.
    pub landlocked_developing_country: bool,
    /// Whether this country is defined as a small island, and the UN
    /// considers it developing.
    pub small_island_developing_state: bool,
}

} // verus!
