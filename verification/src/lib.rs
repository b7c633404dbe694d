//! Static ISO 3166-1 country-code catalogue with verified conversions.
//!
//! The crate keeps a closed, immutable registry of country identities,
//! indexed by numeric code, alpha-2 code and alpha-3 code, and converts
//! between the three representations and free-form input strings.

pub mod ascii;
pub mod codes;
pub mod data;
pub mod entry;
pub mod error;
pub mod index;
pub mod laws;
pub mod lukes;
pub mod m49;
pub mod norm;
pub mod registry;
pub mod reserved;

pub use codes::Alpha2;
pub use codes::Alpha3;
pub use codes::Numeric;
pub use data::dataset;
pub use entry::Entry;
pub use entry::RawEntry;
pub use error::BuildError;
pub use error::Error;
pub use registry::Registry;
