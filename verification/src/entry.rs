//! Registry entries, their spec-level models, and the reserved blocks.
//!
//! An [`Entry`] is one row of the registry: a country with all three
//! representations, or a reserved ("user-assigned") placeholder that
//! exists in exactly one representation family. The spec-level model
//! [`EntryCodes`] carries the codes and the reserved flag but not the
//! display name, which is documentation only and never used in lookups.

use vstd::prelude::*;

use crate::ascii::is_upper_alpha;

verus! {

/// The codes of one entry: the mathematical model of an [`Entry`].
pub struct EntryCodes {
    /// The numeric code, absent for reserved alpha entries.
    pub numeric: Option<u16>,
    /// The alpha-2 code as two ASCII bytes, absent when the entry has none.
    pub alpha2: Option<(u8, u8)>,
    /// The alpha-3 code as three ASCII bytes, absent when the entry has none.
    pub alpha3: Option<(u8, u8, u8)>,
    /// Whether the entry belongs to a reserved block.
    pub user_assigned: bool,
}

/// One catalogued country or reserved placeholder.
pub struct Entry {
    /// Display name, for documentation and debugging only.
    pub name: String,
    /// The numeric code, absent for reserved alpha entries.
    pub numeric: Option<u16>,
    /// The alpha-2 code as two ASCII bytes.
    pub alpha2: Option<(u8, u8)>,
    /// The alpha-3 code as three ASCII bytes.
    pub alpha3: Option<(u8, u8, u8)>,
    /// Whether the entry belongs to a reserved block.
    pub user_assigned: bool,
}

impl View for Entry {
    type V = EntryCodes;

    open spec fn view(&self) -> EntryCodes {
        EntryCodes {
            numeric: self.numeric,
            alpha2: self.alpha2,
            alpha3: self.alpha3,
            user_assigned: self.user_assigned,
        }
    }
}

/// Whether `n` lies in the reserved numeric band.
pub open spec fn is_reserved_numeric(n: u16) -> bool {
    900 <= n <= 999
}

/// Whether `c` lies in a reserved alpha-2 block
/// (`AA`, `QM`..`QZ`, `XA`..`XZ`, `ZZ`).
pub open spec fn is_reserved_alpha2(c: (u8, u8)) -> bool {
    ||| (c.0 == 65 && c.1 == 65)
    ||| (c.0 == 81 && 77 <= c.1 <= 90)
    ||| (c.0 == 88 && 65 <= c.1 <= 90)
    ||| (c.0 == 90 && c.1 == 90)
}

/// Whether `c` lies in a reserved alpha-3 block
/// (`AAA`..`AAZ`, `QMA`..`QZZ`, `XAA`..`XZZ`, `ZZA`..`ZZZ`).
pub open spec fn is_reserved_alpha3(c: (u8, u8, u8)) -> bool {
    ||| (c.0 == 65 && c.1 == 65 && 65 <= c.2 <= 90)
    ||| (c.0 == 81 && 77 <= c.1 <= 90 && 65 <= c.2 <= 90)
    ||| (c.0 == 88 && 65 <= c.1 <= 90 && 65 <= c.2 <= 90)
    ||| (c.0 == 90 && c.1 == 90 && 65 <= c.2 <= 90)
}

/// Whether both bytes of an alpha-2 code are uppercase ASCII letters.
pub open spec fn upper2(c: (u8, u8)) -> bool {
    is_upper_alpha(c.0) && is_upper_alpha(c.1)
}

/// Whether all bytes of an alpha-3 code are uppercase ASCII letters.
pub open spec fn upper3(c: (u8, u8, u8)) -> bool {
    is_upper_alpha(c.0) && is_upper_alpha(c.1) && is_upper_alpha(c.2)
}

/// The model of a reserved numeric entry.
pub open spec fn reserved_numeric_codes(n: u16) -> EntryCodes {
    EntryCodes { numeric: Some(n), alpha2: None, alpha3: None, user_assigned: true }
}

/// The model of a reserved alpha-2 entry.
pub open spec fn reserved_alpha2_codes(c: (u8, u8)) -> EntryCodes {
    EntryCodes { numeric: None, alpha2: Some(c), alpha3: None, user_assigned: true }
}

/// The model of a reserved alpha-3 entry.
pub open spec fn reserved_alpha3_codes(c: (u8, u8, u8)) -> EntryCodes {
    EntryCodes { numeric: None, alpha2: None, alpha3: Some(c), user_assigned: true }
}

/// The model of a standard entry.
pub open spec fn standard_codes(n: u16, a2: (u8, u8), a3: (u8, u8, u8)) -> EntryCodes {
    EntryCodes { numeric: Some(n), alpha2: Some(a2), alpha3: Some(a3), user_assigned: false }
}

/// Shape of a single well-formed entry: a standard entry carries all
/// three representations, none of them reserved; a user-assigned entry
/// carries exactly one representation, inside its reserved block.
pub open spec fn entry_ok(e: EntryCodes) -> bool {
    if e.user_assigned {
        ||| (e.numeric matches Some(n) && is_reserved_numeric(n) && e.alpha2 is None && e.alpha3 is None)
        ||| (e.alpha2 matches Some(c) && is_reserved_alpha2(c) && e.numeric is None && e.alpha3 is None)
        ||| (e.alpha3 matches Some(c) && is_reserved_alpha3(c) && e.numeric is None && e.alpha2 is None)
    } else {
        &&& e.numeric matches Some(n) && n < 900
        &&& e.alpha2 matches Some(a) && upper2(a) && !is_reserved_alpha2(a)
        &&& e.alpha3 matches Some(b) && upper3(b) && !is_reserved_alpha3(b)
    }
}

/// No representation is shared between two distinct entries.
pub open spec fn distinct_codes(a: EntryCodes, b: EntryCodes) -> bool {
    &&& (a.numeric is Some ==> a.numeric != b.numeric)
    &&& (a.alpha2 is Some ==> a.alpha2 != b.alpha2)
    &&& (a.alpha3 is Some ==> a.alpha3 != b.alpha3)
}

/// One tuple of the external dataset: a display name and the three
/// representations of a standard entry, codes as ASCII bytes.
pub struct RawEntry {
    /// The display name of the country.
    pub name: String,
    /// The numeric code.
    pub numeric: u16,
    /// The alpha-2 code bytes.
    pub alpha2: Vec<u8>,
    /// The alpha-3 code bytes.
    pub alpha3: Vec<u8>,
}

/// Whether dataset alpha-2 bytes have the required shape: exactly two
/// uppercase ASCII letters.
pub open spec fn alpha2_shape_ok(s: Seq<u8>) -> bool {
    s.len() == 2 && is_upper_alpha(s[0]) && is_upper_alpha(s[1])
}

/// Whether dataset alpha-3 bytes have the required shape: exactly three
/// uppercase ASCII letters.
pub open spec fn alpha3_shape_ok(s: Seq<u8>) -> bool {
    s.len() == 3 && is_upper_alpha(s[0]) && is_upper_alpha(s[1]) && is_upper_alpha(s[2])
}

/// The entry model a well-shaped dataset tuple denotes.
pub open spec fn raw_codes(r: RawEntry) -> EntryCodes {
    EntryCodes {
        numeric: Some(r.numeric),
        alpha2: Some((r.alpha2@[0], r.alpha2@[1])),
        alpha3: Some((r.alpha3@[0], r.alpha3@[1], r.alpha3@[2])),
        user_assigned: false,
    }
}

} // verus!
