//! The cross-function laws of the library, stated and proved.
//!
//! Normalization idempotence lives beside the normalizer in
//! [`crate::norm`], and the uniqueness laws beside the registry in
//! [`crate::registry`]. This module holds the laws that relate the
//! converters to one another: round trips through the numeric boundary
//! and the isolation of user-assigned codes.

use vstd::prelude::*;

use crate::codes::spec_alpha2_from_alpha3;
use crate::codes::spec_alpha2_from_numeric;
use crate::codes::spec_alpha2_from_str;
use crate::codes::spec_alpha3_from_alpha2;
use crate::codes::spec_alpha3_from_numeric;
use crate::codes::spec_alpha3_from_str;
use crate::codes::spec_numeric_from_alpha2;
use crate::codes::spec_numeric_from_alpha3;
use crate::codes::spec_numeric_from_u16;
use crate::entry::EntryCodes;
use crate::entry::entry_ok;
use crate::entry::is_reserved_alpha2;
use crate::entry::is_reserved_alpha3;
use crate::entry::is_reserved_numeric;
use crate::error::Error;
use crate::norm::FixedAscii;
use crate::norm::normalize_spec;
use crate::registry::lemma_unique_alpha2;
use crate::registry::lemma_unique_alpha3;
use crate::registry::lemma_unique_numeric;
use crate::registry::wf_codes;
use crate::reserved::has_alpha2;
use crate::reserved::has_alpha3;
use crate::reserved::has_numeric;

verus! {

/// Round trip between the numeric and alpha-2 representations: for an
/// entry carrying both, each conversion returns the other code, so
/// converting there and back returns the starting code.
pub proof fn lemma_round_trip_numeric_alpha2(s: Seq<EntryCodes>, i: int)
    requires
        wf_codes(s),
        0 <= i < s.len(),
        s[i].numeric is Some,
        s[i].alpha2 is Some,
    ensures
        spec_numeric_from_alpha2(s, s[i].alpha2->Some_0) == Ok::<u16, Error>(
            s[i].numeric->Some_0,
        ),
        spec_alpha2_from_numeric(s, s[i].numeric->Some_0) == Ok::<(u8, u8), Error>(
            s[i].alpha2->Some_0,
        ),
{
    let c = s[i].alpha2->Some_0;
    let n = s[i].numeric->Some_0;
    assert(s[i].alpha2 == Some(c));
    assert(s[i].numeric == Some(n));
    let j = choose|j: int|
        0 <= j < s.len() && #[trigger] s[j].alpha2 == Some(c) && s[j].numeric is Some;
    lemma_unique_alpha2(s, i, j);
    let k = choose|k: int|
        0 <= k < s.len() && #[trigger] s[k].numeric == Some(n) && s[k].alpha2 is Some;
    lemma_unique_numeric(s, i, k);
}

/// Round trip between the numeric and alpha-3 representations; see
/// [`lemma_round_trip_numeric_alpha2`].
pub proof fn lemma_round_trip_numeric_alpha3(s: Seq<EntryCodes>, i: int)
    requires
        wf_codes(s),
        0 <= i < s.len(),
        s[i].numeric is Some,
        s[i].alpha3 is Some,
    ensures
        spec_numeric_from_alpha3(s, s[i].alpha3->Some_0) == Ok::<u16, Error>(
            s[i].numeric->Some_0,
        ),
        spec_alpha3_from_numeric(s, s[i].numeric->Some_0) == Ok::<(u8, u8, u8), Error>(
            s[i].alpha3->Some_0,
        ),
{
    let c = s[i].alpha3->Some_0;
    let n = s[i].numeric->Some_0;
    assert(s[i].alpha3 == Some(c));
    assert(s[i].numeric == Some(n));
    let j = choose|j: int|
        0 <= j < s.len() && #[trigger] s[j].alpha3 == Some(c) && s[j].numeric is Some;
    lemma_unique_alpha3(s, i, j);
    let k = choose|k: int|
        0 <= k < s.len() && #[trigger] s[k].numeric == Some(n) && s[k].alpha3 is Some;
    lemma_unique_numeric(s, i, k);
}

/// Round trip between the alpha-2 and alpha-3 representations; see
/// [`lemma_round_trip_numeric_alpha2`].
pub proof fn lemma_round_trip_alpha2_alpha3(s: Seq<EntryCodes>, i: int)
    requires
        wf_codes(s),
        0 <= i < s.len(),
        s[i].alpha2 is Some,
        s[i].alpha3 is Some,
    ensures
        spec_alpha3_from_alpha2(s, s[i].alpha2->Some_0) == Ok::<(u8, u8, u8), Error>(
            s[i].alpha3->Some_0,
        ),
        spec_alpha2_from_alpha3(s, s[i].alpha3->Some_0) == Ok::<(u8, u8), Error>(
            s[i].alpha2->Some_0,
        ),
{
    let c2 = s[i].alpha2->Some_0;
    let c3 = s[i].alpha3->Some_0;
    assert(s[i].alpha2 == Some(c2));
    assert(s[i].alpha3 == Some(c3));
    let j = choose|j: int|
        0 <= j < s.len() && #[trigger] s[j].alpha2 == Some(c2) && s[j].alpha3 is Some;
    lemma_unique_alpha2(s, i, j);
    let k = choose|k: int|
        0 <= k < s.len() && #[trigger] s[k].alpha3 == Some(c3) && s[k].alpha2 is Some;
    lemma_unique_alpha3(s, i, k);
}

/// User-assigned isolation for alpha-2 codes: any reserved alpha-2
/// code is catalogued — parsing its own string succeeds and returns it
/// — but converting it to numeric fails with [`Error::UserAssigned`].
pub proof fn lemma_user_assigned_isolation_alpha2(s: Seq<EntryCodes>, c: (u8, u8))
    requires
        wf_codes(s),
        is_reserved_alpha2(c),
    ensures
        spec_numeric_from_alpha2(s, c) == Err::<u16, Error>(Error::UserAssigned),
        spec_alpha2_from_str(s, seq![c.0, c.1]) == Ok::<(u8, u8), Error>(c),
{
    if exists|j: int| 0 <= j < s.len() && #[trigger] s[j].alpha2 == Some(c) && s[j].numeric
        is Some {
        let j = choose|j: int|
            0 <= j < s.len() && #[trigger] s[j].alpha2 == Some(c) && s[j].numeric is Some;
        assert(entry_ok(s[j]));
        assert(false);
    }
    assert(has_alpha2(s, c));
    lemma_reserved2_parses(c);
}

/// User-assigned isolation for alpha-3 codes; see
/// [`lemma_user_assigned_isolation_alpha2`].
pub proof fn lemma_user_assigned_isolation_alpha3(s: Seq<EntryCodes>, c: (u8, u8, u8))
    requires
        wf_codes(s),
        is_reserved_alpha3(c),
    ensures
        spec_numeric_from_alpha3(s, c) == Err::<u16, Error>(Error::UserAssigned),
        spec_alpha3_from_str(s, seq![c.0, c.1, c.2]) == Ok::<(u8, u8, u8), Error>(c),
{
    if exists|j: int| 0 <= j < s.len() && #[trigger] s[j].alpha3 == Some(c) && s[j].numeric
        is Some {
        let j = choose|j: int|
            0 <= j < s.len() && #[trigger] s[j].alpha3 == Some(c) && s[j].numeric is Some;
        assert(entry_ok(s[j]));
        assert(false);
    }
    assert(has_alpha3(s, c));
    lemma_reserved3_parses(c);
}

/// User-assigned isolation for numeric codes: any reserved numeric
/// code is catalogued — looking it up by integer succeeds — but
/// converting it to either alpha representation fails with
/// [`Error::UserAssigned`].
pub proof fn lemma_user_assigned_isolation_numeric(s: Seq<EntryCodes>, n: u16)
    requires
        wf_codes(s),
        is_reserved_numeric(n),
    ensures
        spec_numeric_from_u16(s, n) == Ok::<u16, Error>(n),
        spec_alpha2_from_numeric(s, n) == Err::<(u8, u8), Error>(Error::UserAssigned),
        spec_alpha3_from_numeric(s, n) == Err::<(u8, u8, u8), Error>(Error::UserAssigned),
{
    assert(has_numeric(s, n));
    if exists|j: int| 0 <= j < s.len() && #[trigger] s[j].numeric == Some(n) && s[j].alpha2
        is Some {
        let j = choose|j: int|
            0 <= j < s.len() && #[trigger] s[j].numeric == Some(n) && s[j].alpha2 is Some;
        assert(entry_ok(s[j]));
        assert(false);
    }
    if exists|j: int| 0 <= j < s.len() && #[trigger] s[j].numeric == Some(n) && s[j].alpha3
        is Some {
        let j = choose|j: int|
            0 <= j < s.len() && #[trigger] s[j].numeric == Some(n) && s[j].alpha3 is Some;
        assert(entry_ok(s[j]));
        assert(false);
    }
}

/// The two-byte string of an uppercase alpha-2 code normalizes to the
/// code itself.
proof fn lemma_reserved2_parses(c: (u8, u8))
    requires
        65 <= c.0 <= 90,
        65 <= c.1 <= 90,
    ensures
        normalize_spec(seq![c.0, c.1]) == Ok::<FixedAscii, Error>(FixedAscii::Two(c.0, c.1)),
{
    let u = seq![c.0, c.1];
    assert(crate::norm::first_code(u, 0) == 0);
    assert(crate::norm::last_code_end(u, 2) == 2);
    assert(crate::norm::trimmed(u) =~= u);
    assert(!crate::norm::has_non_ascii(u));
}

/// The three-byte string of an uppercase alpha-3 code normalizes to
/// the code itself.
proof fn lemma_reserved3_parses(c: (u8, u8, u8))
    requires
        65 <= c.0 <= 90,
        65 <= c.1 <= 90,
        65 <= c.2 <= 90,
    ensures
        normalize_spec(seq![c.0, c.1, c.2]) == Ok::<FixedAscii, Error>(
            FixedAscii::Three(c.0, c.1, c.2),
        ),
{
    let u = seq![c.0, c.1, c.2];
    assert(crate::norm::first_code(u, 0) == 0);
    assert(crate::norm::last_code_end(u, 3) == 3);
    assert(crate::norm::trimmed(u) =~= u);
    assert(!crate::norm::has_non_ascii(u));
}

} // verus!
