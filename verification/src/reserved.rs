//! The reserved ("user-assigned") code blocks, enumerated.
//!
//! The registry materializes one entry for every code of every reserved
//! block: the numeric band 900..=999, the alpha-2 blocks `AA`,
//! `QM`..`QZ`, `XA`..`XZ`, `ZZ`, and the alpha-3 blocks `AAA`..`AAZ`,
//! `QMA`..`QZZ`, `XAA`..`XZZ`, `ZZA`..`ZZZ`. This module fixes a
//! canonical enumeration order for each alpha block family, proves that
//! the enumeration is a bijection onto the reserved codes, and builds
//! the corresponding entries.

use vstd::prelude::*;

use crate::ascii::u16_decimal_string;
use crate::ascii::ascii_bytes_to_string;
use crate::entry::Entry;
use crate::entry::EntryCodes;
use crate::entry::distinct_codes;
use crate::entry::entry_ok;
use crate::entry::is_reserved_alpha2;
use crate::entry::is_reserved_alpha3;
use crate::entry::is_reserved_numeric;
use crate::entry::reserved_alpha2_codes;
use crate::entry::reserved_alpha3_codes;
use crate::entry::reserved_numeric_codes;

verus! {

/// The model of a sequence of entries.
pub open spec fn codes_of(s: Seq<Entry>) -> Seq<EntryCodes> {
    s.map_values(|e: Entry| e@)
}

/// Whether some entry of `s` carries the numeric code `n`.
pub open spec fn has_numeric(s: Seq<EntryCodes>, n: u16) -> bool {
    exists|i: int| 0 <= i < s.len() && #[trigger] s[i].numeric == Some(n)
}

/// Whether some entry of `s` carries the alpha-2 code `c`.
pub open spec fn has_alpha2(s: Seq<EntryCodes>, c: (u8, u8)) -> bool {
    exists|i: int| 0 <= i < s.len() && #[trigger] s[i].alpha2 == Some(c)
}

/// Whether some entry of `s` carries the alpha-3 code `c`.
pub open spec fn has_alpha3(s: Seq<EntryCodes>, c: (u8, u8, u8)) -> bool {
    exists|i: int| 0 <= i < s.len() && #[trigger] s[i].alpha3 == Some(c)
}

/// The reserved alpha-2 code at position `i` of the canonical
/// enumeration: `AA`, then `QM`..`QZ`, then `XA`..`XZ`, then `ZZ`.
pub open spec fn a2_code(i: int) -> (u8, u8) {
    if i == 0 {
        (65u8, 65u8)
    } else if 1 <= i <= 14 {
        (81u8, (76 + i) as u8)
    } else if 15 <= i <= 40 {
        (88u8, (50 + i) as u8)
    } else {
        (90u8, 90u8)
    }
}

/// The position of a reserved alpha-2 code in the canonical enumeration.
pub open spec fn a2_index(c: (u8, u8)) -> int {
    if c.0 == 65 {
        0
    } else if c.0 == 81 {
        c.1 - 76
    } else if c.0 == 88 {
        c.1 - 50
    } else {
        41
    }
}

/// The reserved alpha-3 code at position `i` of the canonical
/// enumeration: the `AA?` block, then `QM?`..`QZ?`, then `XA?`..`XZ?`,
/// then `ZZ?`.
pub open spec fn a3_code(i: int) -> (u8, u8, u8) {
    if i < 26 {
        (65u8, 65u8, (65 + i) as u8)
    } else if i < 390 {
        (81u8, (77 + (i - 26) / 26) as u8, (65 + (i - 26) % 26) as u8)
    } else if i < 1066 {
        (88u8, (65 + (i - 390) / 26) as u8, (65 + (i - 390) % 26) as u8)
    } else {
        (90u8, 90u8, (65 + (i - 1066)) as u8)
    }
}

/// The position of a reserved alpha-3 code in the canonical enumeration.
pub open spec fn a3_index(c: (u8, u8, u8)) -> int {
    if c.0 == 65 {
        c.2 - 65
    } else if c.0 == 81 {
        26 + (c.1 - 77) * 26 + (c.2 - 65)
    } else if c.0 == 88 {
        390 + (c.1 - 65) * 26 + (c.2 - 65)
    } else {
        1066 + (c.2 - 65)
    }
}

/// The enumeration of reserved alpha-2 codes is a bijection: each
/// position yields a reserved code, and the position is recovered by
/// [`a2_index`].
pub proof fn lemma_a2_code(i: int)
    requires
        0 <= i < 42,
    ensures
        is_reserved_alpha2(a2_code(i)),
        a2_index(a2_code(i)) == i,
{
}

/// Every reserved alpha-2 code occurs in the enumeration, at position
/// [`a2_index`].
pub proof fn lemma_a2_index(c: (u8, u8))
    requires
        is_reserved_alpha2(c),
    ensures
        0 <= a2_index(c) < 42,
        a2_code(a2_index(c)) == c,
{
}

/// The enumeration of reserved alpha-3 codes is a bijection: each
/// position yields a reserved code, and the position is recovered by
/// [`a3_index`].
pub proof fn lemma_a3_code(i: int)
    requires
        0 <= i < 1092,
    ensures
        is_reserved_alpha3(a3_code(i)),
        a3_index(a3_code(i)) == i,
{
    if 26 <= i < 390 {
        let j = i - 26;
        assert(j == 26 * (j / 26) + j % 26) by (nonlinear_arith)
            requires 0 <= j;
        assert(0 <= j % 26 < 26) by (nonlinear_arith)
            requires 0 <= j;
        assert(j / 26 < 14) by (nonlinear_arith)
            requires 0 <= j < 364;
    } else if 390 <= i < 1066 {
        let j = i - 390;
        assert(j == 26 * (j / 26) + j % 26) by (nonlinear_arith)
            requires 0 <= j;
        assert(0 <= j % 26 < 26) by (nonlinear_arith)
            requires 0 <= j;
        assert(j / 26 < 26) by (nonlinear_arith)
            requires 0 <= j < 676;
    }
}

/// Every reserved alpha-3 code occurs in the enumeration, at position
/// [`a3_index`].
pub proof fn lemma_a3_index(c: (u8, u8, u8))
    requires
        is_reserved_alpha3(c),
    ensures
        0 <= a3_index(c) < 1092,
        a3_code(a3_index(c)) == c,
{
    if c.0 == 81 {
        let q = c.1 - 77;
        let r = c.2 - 65;
        assert((26 * q + r) / 26 == q && (26 * q + r) % 26 == r) by (nonlinear_arith)
            requires 0 <= q, 0 <= r < 26;
    } else if c.0 == 88 && c.1 != 65 {
        let q = c.1 - 65;
        let r = c.2 - 65;
        assert((26 * q + r) / 26 == q && (26 * q + r) % 26 == r) by (nonlinear_arith)
            requires 0 <= q, 0 <= r < 26;
    } else if c.0 == 88 {
        let r = c.2 - 65;
        assert(r / 26 == 0 && r % 26 == r) by (nonlinear_arith)
            requires 0 <= r < 26;
    }
}

/// The models of the materialized reserved numeric entries, in order.
pub open spec fn reserved_numeric_seq() -> Seq<EntryCodes> {
    Seq::new(100, |i: int| reserved_numeric_codes((900 + i) as u16))
}

/// The models of the materialized reserved alpha-2 entries, in order.
pub open spec fn reserved_alpha2_seq() -> Seq<EntryCodes> {
    Seq::new(42, |i: int| reserved_alpha2_codes(a2_code(i)))
}

/// The models of the materialized reserved alpha-3 entries, in order.
pub open spec fn reserved_alpha3_seq() -> Seq<EntryCodes> {
    Seq::new(1092, |i: int| reserved_alpha3_codes(a3_code(i)))
}

/// The models of all materialized reserved entries, in order.
pub open spec fn reserved_seq() -> Seq<EntryCodes> {
    reserved_numeric_seq() + reserved_alpha2_seq() + reserved_alpha3_seq()
}

/// What the reserved entries look like: every reserved code of every
/// block is present exactly once, nothing else is, and each entry is
/// well-shaped and flagged user-assigned.
pub proof fn lemma_reserved_seq()
    ensures
        reserved_seq().len() == 1234,
        forall|k: int| 0 <= k < 1234 ==> entry_ok(#[trigger] reserved_seq()[k])
            && reserved_seq()[k].user_assigned,
        forall|n: u16| is_reserved_numeric(n) ==> has_numeric(reserved_seq(), n),
        forall|c: (u8, u8)| is_reserved_alpha2(c) ==> has_alpha2(reserved_seq(), c),
        forall|c: (u8, u8, u8)| is_reserved_alpha3(c) ==> has_alpha3(reserved_seq(), c),
        forall|n: u16| has_numeric(reserved_seq(), n) ==> is_reserved_numeric(n),
        forall|c: (u8, u8)| has_alpha2(reserved_seq(), c) ==> is_reserved_alpha2(c),
        forall|c: (u8, u8, u8)| has_alpha3(reserved_seq(), c) ==> is_reserved_alpha3(c),
        forall|k: int, l: int| 0 <= k < l < 1234 ==> distinct_codes(
            #[trigger] reserved_seq()[k],
            #[trigger] reserved_seq()[l],
        ),
{
    let s = reserved_seq();
    assert(s.len() == 1234);
    assert forall|k: int| 0 <= k < 1234 implies #[trigger] s[k] == spec_reserved_at(k) by {
        if k < 100 {
            assert(s[k] == reserved_numeric_seq()[k]);
        } else if k < 142 {
            assert(s[k] == reserved_alpha2_seq()[k - 100]);
        } else {
            assert(s[k] == reserved_alpha3_seq()[k - 142]);
        }
    }
    assert forall|k: int| 0 <= k < 1234 implies entry_ok(#[trigger] s[k]) && s[k].user_assigned by {
        if 100 <= k < 142 {
            lemma_a2_code(k - 100);
        } else if 142 <= k {
            lemma_a3_code(k - 142);
        }
    }
    assert forall|n: u16| is_reserved_numeric(n) implies has_numeric(s, n) by {
        let k = n - 900;
        assert(s[k as int] == spec_reserved_at(k as int));
        assert(s[k as int].numeric == Some(n));
    }
    assert forall|c: (u8, u8)| is_reserved_alpha2(c) implies has_alpha2(s, c) by {
        lemma_a2_index(c);
        let k = 100 + a2_index(c);
        assert(s[k] == spec_reserved_at(k));
        assert(s[k].alpha2 == Some(c));
    }
    assert forall|c: (u8, u8, u8)| is_reserved_alpha3(c) implies has_alpha3(s, c) by {
        lemma_a3_index(c);
        let k = 142 + a3_index(c);
        assert(s[k] == spec_reserved_at(k));
        assert(s[k].alpha3 == Some(c));
    }
    assert forall|n: u16| has_numeric(s, n) implies is_reserved_numeric(n) by {
        let k = choose|k: int| 0 <= k < s.len() && #[trigger] s[k].numeric == Some(n);
        assert(s[k] == spec_reserved_at(k));
        assert(k < 100);
    }
    assert forall|c: (u8, u8)| has_alpha2(s, c) implies is_reserved_alpha2(c) by {
        let k = choose|k: int| 0 <= k < s.len() && #[trigger] s[k].alpha2 == Some(c);
        assert(s[k] == spec_reserved_at(k));
        assert(100 <= k < 142);
        lemma_a2_code(k - 100);
    }
    assert forall|c: (u8, u8, u8)| has_alpha3(s, c) implies is_reserved_alpha3(c) by {
        let k = choose|k: int| 0 <= k < s.len() && #[trigger] s[k].alpha3 == Some(c);
        assert(s[k] == spec_reserved_at(k));
        assert(142 <= k);
        lemma_a3_code(k - 142);
    }
    assert forall|k: int, l: int| 0 <= k < l < 1234 implies distinct_codes(
        #[trigger] s[k],
        #[trigger] s[l],
    ) by {
        assert(s[k] == spec_reserved_at(k));
        assert(s[l] == spec_reserved_at(l));
        if k < 100 && l < 100 {
            assert(s[k].numeric == Some((900 + k) as u16));
            assert(s[l].numeric == Some((900 + l) as u16));
        } else if 100 <= k < 142 && 100 <= l < 142 {
            lemma_a2_code(k - 100);
            lemma_a2_code(l - 100);
            assert(a2_code(k - 100) != a2_code(l - 100));
        } else if 142 <= k && 142 <= l {
            lemma_a3_code(k - 142);
            lemma_a3_code(l - 142);
            assert(a3_code(k - 142) != a3_code(l - 142));
        }
    }
}

/// The entry model at position `k` of the reserved prefix.
spec fn spec_reserved_at(k: int) -> EntryCodes {
    if k < 100 {
        reserved_numeric_codes((900 + k) as u16)
    } else if k < 142 {
        reserved_alpha2_codes(a2_code(k - 100))
    } else {
        reserved_alpha3_codes(a3_code(k - 142))
    }
}

/// Exec twin of [`a2_code`].
fn a2_code_at(i: usize) -> (c: (u8, u8))
    requires
        i < 42,
    ensures
        c == a2_code(i as int),
{
    if i == 0 {
        (65u8, 65u8)
    } else if i <= 14 {
        (81u8, 76 + (i as u8))
    } else if i <= 40 {
        (88u8, 50 + (i as u8))
    } else {
        (90u8, 90u8)
    }
}

/// Exec twin of [`a3_code`].
fn a3_code_at(i: usize) -> (c: (u8, u8, u8))
    requires
        i < 1092,
    ensures
        c == a3_code(i as int),
{
    if i < 26 {
        (65u8, 65u8, 65 + (i as u8))
    } else if i < 390 {
        let j = i - 26;
        (81u8, 77 + ((j / 26) as u8), 65 + ((j % 26) as u8))
    } else if i < 1066 {
        let j = i - 390;
        (88u8, 65 + ((j / 26) as u8), 65 + ((j % 26) as u8))
    } else {
        (90u8, 90u8, 65 + ((i - 1066) as u8))
    }
}

/// The display name of a reserved numeric entry.
fn reserved_name_numeric(n: u16) -> String {
    let mut s = "User-assigned ".to_owned();
    let d = u16_decimal_string(n);
    s.append(d.as_str());
    s
}

/// The display name of a reserved alpha entry, from its code bytes.
fn reserved_name_bytes(bytes: Vec<u8>) -> String
    requires
        forall|i: int| 0 <= i < bytes@.len() ==> bytes@[i] < 128,
{
    let mut s = "User-assigned ".to_owned();
    let d = ascii_bytes_to_string(bytes);
    s.append(d.as_str());
    s
}

/// Materialize every reserved-block entry, in the canonical order.
pub(crate) fn push_reserved(entries: &mut Vec<Entry>)
    requires
        old(entries)@.len() == 0,
    ensures
        codes_of(final(entries)@) == reserved_seq(),
{
    let mut n: u16 = 900;
    while n <= 999
        invariant
            900 <= n <= 1000,
            codes_of(entries@) =~= reserved_numeric_seq().take(n - 900),
        decreases 1000 - n,
    {
        let name = reserved_name_numeric(n);
        let ghost pre = entries@;
        entries.push(Entry {
            name,
            numeric: Some(n),
            alpha2: None,
            alpha3: None,
            user_assigned: true,
        });
        proof {
            let ec = reserved_numeric_codes(n);
            assert(codes_of(entries@) =~= codes_of(pre).push(ec));
            assert(reserved_numeric_seq()[n - 900] == ec);
            assert(reserved_numeric_seq().take(n + 1 - 900) =~= reserved_numeric_seq().take(
                n - 900,
            ).push(reserved_numeric_seq()[n - 900]));
            assert(codes_of(entries@) =~= reserved_numeric_seq().take(n + 1 - 900));
        }
        n = n + 1;
    }
    proof {
        assert(reserved_numeric_seq().take(100) =~= reserved_numeric_seq());
    }
    let mut i: usize = 0;
    while i < 42
        invariant
            0 <= i <= 42,
            codes_of(entries@) =~= reserved_numeric_seq() + reserved_alpha2_seq().take(i as int),
        decreases 42 - i,
    {
        let c = a2_code_at(i);
        proof {
            lemma_a2_code(i as int);
        }
        let mut bytes: Vec<u8> = Vec::new();
        bytes.push(c.0);
        bytes.push(c.1);
        let name = reserved_name_bytes(bytes);
        let ghost pre = entries@;
        entries.push(Entry {
            name,
            numeric: None,
            alpha2: Some(c),
            alpha3: None,
            user_assigned: true,
        });
        proof {
            let ec = reserved_alpha2_codes(a2_code(i as int));
            assert(codes_of(entries@) =~= codes_of(pre).push(ec));
            assert(reserved_alpha2_seq()[i as int] == ec);
            assert(reserved_alpha2_seq().take(i + 1) =~= reserved_alpha2_seq().take(
                i as int,
            ).push(reserved_alpha2_seq()[i as int]));
            assert(codes_of(entries@) =~= reserved_numeric_seq()
                + reserved_alpha2_seq().take(i + 1));
        }
        i = i + 1;
    }
    proof {
        assert(reserved_alpha2_seq().take(42) =~= reserved_alpha2_seq());
    }
    let mut k: usize = 0;
    while k < 1092
        invariant
            0 <= k <= 1092,
            codes_of(entries@) =~= reserved_numeric_seq() + reserved_alpha2_seq()
                + reserved_alpha3_seq().take(k as int),
        decreases 1092 - k,
    {
        let c = a3_code_at(k);
        proof {
            lemma_a3_code(k as int);
        }
        let mut bytes: Vec<u8> = Vec::new();
        bytes.push(c.0);
        bytes.push(c.1);
        bytes.push(c.2);
        let name = reserved_name_bytes(bytes);
        let ghost pre = entries@;
        entries.push(Entry {
            name,
            numeric: None,
            alpha2: None,
            alpha3: Some(c),
            user_assigned: true,
        });
        proof {
            let ec = reserved_alpha3_codes(a3_code(k as int));
            assert(codes_of(entries@) =~= codes_of(pre).push(ec));
            assert(reserved_alpha3_seq()[k as int] == ec);
            assert(reserved_alpha3_seq().take(k + 1) =~= reserved_alpha3_seq().take(
                k as int,
            ).push(reserved_alpha3_seq()[k as int]));
            assert(codes_of(entries@) =~= reserved_numeric_seq() + reserved_alpha2_seq()
                + reserved_alpha3_seq().take(k + 1));
        }
        k = k + 1;
    }
    proof {
        assert(reserved_alpha3_seq().take(1092) =~= reserved_alpha3_seq());
        assert(codes_of(entries@) =~= reserved_seq());
    }
}

} // verus!
