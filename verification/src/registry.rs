//! The registry: the closed, immutable, multiply-indexed table.
//!
//! The registry is assembled exactly once, from the external dataset's
//! tuple sequence, and is read-only thereafter. Construction rejects
//! ill-shaped codes and duplicate codes — including collisions with the
//! reserved blocks, which are materialized programmatically before the
//! dataset is processed — and the resulting table is well-formed: every
//! code occurs at most once, every reserved code occurs exactly once,
//! and every standard entry carries all three representations.

use vstd::prelude::*;
use vstd::string::StringSliceAdditionalSpecFns;

use crate::entry::Entry;
use crate::entry::EntryCodes;
use crate::entry::RawEntry;
use crate::entry::alpha2_shape_ok;
use crate::entry::alpha3_shape_ok;
use crate::entry::distinct_codes;
use crate::entry::entry_ok;
use crate::entry::is_reserved_alpha2;
use crate::entry::is_reserved_alpha3;
use crate::entry::is_reserved_numeric;
use crate::entry::raw_codes;
use crate::error::BuildError;
use crate::index::index_has;
use crate::index::index_maps;
use crate::index::insert_key;
use crate::index::search_key;
use crate::index::strictly_sorted;
use crate::reserved::codes_of;
use crate::reserved::has_alpha2;
use crate::reserved::has_alpha3;
use crate::reserved::has_numeric;
use crate::reserved::lemma_reserved_seq;
use crate::reserved::push_reserved;
use crate::reserved::reserved_seq;

verus! {

/// Well-formedness of a table of entry models: every entry is
/// well-shaped, no two entries share a code, and every reserved code
/// of every reserved block is present.
pub open spec fn wf_codes(s: Seq<EntryCodes>) -> bool {
    &&& forall|i: int| 0 <= i < s.len() ==> entry_ok(#[trigger] s[i])
    &&& forall|i: int, j: int|
        0 <= i < j < s.len() ==> distinct_codes(#[trigger] s[i], #[trigger] s[j])
    &&& forall|n: u16| is_reserved_numeric(n) ==> #[trigger] has_numeric(s, n)
    &&& forall|c: (u8, u8)| is_reserved_alpha2(c) ==> #[trigger] has_alpha2(s, c)
    &&& forall|c: (u8, u8, u8)| is_reserved_alpha3(c) ==> #[trigger] has_alpha3(s, c)
}

/// Why one dataset tuple is rejected against the entries accepted so
/// far, if it is: shape checks first (numeric domain, alpha-2 shape,
/// alpha-3 shape), then duplicate checks (numeric, alpha-2, alpha-3) —
/// a collision with a reserved block is a duplicate, since the
/// reserved entries are materialized before the dataset is processed.
pub open spec fn row_error(done: Seq<EntryCodes>, r: RawEntry) -> Option<BuildError> {
    if r.numeric > 999 {
        Some(BuildError::InvalidNumeric)
    } else if !alpha2_shape_ok(r.alpha2@) {
        Some(BuildError::InvalidAlpha2)
    } else if !alpha3_shape_ok(r.alpha3@) {
        Some(BuildError::InvalidAlpha3)
    } else if has_numeric(done, r.numeric) {
        Some(BuildError::DuplicateNumeric)
    } else if has_alpha2(done, (r.alpha2@[0], r.alpha2@[1])) {
        Some(BuildError::DuplicateAlpha2)
    } else if has_alpha3(done, (r.alpha3@[0], r.alpha3@[1], r.alpha3@[2])) {
        Some(BuildError::DuplicateAlpha3)
    } else {
        None
    }
}

/// The meaning of [`Registry::build`]: starting from the entries
/// `done`, fold the dataset tuples in order, stopping at the first
/// rejected tuple.
pub open spec fn build_spec(done: Seq<EntryCodes>, raw: Seq<RawEntry>) -> Result<
    Seq<EntryCodes>,
    BuildError,
>
    decreases raw.len(),
{
    if raw.len() == 0 {
        Ok(done)
    } else {
        match row_error(done, raw[0]) {
            Some(e) => Err(e),
            None => build_spec(done.push(raw_codes(raw[0])), raw.drop_first()),
        }
    }
}

/// The packed index key of an alpha-2 code.
pub open spec fn key2(c: (u8, u8)) -> u32 {
    (c.0 * 256 + c.1) as u32
}

/// The packed index key of an alpha-3 code.
pub open spec fn key3(c: (u8, u8, u8)) -> u32 {
    (c.0 * 65536 + c.1 * 256 + c.2) as u32
}

/// Packing an alpha-2 code into its index key loses nothing.
proof fn lemma_key2_injective(a: (u8, u8), b: (u8, u8))
    requires
        key2(a) == key2(b),
    ensures
        a == b,
{
}

/// Packing an alpha-3 code into its index key loses nothing.
proof fn lemma_key3_injective(a: (u8, u8, u8), b: (u8, u8, u8))
    requires
        key3(a) == key3(b),
    ensures
        a == b,
{
}

/// The numeric index is correct for the first `bound` entries of `s`:
/// sorted, every pair points below `bound` at an entry carrying its
/// key, and every numeric code below `bound` is indexed.
pub open spec fn numeric_index_ok(idx: Seq<(u32, usize)>, s: Seq<EntryCodes>, bound: int) -> bool {
    &&& bound <= s.len()
    &&& strictly_sorted(idx)
    &&& forall|p: int|
        0 <= p < idx.len() ==> (#[trigger] idx[p]).1 < bound && s[idx[p].1 as int].numeric
            == Some(idx[p].0 as u16) && idx[p].0 <= u16::MAX
    &&& forall|i: int|
        0 <= i < bound ==> ((#[trigger] s[i]).numeric matches Some(n) ==> index_maps(
            idx,
            n as u32,
            i as usize,
        ))
}

/// The alpha-2 index is correct for the first `bound` entries of `s`.
pub open spec fn alpha2_index_ok(idx: Seq<(u32, usize)>, s: Seq<EntryCodes>, bound: int) -> bool {
    &&& bound <= s.len()
    &&& strictly_sorted(idx)
    &&& forall|p: int|
        0 <= p < idx.len() ==> (#[trigger] idx[p]).1 < bound && s[idx[p].1 as int].alpha2
            is Some && key2(s[idx[p].1 as int].alpha2->Some_0) == idx[p].0
    &&& forall|i: int|
        0 <= i < bound ==> ((#[trigger] s[i]).alpha2 matches Some(c) ==> index_maps(
            idx,
            key2(c),
            i as usize,
        ))
}

/// The alpha-3 index is correct for the first `bound` entries of `s`.
pub open spec fn alpha3_index_ok(idx: Seq<(u32, usize)>, s: Seq<EntryCodes>, bound: int) -> bool {
    &&& bound <= s.len()
    &&& strictly_sorted(idx)
    &&& forall|p: int|
        0 <= p < idx.len() ==> (#[trigger] idx[p]).1 < bound && s[idx[p].1 as int].alpha3
            is Some && key3(s[idx[p].1 as int].alpha3->Some_0) == idx[p].0
    &&& forall|i: int|
        0 <= i < bound ==> ((#[trigger] s[i]).alpha3 matches Some(c) ==> index_maps(
            idx,
            key3(c),
            i as usize,
        ))
}

/// In a well-formed table, the numeric code of the entry at `bound`
/// cannot already be indexed below `bound`.
proof fn lemma_numeric_key_fresh(idx: Seq<(u32, usize)>, s: Seq<EntryCodes>, bound: int)
    requires
        wf_codes(s),
        0 <= bound < s.len(),
        numeric_index_ok(idx, s, bound),
        s[bound].numeric is Some,
    ensures
        !index_has(idx, s[bound].numeric->Some_0 as u32),
{
    let n = s[bound].numeric->Some_0;
    if index_has(idx, n as u32) {
        let p = choose|p: int| 0 <= p < idx.len() && (#[trigger] idx[p]).0 == n as u32;
        let v = idx[p].1;
        assert(s[v as int].numeric == Some(n));
        lemma_unique_numeric(s, v as int, bound);
    }
}

/// In a well-formed table, the alpha-2 code of the entry at `bound`
/// cannot already be indexed below `bound`.
proof fn lemma_alpha2_key_fresh(idx: Seq<(u32, usize)>, s: Seq<EntryCodes>, bound: int)
    requires
        wf_codes(s),
        0 <= bound < s.len(),
        alpha2_index_ok(idx, s, bound),
        s[bound].alpha2 is Some,
    ensures
        !index_has(idx, key2(s[bound].alpha2->Some_0)),
{
    let c = s[bound].alpha2->Some_0;
    if index_has(idx, key2(c)) {
        let p = choose|p: int| 0 <= p < idx.len() && (#[trigger] idx[p]).0 == key2(c);
        let v = idx[p].1;
        lemma_key2_injective(s[v as int].alpha2->Some_0, c);
        assert(s[v as int].alpha2 == Some(c));
        lemma_unique_alpha2(s, v as int, bound);
    }
}

/// In a well-formed table, the alpha-3 code of the entry at `bound`
/// cannot already be indexed below `bound`.
proof fn lemma_alpha3_key_fresh(idx: Seq<(u32, usize)>, s: Seq<EntryCodes>, bound: int)
    requires
        wf_codes(s),
        0 <= bound < s.len(),
        alpha3_index_ok(idx, s, bound),
        s[bound].alpha3 is Some,
    ensures
        !index_has(idx, key3(s[bound].alpha3->Some_0)),
{
    let c = s[bound].alpha3->Some_0;
    if index_has(idx, key3(c)) {
        let p = choose|p: int| 0 <= p < idx.len() && (#[trigger] idx[p]).0 == key3(c);
        let v = idx[p].1;
        lemma_key3_injective(s[v as int].alpha3->Some_0, c);
        assert(s[v as int].alpha3 == Some(c));
        lemma_unique_alpha3(s, v as int, bound);
    }
}

/// Growing the numeric index by the entry at `bound` extends its
/// correctness to `bound + 1`.
proof fn lemma_numeric_index_step(
    old_idx: Seq<(u32, usize)>,
    new_idx: Seq<(u32, usize)>,
    s: Seq<EntryCodes>,
    bound: int,
)
    requires
        0 <= bound < s.len(),
        bound <= usize::MAX,
        numeric_index_ok(old_idx, s, bound),
        s[bound].numeric is Some,
        strictly_sorted(new_idx),
        forall|k: u32, v: usize|
            index_maps(new_idx, k, v) <==> index_maps(old_idx, k, v) || (k == s[bound].numeric->Some_0
                as u32 && v == bound as usize),
    ensures
        numeric_index_ok(new_idx, s, bound + 1),
{
    let n = s[bound].numeric->Some_0;
    assert forall|p: int| 0 <= p < new_idx.len() implies (#[trigger] new_idx[p]).1 < bound + 1
        && s[new_idx[p].1 as int].numeric == Some(new_idx[p].0 as u16) && new_idx[p].0
        <= u16::MAX by {
        let k = new_idx[p].0;
        let v = new_idx[p].1;
        assert(index_maps(new_idx, k, v));
        if index_maps(old_idx, k, v) {
            let q = choose|q: int| 0 <= q < old_idx.len() && #[trigger] old_idx[q] == (k, v);
        } else {
            assert(k == n as u32 && v == bound as usize);
            assert(s[bound].numeric == Some(n));
        }
    }
    assert forall|i: int|
        0 <= i < bound + 1 implies ((#[trigger] s[i]).numeric matches Some(m) ==> index_maps(
        new_idx,
        m as u32,
        i as usize,
    )) by {
        if i < bound {
            if s[i].numeric is Some {
                assert(index_maps(old_idx, s[i].numeric->Some_0 as u32, i as usize));
            }
        } else {
            assert(index_maps(new_idx, n as u32, bound as usize));
        }
    }
}

/// Growing the alpha-2 index by the entry at `bound` extends its
/// correctness to `bound + 1`.
proof fn lemma_alpha2_index_step(
    old_idx: Seq<(u32, usize)>,
    new_idx: Seq<(u32, usize)>,
    s: Seq<EntryCodes>,
    bound: int,
)
    requires
        0 <= bound < s.len(),
        bound <= usize::MAX,
        alpha2_index_ok(old_idx, s, bound),
        s[bound].alpha2 is Some,
        strictly_sorted(new_idx),
        forall|k: u32, v: usize|
            index_maps(new_idx, k, v) <==> index_maps(old_idx, k, v) || (k == key2(
                s[bound].alpha2->Some_0,
            ) && v == bound as usize),
    ensures
        alpha2_index_ok(new_idx, s, bound + 1),
{
    let c = s[bound].alpha2->Some_0;
    assert forall|p: int| 0 <= p < new_idx.len() implies (#[trigger] new_idx[p]).1 < bound + 1
        && s[new_idx[p].1 as int].alpha2 is Some && key2(s[new_idx[p].1 as int].alpha2->Some_0)
        == new_idx[p].0 by {
        let k = new_idx[p].0;
        let v = new_idx[p].1;
        assert(index_maps(new_idx, k, v));
        if index_maps(old_idx, k, v) {
            let q = choose|q: int| 0 <= q < old_idx.len() && #[trigger] old_idx[q] == (k, v);
        } else {
            assert(k == key2(c) && v == bound as usize);
        }
    }
    assert forall|i: int|
        0 <= i < bound + 1 implies ((#[trigger] s[i]).alpha2 matches Some(d) ==> index_maps(
        new_idx,
        key2(d),
        i as usize,
    )) by {
        if i < bound {
            if s[i].alpha2 is Some {
                assert(index_maps(old_idx, key2(s[i].alpha2->Some_0), i as usize));
            }
        } else {
            assert(index_maps(new_idx, key2(c), bound as usize));
        }
    }
}

/// Growing the alpha-3 index by the entry at `bound` extends its
/// correctness to `bound + 1`.
proof fn lemma_alpha3_index_step(
    old_idx: Seq<(u32, usize)>,
    new_idx: Seq<(u32, usize)>,
    s: Seq<EntryCodes>,
    bound: int,
)
    requires
        0 <= bound < s.len(),
        bound <= usize::MAX,
        alpha3_index_ok(old_idx, s, bound),
        s[bound].alpha3 is Some,
        strictly_sorted(new_idx),
        forall|k: u32, v: usize|
            index_maps(new_idx, k, v) <==> index_maps(old_idx, k, v) || (k == key3(
                s[bound].alpha3->Some_0,
            ) && v == bound as usize),
    ensures
        alpha3_index_ok(new_idx, s, bound + 1),
{
    let c = s[bound].alpha3->Some_0;
    assert forall|p: int| 0 <= p < new_idx.len() implies (#[trigger] new_idx[p]).1 < bound + 1
        && s[new_idx[p].1 as int].alpha3 is Some && key3(s[new_idx[p].1 as int].alpha3->Some_0)
        == new_idx[p].0 by {
        let k = new_idx[p].0;
        let v = new_idx[p].1;
        assert(index_maps(new_idx, k, v));
        if index_maps(old_idx, k, v) {
            let q = choose|q: int| 0 <= q < old_idx.len() && #[trigger] old_idx[q] == (k, v);
            assert(old_idx[q].1 < bound);
            assert(s[old_idx[q].1 as int].alpha3 is Some);
        } else {
            assert(k == key3(c) && v == bound as usize);
            assert(s[bound].alpha3 == Some(c));
        }
    }
    assert forall|i: int|
        0 <= i < bound + 1 implies ((#[trigger] s[i]).alpha3 matches Some(d) ==> index_maps(
        new_idx,
        key3(d),
        i as usize,
    )) by {
        if i < bound {
            if s[i].alpha3 is Some {
                assert(index_maps(old_idx, key3(s[i].alpha3->Some_0), i as usize));
            }
        } else {
            assert(index_maps(new_idx, key3(c), bound as usize));
        }
    }
}

/// Scan a table for an entry carrying the numeric code `n`.
fn scan_numeric(entries: &Vec<Entry>, n: u16) -> (r: Option<usize>)
    ensures
        match r {
            Some(i) => i < entries@.len() && codes_of(entries@)[i as int].numeric == Some(n),
            None => !has_numeric(codes_of(entries@), n),
        },
{
    let mut i: usize = 0;
    while i < entries.len()
        invariant
            0 <= i <= entries@.len(),
            forall|j: int| 0 <= j < i ==> codes_of(entries@)[j].numeric != Some(n),
        decreases entries@.len() - i,
    {
        let e = &entries[i];
        match e.numeric {
            Some(m) => {
                if m == n {
                    return Some(i);
                }
            },
            None => {},
        }
        i = i + 1;
    }
    None
}

/// Scan a table for an entry carrying the alpha-2 code `(c0, c1)`.
fn scan_alpha2(entries: &Vec<Entry>, c0: u8, c1: u8) -> (r: Option<usize>)
    ensures
        match r {
            Some(i) => i < entries@.len() && codes_of(entries@)[i as int].alpha2 == Some((c0, c1)),
            None => !has_alpha2(codes_of(entries@), (c0, c1)),
        },
{
    let mut i: usize = 0;
    while i < entries.len()
        invariant
            0 <= i <= entries@.len(),
            forall|j: int| 0 <= j < i ==> codes_of(entries@)[j].alpha2 != Some((c0, c1)),
        decreases entries@.len() - i,
    {
        let e = &entries[i];
        match e.alpha2 {
            Some(c) => {
                if c.0 == c0 && c.1 == c1 {
                    return Some(i);
                }
            },
            None => {},
        }
        i = i + 1;
    }
    None
}

/// Scan a table for an entry carrying the alpha-3 code `(c0, c1, c2)`.
fn scan_alpha3(entries: &Vec<Entry>, c0: u8, c1: u8, c2: u8) -> (r: Option<usize>)
    ensures
        match r {
            Some(i) => i < entries@.len() && codes_of(entries@)[i as int].alpha3 == Some(
                (c0, c1, c2),
            ),
            None => !has_alpha3(codes_of(entries@), (c0, c1, c2)),
        },
{
    let mut i: usize = 0;
    while i < entries.len()
        invariant
            0 <= i <= entries@.len(),
            forall|j: int| 0 <= j < i ==> codes_of(entries@)[j].alpha3 != Some((c0, c1, c2)),
        decreases entries@.len() - i,
    {
        let e = &entries[i];
        match e.alpha3 {
            Some(c) => {
                if c.0 == c0 && c.1 == c1 && c.2 == c2 {
                    return Some(i);
                }
            },
            None => {},
        }
        i = i + 1;
    }
    None
}

/// The full closed, immutable, multiply-indexed table of entries.
pub struct Registry {
    entries: Vec<Entry>,
    by_numeric: Vec<(u32, usize)>,
    by_alpha2: Vec<(u32, usize)>,
    by_alpha3: Vec<(u32, usize)>,
}

impl View for Registry {
    type V = Seq<EntryCodes>;

    closed spec fn view(&self) -> Seq<EntryCodes> {
        codes_of(self.entries@)
    }
}

impl Registry {
    /// The three sorted key indexes cover the entry table exactly.
    pub closed spec fn idx_wf(self) -> bool {
        &&& numeric_index_ok(self.by_numeric@, self@, self@.len() as int)
        &&& alpha2_index_ok(self.by_alpha2@, self@, self@.len() as int)
        &&& alpha3_index_ok(self.by_alpha3@, self@, self@.len() as int)
    }

    /// Well-formedness of the registry; established by [`Registry::build`]
    /// and never lost, since the registry is immutable.
    pub open spec fn wf(self) -> bool {
        wf_codes(self@) && self.idx_wf()
    }

    /// The number of entries, reserved placeholders included.
    pub fn len(&self) -> (n: usize)
        ensures
            n == self@.len(),
    {
        self.entries.len()
    }

    /// Assemble the registry from the external dataset's tuple
    /// sequence.
    ///
    /// The reserved-block entries are materialized programmatically
    /// first; the dataset tuples are then folded in order, and the
    /// first ill-shaped or duplicate tuple aborts construction with
    /// the corresponding [`BuildError`], exactly as [`build_spec`]
    /// describes.
    pub fn build(raw: Vec<RawEntry>) -> (r: Result<Registry, BuildError>)
        ensures
            match r {
                Ok(reg) => build_spec(reserved_seq(), raw@) == Ok::<_, BuildError>(reg@)
                    && reg.wf(),
                Err(e) => build_spec(reserved_seq(), raw@) == Err::<Seq<EntryCodes>, _>(e),
            },
    {
        let mut entries: Vec<Entry> = Vec::new();
        push_reserved(&mut entries);
        proof {
            lemma_reserved_seq();
            assert(wf_codes(codes_of(entries@)));
            assert(raw@.skip(0) =~= raw@);
        }
        let mut k: usize = 0;
        while k < raw.len()
            invariant
                0 <= k <= raw@.len(),
                wf_codes(codes_of(entries@)),
                build_spec(reserved_seq(), raw@) == build_spec(
                    codes_of(entries@),
                    raw@.skip(k as int),
                ),
            decreases raw@.len() - k,
        {
            let ghost cur = codes_of(entries@);
            let ghost rest = raw@.skip(k as int);
            proof {
                assert(rest[0] == raw@[k as int]);
                assert(rest.drop_first() =~= raw@.skip(k as int + 1));
            }
            let row = &raw[k];
            if row.numeric > 999 {
                return Err(BuildError::InvalidNumeric);
            }
            if row.alpha2.len() != 2 {
                return Err(BuildError::InvalidAlpha2);
            }
            let a0 = row.alpha2[0];
            let a1 = row.alpha2[1];
            if !(65 <= a0 && a0 <= 90 && 65 <= a1 && a1 <= 90) {
                return Err(BuildError::InvalidAlpha2);
            }
            if row.alpha3.len() != 3 {
                return Err(BuildError::InvalidAlpha3);
            }
            let b0 = row.alpha3[0];
            let b1 = row.alpha3[1];
            let b2 = row.alpha3[2];
            if !(65 <= b0 && b0 <= 90 && 65 <= b1 && b1 <= 90 && 65 <= b2 && b2 <= 90) {
                return Err(BuildError::InvalidAlpha3);
            }
            if scan_numeric(&entries, row.numeric).is_some() {
                proof {
                    assert(has_numeric(cur, raw@[k as int].numeric));
                }
                return Err(BuildError::DuplicateNumeric);
            }
            if scan_alpha2(&entries, a0, a1).is_some() {
                proof {
                    assert(has_alpha2(cur, (a0, a1)));
                }
                return Err(BuildError::DuplicateAlpha2);
            }
            if scan_alpha3(&entries, b0, b1, b2).is_some() {
                proof {
                    assert(has_alpha3(cur, (b0, b1, b2)));
                }
                return Err(BuildError::DuplicateAlpha3);
            }
            proof {
                assert(row_error(cur, raw@[k as int]) is None);
            }
            let name = row.name.clone();
            entries.push(Entry {
                name,
                numeric: Some(row.numeric),
                alpha2: Some((a0, a1)),
                alpha3: Some((b0, b1, b2)),
                user_assigned: false,
            });
            proof {
                let nc = raw_codes(raw@[k as int]);
                assert(codes_of(entries@) =~= cur.push(nc));
                lemma_wf_push_standard(cur, nc);
                assert(wf_codes(codes_of(entries@)));
                assert(build_spec(cur, rest) == build_spec(cur.push(nc), rest.drop_first()));
            }
            k = k + 1;
        }
        proof {
            assert(raw@.skip(k as int) =~= Seq::<RawEntry>::empty());
        }
        let ghost s = codes_of(entries@);
        let mut by_numeric: Vec<(u32, usize)> = Vec::new();
        let mut by_alpha2: Vec<(u32, usize)> = Vec::new();
        let mut by_alpha3: Vec<(u32, usize)> = Vec::new();
        let mut i: usize = 0;
        while i < entries.len()
            invariant
                0 <= i <= entries@.len(),
                s == codes_of(entries@),
                wf_codes(s),
                numeric_index_ok(by_numeric@, s, i as int),
                alpha2_index_ok(by_alpha2@, s, i as int),
                alpha3_index_ok(by_alpha3@, s, i as int),
            decreases entries@.len() - i,
        {
            let e = &entries[i];
            proof {
                assert(s[i as int] == e@);
            }
            match e.numeric {
                Some(n) => {
                    proof {
                        lemma_numeric_key_fresh(by_numeric@, s, i as int);
                    }
                    let ghost pre = by_numeric@;
                    insert_key(&mut by_numeric, n as u32, i);
                    proof {
                        lemma_numeric_index_step(pre, by_numeric@, s, i as int);
                    }
                },
                None => {},
            }
            match e.alpha2 {
                Some(c) => {
                    proof {
                        lemma_alpha2_key_fresh(by_alpha2@, s, i as int);
                    }
                    let ghost pre = by_alpha2@;
                    let ck: u32 = (c.0 as u32) * 256 + (c.1 as u32);
                    insert_key(&mut by_alpha2, ck, i);
                    proof {
                        lemma_alpha2_index_step(pre, by_alpha2@, s, i as int);
                    }
                },
                None => {},
            }
            match e.alpha3 {
                Some(c) => {
                    proof {
                        lemma_alpha3_key_fresh(by_alpha3@, s, i as int);
                    }
                    let ghost pre = by_alpha3@;
                    let ck: u32 = (c.0 as u32) * 65536 + (c.1 as u32) * 256 + (c.2 as u32);
                    insert_key(&mut by_alpha3, ck, i);
                    proof {
                        lemma_alpha3_index_step(pre, by_alpha3@, s, i as int);
                    }
                },
                None => {},
            }
            i = i + 1;
        }
        Ok(Registry { entries, by_numeric, by_alpha2, by_alpha3 })
    }

    /// Exact-match lookup by numeric code; `None` exactly when no
    /// entry carries the code.
    pub fn lookup_by_numeric(&self, code: u16) -> (r: Option<&Entry>)
        requires
            self.wf(),
        ensures
            match r {
                Some(e) => exists|i: int|
                    0 <= i < self@.len() && #[trigger] self@[i] == e@ && e@.numeric == Some(code),
                None => !has_numeric(self@, code),
            },
    {
        match self.find_numeric(code) {
            Some(i) => {
                let e = &self.entries[i];
                proof {
                    assert(self@[i as int] == e@);
                }
                Some(e)
            },
            None => None,
        }
    }

    /// Exact-match lookup by alpha-2 code string; no normalization is
    /// applied. `None` exactly when the string is not two bytes long
    /// or no entry carries the code.
    pub fn lookup_by_alpha2(&self, code: &str) -> (r: Option<&Entry>)
        requires
            self.wf(),
        ensures
            match r {
                Some(e) => code.spec_bytes().len() == 2 && exists|i: int|
                    0 <= i < self@.len() && #[trigger] self@[i] == e@ && e@.alpha2 == Some(
                        (code.spec_bytes()[0], code.spec_bytes()[1]),
                    ),
                None => code.spec_bytes().len() != 2 || !has_alpha2(
                    self@,
                    (code.spec_bytes()[0], code.spec_bytes()[1]),
                ),
            },
    {
        let b = code.as_bytes();
        if b.len() != 2 {
            return None;
        }
        match self.find_alpha2(b[0], b[1]) {
            Some(i) => {
                let e = &self.entries[i];
                proof {
                    assert(self@[i as int] == e@);
                }
                Some(e)
            },
            None => None,
        }
    }

    /// Exact-match lookup by alpha-3 code string; no normalization is
    /// applied. `None` exactly when the string is not three bytes long
    /// or no entry carries the code.
    pub fn lookup_by_alpha3(&self, code: &str) -> (r: Option<&Entry>)
        requires
            self.wf(),
        ensures
            match r {
                Some(e) => code.spec_bytes().len() == 3 && exists|i: int|
                    0 <= i < self@.len() && #[trigger] self@[i] == e@ && e@.alpha3 == Some(
                        (code.spec_bytes()[0], code.spec_bytes()[1], code.spec_bytes()[2]),
                    ),
                None => code.spec_bytes().len() != 3 || !has_alpha3(
                    self@,
                    (code.spec_bytes()[0], code.spec_bytes()[1], code.spec_bytes()[2]),
                ),
            },
    {
        let b = code.as_bytes();
        if b.len() != 3 {
            return None;
        }
        match self.find_alpha3(b[0], b[1], b[2]) {
            Some(i) => {
                let e = &self.entries[i];
                proof {
                    assert(self@[i as int] == e@);
                }
                Some(e)
            },
            None => None,
        }
    }

    /// Find the position of the entry carrying the numeric code `n`,
    /// by binary search over the numeric index.
    pub(crate) fn find_numeric(&self, n: u16) -> (r: Option<usize>)
        requires
            self.wf(),
        ensures
            match r {
                Some(i) => i < self@.len() && self@[i as int].numeric == Some(n),
                None => !has_numeric(self@, n),
            },
    {
        let r = search_key(&self.by_numeric, n as u32);
        proof {
            match r {
                Some(v) => {
                    let p = choose|p: int|
                        0 <= p < self.by_numeric@.len() && #[trigger] self.by_numeric@[p] == (
                        n as u32,
                        v,
                        );
                },
                None => {
                    if has_numeric(self@, n) {
                        let i = choose|i: int|
                            0 <= i < self@.len() && #[trigger] self@[i].numeric == Some(n);
                        assert(index_maps(self.by_numeric@, n as u32, i as usize));
                    }
                },
            }
        }
        r
    }

    /// Find the position of the entry carrying the alpha-2 code
    /// `(c0, c1)`, by binary search over the alpha-2 index.
    pub(crate) fn find_alpha2(&self, c0: u8, c1: u8) -> (r: Option<usize>)
        requires
            self.wf(),
        ensures
            match r {
                Some(i) => i < self@.len() && self@[i as int].alpha2 == Some((c0, c1)),
                None => !has_alpha2(self@, (c0, c1)),
            },
    {
        let ck: u32 = (c0 as u32) * 256 + (c1 as u32);
        let r = search_key(&self.by_alpha2, ck);
        proof {
            match r {
                Some(v) => {
                    let p = choose|p: int|
                        0 <= p < self.by_alpha2@.len() && #[trigger] self.by_alpha2@[p] == (ck, v);
                    lemma_key2_injective(self@[v as int].alpha2->Some_0, (c0, c1));
                },
                None => {
                    if has_alpha2(self@, (c0, c1)) {
                        let i = choose|i: int|
                            0 <= i < self@.len() && #[trigger] self@[i].alpha2 == Some((c0, c1));
                        assert(index_maps(self.by_alpha2@, key2((c0, c1)), i as usize));
                    }
                },
            }
        }
        r
    }

    /// Find the position of the entry carrying the alpha-3 code
    /// `(c0, c1, c2)`, by binary search over the alpha-3 index.
    pub(crate) fn find_alpha3(&self, c0: u8, c1: u8, c2: u8) -> (r: Option<usize>)
        requires
            self.wf(),
        ensures
            match r {
                Some(i) => i < self@.len() && self@[i as int].alpha3 == Some((c0, c1, c2)),
                None => !has_alpha3(self@, (c0, c1, c2)),
            },
    {
        let ck: u32 = (c0 as u32) * 65536 + (c1 as u32) * 256 + (c2 as u32);
        let r = search_key(&self.by_alpha3, ck);
        proof {
            match r {
                Some(v) => {
                    let p = choose|p: int|
                        0 <= p < self.by_alpha3@.len() && #[trigger] self.by_alpha3@[p] == (ck, v);
                    lemma_key3_injective(self@[v as int].alpha3->Some_0, (c0, c1, c2));
                },
                None => {
                    if has_alpha3(self@, (c0, c1, c2)) {
                        let i = choose|i: int|
                            0 <= i < self@.len() && #[trigger] self@[i].alpha3 == Some(
                                (c0, c1, c2),
                            );
                        assert(index_maps(self.by_alpha3@, key3((c0, c1, c2)), i as usize));
                    }
                },
            }
        }
        r
    }

    /// The numeric code of the entry at index `i`.
    pub(crate) fn numeric_at(&self, i: usize) -> (r: Option<u16>)
        requires
            i < self@.len(),
        ensures
            r == self@[i as int].numeric,
    {
        self.entries[i].numeric
    }

    /// The alpha-2 code of the entry at index `i`.
    pub(crate) fn alpha2_at(&self, i: usize) -> (r: Option<(u8, u8)>)
        requires
            i < self@.len(),
        ensures
            r == self@[i as int].alpha2,
    {
        self.entries[i].alpha2
    }

    /// The alpha-3 code of the entry at index `i`.
    pub(crate) fn alpha3_at(&self, i: usize) -> (r: Option<(u8, u8, u8)>)
        requires
            i < self@.len(),
        ensures
            r == self@[i as int].alpha3,
    {
        self.entries[i].alpha3
    }
}

/// Uniqueness law for numeric codes: in a well-formed table no two
/// entries share a numeric code, so two entries carrying the same one
/// are the same entry.
pub proof fn lemma_unique_numeric(s: Seq<EntryCodes>, i: int, j: int)
    requires
        wf_codes(s),
        0 <= i < s.len(),
        0 <= j < s.len(),
        s[i].numeric is Some,
        s[i].numeric == s[j].numeric,
    ensures
        i == j,
{
    if i < j {
        assert(distinct_codes(s[i], s[j]));
    } else if j < i {
        assert(distinct_codes(s[j], s[i]));
    }
}

/// Uniqueness law for alpha-2 codes: in a well-formed table no two
/// entries — standard or reserved — share an alpha-2 code.
pub proof fn lemma_unique_alpha2(s: Seq<EntryCodes>, i: int, j: int)
    requires
        wf_codes(s),
        0 <= i < s.len(),
        0 <= j < s.len(),
        s[i].alpha2 is Some,
        s[i].alpha2 == s[j].alpha2,
    ensures
        i == j,
{
    if i < j {
        assert(distinct_codes(s[i], s[j]));
    } else if j < i {
        assert(distinct_codes(s[j], s[i]));
    }
}

/// Uniqueness law for alpha-3 codes: in a well-formed table no two
/// entries — standard or reserved — share an alpha-3 code.
pub proof fn lemma_unique_alpha3(s: Seq<EntryCodes>, i: int, j: int)
    requires
        wf_codes(s),
        0 <= i < s.len(),
        0 <= j < s.len(),
        s[i].alpha3 is Some,
        s[i].alpha3 == s[j].alpha3,
    ensures
        i == j,
{
    if i < j {
        assert(distinct_codes(s[i], s[j]));
    } else if j < i {
        assert(distinct_codes(s[j], s[i]));
    }
}

/// Every alpha-2 code held by a well-formed table is two uppercase
/// ASCII letters.
pub proof fn lemma_entry_alpha2_upper(s: Seq<EntryCodes>, i: int)
    requires
        wf_codes(s),
        0 <= i < s.len(),
        s[i].alpha2 is Some,
    ensures
        crate::entry::upper2(s[i].alpha2->Some_0),
{
    assert(entry_ok(s[i]));
}

/// Every alpha-3 code held by a well-formed table is three uppercase
/// ASCII letters.
pub proof fn lemma_entry_alpha3_upper(s: Seq<EntryCodes>, i: int)
    requires
        wf_codes(s),
        0 <= i < s.len(),
        s[i].alpha3 is Some,
    ensures
        crate::entry::upper3(s[i].alpha3->Some_0),
{
    assert(entry_ok(s[i]));
}

/// Appending a fresh, well-shaped standard entry preserves
/// well-formedness.
proof fn lemma_wf_push_standard(s: Seq<EntryCodes>, nc: EntryCodes)
    requires
        wf_codes(s),
        !nc.user_assigned,
        nc.numeric matches Some(n) && n <= 999 && !has_numeric(s, n),
        nc.alpha2 matches Some(a) && crate::entry::upper2(a) && !has_alpha2(s, a),
        nc.alpha3 matches Some(b) && crate::entry::upper3(b) && !has_alpha3(s, b),
    ensures
        wf_codes(s.push(nc)),
{
    let t = s.push(nc);
    let n = nc.numeric->Some_0;
    let a = nc.alpha2->Some_0;
    let b = nc.alpha3->Some_0;
    assert(!is_reserved_numeric(n)) by {
        if is_reserved_numeric(n) {
            assert(has_numeric(s, n));
        }
    }
    assert(!is_reserved_alpha2(a)) by {
        if is_reserved_alpha2(a) {
            assert(has_alpha2(s, a));
        }
    }
    assert(!is_reserved_alpha3(b)) by {
        if is_reserved_alpha3(b) {
            assert(has_alpha3(s, b));
        }
    }
    assert(entry_ok(nc));
    assert forall|i: int| 0 <= i < t.len() implies entry_ok(#[trigger] t[i]) by {
        if i < s.len() {
            assert(t[i] == s[i]);
        } else {
            assert(t[i] == nc);
        }
    }
    assert forall|i: int, j: int| 0 <= i < j < t.len() implies distinct_codes(
        #[trigger] t[i],
        #[trigger] t[j],
    ) by {
        if j < s.len() {
            assert(t[i] == s[i] && t[j] == s[j]);
        } else {
            assert(t[i] == s[i] && t[j] == nc);
            assert(s[i].numeric != Some(n));
            assert(s[i].alpha2 != Some(a));
            assert(s[i].alpha3 != Some(b));
        }
    }
    assert forall|m: u16| is_reserved_numeric(m) implies #[trigger] has_numeric(t, m) by {
        assert(has_numeric(s, m));
        let w = choose|i: int| 0 <= i < s.len() && #[trigger] s[i].numeric == Some(m);
        assert(t[w].numeric == Some(m));
    }
    assert forall|c: (u8, u8)| is_reserved_alpha2(c) implies #[trigger] has_alpha2(t, c) by {
        assert(has_alpha2(s, c));
        let w = choose|i: int| 0 <= i < s.len() && #[trigger] s[i].alpha2 == Some(c);
        assert(t[w].alpha2 == Some(c));
    }
    assert forall|c: (u8, u8, u8)| is_reserved_alpha3(c) implies #[trigger] has_alpha3(t, c) by {
        assert(has_alpha3(s, c));
        let w = choose|i: int| 0 <= i < s.len() && #[trigger] s[i].alpha3 == Some(c);
        assert(t[w].alpha3 == Some(c));
    }
}

} // verus!
