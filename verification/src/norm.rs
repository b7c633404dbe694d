//! The normalizer: canonical fixed-width form of free-form input.
//!
//! Every string entry point of the library funnels its input through
//! [`normalize`], so tolerance of surrounding whitespace and of letter
//! case is uniform across all representations. The canonical form is a
//! fixed-width uppercase ASCII buffer tagged with its detected width.
//!
//! The checks run in a fixed order: the input is trimmed, then rejected
//! if a non-ASCII byte remains, then rejected if the remaining length is
//! neither two nor three, and finally case-folded to uppercase.

use vstd::prelude::*;
use vstd::string::StringSliceAdditionalSpecFns;

use crate::ascii::is_ascii_ws;
use crate::ascii::to_upper;
use crate::ascii::upper_byte;
use crate::ascii::ws_byte;
use crate::error::Error;

verus! {

/// The canonical form of an accepted input string: its trimmed,
/// uppercased bytes, tagged with their width.
#[derive(Clone, Copy, Debug, Eq, PartialEq, Structural)]
pub enum FixedAscii {
    /// A two-byte candidate alpha-2 code.
    Two(u8, u8),
    /// A three-byte candidate alpha-3 code.
    Three(u8, u8, u8),
}

impl FixedAscii {
    /// The byte sequence held by the buffer.
    pub open spec fn bytes(self) -> Seq<u8> {
        match self {
            FixedAscii::Two(b0, b1) => seq![b0, b1],
            FixedAscii::Three(b0, b1, b2) => seq![b0, b1, b2],
        }
    }
}

/// The first index at or after `i` holding a non-whitespace byte, or
/// `s.len()` if there is none.
pub open spec fn first_code(s: Seq<u8>, i: int) -> int
    decreases s.len() - i,
{
    if i < 0 || i >= s.len() {
        s.len() as int
    } else if !is_ascii_ws(s[i]) {
        i
    } else {
        first_code(s, i + 1)
    }
}

/// One past the last index strictly before `i` holding a
/// non-whitespace byte, or `0` if there is none.
pub open spec fn last_code_end(s: Seq<u8>, i: int) -> int
    decreases i,
{
    if i <= 0 || i > s.len() {
        0
    } else if !is_ascii_ws(s[i - 1]) {
        i
    } else {
        last_code_end(s, i - 1)
    }
}

/// `s` without its leading and trailing ASCII whitespace.
pub open spec fn trimmed(s: Seq<u8>) -> Seq<u8> {
    let a = first_code(s, 0);
    let b = last_code_end(s, s.len() as int);
    if a <= b {
        s.subrange(a, b)
    } else {
        Seq::empty()
    }
}

/// `s` with every byte case-folded to uppercase.
pub open spec fn upper_seq(s: Seq<u8>) -> Seq<u8> {
    s.map_values(|b: u8| to_upper(b))
}

/// Whether `s` holds a byte outside the ASCII range.
pub open spec fn has_non_ascii(s: Seq<u8>) -> bool {
    exists|i: int| 0 <= i < s.len() && s[i] >= 128
}

/// The meaning of [`normalize`]: trim, reject non-ASCII content, check
/// the width, and case-fold to uppercase.
pub open spec fn normalize_spec(s: Seq<u8>) -> Result<FixedAscii, Error> {
    let t = trimmed(s);
    if has_non_ascii(t) {
        Err(Error::InvalidCharset)
    } else if t.len() == 2 {
        Ok(FixedAscii::Two(to_upper(t[0]), to_upper(t[1])))
    } else if t.len() == 3 {
        Ok(FixedAscii::Three(to_upper(t[0]), to_upper(t[1]), to_upper(t[2])))
    } else {
        Err(Error::InvalidLength)
    }
}

/// Bounds and content of [`first_code`].
proof fn lemma_first_code(s: Seq<u8>, i: int)
    requires
        0 <= i <= s.len(),
    ensures
        i <= first_code(s, i) <= s.len(),
        first_code(s, i) < s.len() ==> !is_ascii_ws(s[first_code(s, i)]),
        forall|j: int| i <= j < first_code(s, i) ==> is_ascii_ws(s[j]),
    decreases s.len() - i,
{
    if i < s.len() && is_ascii_ws(s[i]) {
        lemma_first_code(s, i + 1);
    }
}

/// Bounds and content of [`last_code_end`].
proof fn lemma_last_code_end(s: Seq<u8>, i: int)
    requires
        0 <= i <= s.len(),
    ensures
        0 <= last_code_end(s, i) <= i,
        last_code_end(s, i) > 0 ==> !is_ascii_ws(s[last_code_end(s, i) - 1]),
        forall|j: int| last_code_end(s, i) <= j < i ==> is_ascii_ws(s[j]),
    decreases i,
{
    if i > 0 && is_ascii_ws(s[i - 1]) {
        lemma_last_code_end(s, i - 1);
    }
}

/// Normalize an input string into its canonical fixed-width form.
///
/// ASCII whitespace is trimmed from both ends; a remaining non-ASCII
/// byte fails with [`Error::InvalidCharset`]; a remaining width other
/// than two or three fails with [`Error::InvalidLength`]; otherwise the
/// bytes are case-folded to uppercase and returned tagged with their
/// width.
pub fn normalize(s: &str) -> (r: Result<FixedAscii, Error>)
    ensures
        r == normalize_spec(s.spec_bytes()),
{
    let b = s.as_bytes();
    let ghost gb = b@;
    let n = b.len();
    let mut a: usize = 0;
    while a < n && ws_byte(b[a])
        invariant
            0 <= a <= n,
            n == gb.len(),
            gb == b@,
            first_code(gb, 0) == first_code(gb, a as int),
            forall|j: int| 0 <= j < a ==> is_ascii_ws(gb[j]),
        decreases n - a,
    {
        a = a + 1;
    }
    proof {
        assert(first_code(gb, 0) == a as int);
    }
    let mut e: usize = n;
    while e > a && ws_byte(b[e - 1])
        invariant
            a <= e <= n,
            n == gb.len(),
            gb == b@,
            last_code_end(gb, n as int) == last_code_end(gb, e as int),
            forall|j: int| 0 <= j < a ==> is_ascii_ws(gb[j]),
            first_code(gb, 0) == a as int,
        decreases e,
    {
        e = e - 1;
    }
    proof {
        if e == a {
            lemma_last_code_end(gb, e as int);
            lemma_first_code(gb, 0);
            assert(trimmed(gb).len() == 0);
        } else {
            assert(last_code_end(gb, e as int) == e as int);
            assert(trimmed(gb) =~= gb.subrange(a as int, e as int));
        }
    }
    if e == a {
        return Err(Error::InvalidLength);
    }
    let ghost t = trimmed(gb);
    let mut i: usize = a;
    while i < e
        invariant
            a <= i <= e <= n,
            n == gb.len(),
            gb == b@,
            gb == s.spec_bytes(),
            t == trimmed(gb),
            t =~= gb.subrange(a as int, e as int),
            forall|j: int| a <= j < i ==> gb[j] < 128,
        decreases e - i,
    {
        if b[i] >= 128 {
            proof {
                assert(t[i as int - a as int] == gb[i as int]);
                assert(has_non_ascii(t));
            }
            return Err(Error::InvalidCharset);
        }
        i = i + 1;
    }
    proof {
        assert(!has_non_ascii(t)) by {
            assert(forall|j: int| 0 <= j < t.len() ==> #[trigger] t[j] == gb[a + j] && gb[a + j] < 128);
        }
    }
    let width = e - a;
    if width == 2 {
        proof {
            assert(t[0] == gb[a as int]);
            assert(t[1] == gb[a + 1int]);
        }
        Ok(FixedAscii::Two(upper_byte(b[a]), upper_byte(b[a + 1])))
    } else if width == 3 {
        proof {
            assert(t[0] == gb[a as int]);
            assert(t[1] == gb[a + 1int]);
            assert(t[2] == gb[a + 2int]);
        }
        Ok(FixedAscii::Three(upper_byte(b[a]), upper_byte(b[a + 1]), upper_byte(b[a + 2])))
    } else {
        Err(Error::InvalidLength)
    }
}

/// Normalization is idempotent: feeding a canonical buffer's bytes back
/// through normalization returns the same buffer unchanged.
pub proof fn lemma_normalize_idempotent(s: Seq<u8>, fa: FixedAscii)
    requires
        normalize_spec(s) == Ok::<FixedAscii, Error>(fa),
    ensures
        normalize_spec(fa.bytes()) == Ok::<FixedAscii, Error>(fa),
{
    let t = trimmed(s);
    let a = first_code(s, 0);
    let b = last_code_end(s, s.len() as int);
    lemma_first_code(s, 0);
    lemma_last_code_end(s, s.len() as int);
    assert(t.len() > 0);
    assert(a < b);
    assert(!is_ascii_ws(t[0]));
    assert(!is_ascii_ws(t[t.len() - 1]));
    let u = fa.bytes();
    assert(u.len() == t.len());
    assert(forall|i: int| 0 <= i < u.len() ==> u[i] == to_upper(t[i]));
    assert(!is_ascii_ws(u[0]));
    assert(!is_ascii_ws(u[u.len() - 1]));
    assert(first_code(u, 0) == 0);
    assert(last_code_end(u, u.len() as int) == u.len() as int);
    assert(trimmed(u) =~= u);
    assert(!has_non_ascii(u));
}

/// Normalization depends only on the case-folded trimmed content: two
/// inputs that agree after trimming and uppercasing normalize alike.
/// In particular `"us"`, `"US"` and `"  US  "` all normalize to the
/// same buffer.
pub proof fn lemma_normalize_folded(s: Seq<u8>, t: Seq<u8>)
    requires
        upper_seq(trimmed(s)) == upper_seq(trimmed(t)),
    ensures
        normalize_spec(s) == normalize_spec(t),
{
    let ts = trimmed(s);
    let tt = trimmed(t);
    assert(upper_seq(ts).len() == ts.len());
    assert(upper_seq(tt).len() == tt.len());
    assert(ts.len() == tt.len());
    assert forall|i: int| 0 <= i < ts.len() implies to_upper(ts[i]) == to_upper(tt[i]) by {
        assert(upper_seq(ts)[i] == to_upper(ts[i]));
        assert(upper_seq(tt)[i] == to_upper(tt[i]));
    }
    assert(has_non_ascii(ts) == has_non_ascii(tt)) by {
        if has_non_ascii(ts) {
            let i = choose|i: int| 0 <= i < ts.len() && ts[i] >= 128;
            assert(to_upper(ts[i]) >= 128);
            assert(tt[i] >= 128);
        }
        if has_non_ascii(tt) {
            let i = choose|i: int| 0 <= i < tt.len() && tt[i] >= 128;
            assert(to_upper(tt[i]) >= 128);
            assert(ts[i] >= 128);
        }
    }
}

} // verus!
