//! Byte-level ASCII helpers shared by the normalizer and the registry.
//!
//! Codes are fixed-width uppercase ASCII, so all string handling in the
//! library is done over byte sequences. This module holds the byte
//! predicates, ASCII case folding, decimal rendering of numeric codes,
//! and decimal parsing of dataset fields.

use vstd::prelude::*;

verus! {

/// Whether `b` is an ASCII whitespace byte (space, tab, line feed,
/// form feed or carriage return).
pub open spec fn is_ascii_ws(b: u8) -> bool {
    b == 32 || b == 9 || b == 10 || b == 12 || b == 13
}

/// Whether `b` is an uppercase ASCII letter.
pub open spec fn is_upper_alpha(b: u8) -> bool {
    65 <= b && b <= 90
}

/// Whether `b` is an ASCII decimal digit.
pub open spec fn is_digit(b: u8) -> bool {
    48 <= b && b <= 57
}

/// ASCII case folding of a single byte: lowercase letters map to their
/// uppercase counterpart, every other byte is unchanged.
pub open spec fn to_upper(b: u8) -> u8 {
    if 97 <= b && b <= 122 {
        (b - 32) as u8
    } else {
        b
    }
}

/// The character denoted by an ASCII byte.
pub open spec fn byte_char(b: u8) -> char {
    b as char
}

/// The character sequence denoted by a sequence of ASCII bytes.
pub open spec fn chars_of_bytes(s: Seq<u8>) -> Seq<char> {
    s.map_values(|b: u8| byte_char(b))
}

/// Exec twin of [`to_upper`].
pub fn upper_byte(b: u8) -> (r: u8)
    ensures
        r == to_upper(b),
{
    if 97 <= b && b <= 122 {
        b - 32
    } else {
        b
    }
}

/// Exec twin of [`is_ascii_ws`].
pub fn ws_byte(b: u8) -> (r: bool)
    ensures
        r == is_ascii_ws(b),
{
    b == 32 || b == 9 || b == 10 || b == 12 || b == 13
}

/// Relies on `String::from_utf8`: a buffer of ASCII bytes is valid
/// UTF-8 and decodes to the string whose characters are exactly those
/// bytes.
#[verifier::external_body]
pub(crate) fn ascii_bytes_to_string(v: Vec<u8>) -> (r: String)
    requires
        forall|i: int| 0 <= i < v@.len() ==> v@[i] < 128,
    ensures
        r@ == chars_of_bytes(v@),
{
    match String::from_utf8(v) {
        Ok(s) => s,
        Err(_) => String::new(),
    }
}

/// The decimal digit bytes of `n`, most significant first, without
/// leading zeros (`0` itself is rendered as the single byte `b'0'`).
pub open spec fn dec_rep(n: nat) -> Seq<u8>
    decreases n,
{
    if n < 10 {
        seq![(48 + n) as u8]
    } else {
        dec_rep(n / 10).push((48 + n % 10) as u8)
    }
}

/// Every byte of a decimal rendering is an ASCII digit.
pub proof fn lemma_dec_rep_digits(n: nat)
    ensures
        forall|i: int| 0 <= i < dec_rep(n).len() ==> is_digit(#[trigger] dec_rep(n)[i]),
    decreases n,
{
    if n < 10 {
        assert(dec_rep(n)[0] == (48 + n) as u8);
    } else {
        lemma_dec_rep_digits(n / 10);
        assert forall|i: int| 0 <= i < dec_rep(n).len() implies is_digit(#[trigger] dec_rep(n)[i]) by {
            if i < dec_rep(n / 10).len() {
                assert(dec_rep(n)[i] == dec_rep(n / 10)[i]);
            } else {
                assert(dec_rep(n)[i] == (48 + n % 10) as u8);
            }
        }
    }
}

fn push_dec(v: &mut Vec<u8>, n: u16)
    ensures
        final(v)@ == old(v)@ + dec_rep(n as nat),
    decreases n,
{
    if n < 10 {
        v.push(48 + (n as u8));
        assert(v@ =~= old(v)@ + dec_rep(n as nat));
    } else {
        push_dec(v, n / 10);
        v.push(48 + ((n % 10) as u8));
        assert(v@ =~= old(v)@ + dec_rep(n as nat));
    }
}

/// The decimal digit bytes of `n`, most significant first.
pub fn u16_decimal_bytes(n: u16) -> (v: Vec<u8>)
    ensures
        v@ == dec_rep(n as nat),
{
    let mut v: Vec<u8> = Vec::new();
    push_dec(&mut v, n);
    v
}

/// The decimal rendering of `n` as a string.
pub fn u16_decimal_string(n: u16) -> (r: String)
    ensures
        r@ == chars_of_bytes(dec_rep(n as nat)),
{
    let v = u16_decimal_bytes(n);
    proof {
        lemma_dec_rep_digits(n as nat);
    }
    ascii_bytes_to_string(v)
}

/// The numeric value of a sequence of ASCII digit bytes, most
/// significant first.
pub open spec fn dec_value(s: Seq<u8>) -> nat
    decreases s.len(),
{
    if s.len() == 0 {
        0
    } else {
        (dec_value(s.drop_last()) * 10 + (s.last() - 48)) as nat
    }
}

/// Whether every byte of `s` is an ASCII digit.
pub open spec fn all_digits(s: Seq<u8>) -> bool {
    forall|i: int| 0 <= i < s.len() ==> is_digit(#[trigger] s[i])
}

/// Parse a decimal `u16` from digit bytes.
///
/// Returns `Some(n)` exactly when `s` is nonempty, holds only ASCII
/// digits, and denotes a value that fits in sixteen bits; leading
/// zeros are accepted.
pub fn parse_u16(s: &[u8]) -> (r: Option<u16>)
    ensures
        match r {
            Some(n) => s@.len() > 0 && all_digits(s@) && dec_value(s@) == n,
            None => s@.len() == 0 || !all_digits(s@) || dec_value(s@) > u16::MAX,
        },
{
    if s.len() == 0 {
        return None;
    }
    let ghost gs = s@;
    let mut acc: u32 = 0;
    let mut i: usize = 0;
    while i < s.len()
        invariant
            0 <= i <= gs.len(),
            gs == s@,
            all_digits(gs.subrange(0, i as int)),
            acc == dec_value(gs.subrange(0, i as int)),
            acc <= u16::MAX,
        decreases gs.len() - i,
    {
        let b = s[i];
        if b < 48 || b > 57 {
            proof {
                assert(!is_digit(gs[i as int]));
            }
            return None;
        }
        let d: u32 = (b - 48) as u32;
        let next: u32 = acc * 10 + d;
        proof {
            assert(gs.subrange(0, i + 1 as int).drop_last() =~= gs.subrange(0, i as int));
            assert(gs.subrange(0, i + 1 as int).last() == gs[i as int]);
            assert(forall|j: int| 0 <= j < i + 1 ==> is_digit(#[trigger] gs.subrange(0, i + 1 as int)[j]));
        }
        if next > 65535 {
            proof {
                if all_digits(gs) {
                    lemma_dec_value_monotonic(gs, i + 1 as int);
                }
            }
            return None;
        }
        acc = next;
        i = i + 1;
    }
    proof {
        assert(gs.subrange(0, gs.len() as int) =~= gs);
    }
    Some(acc as u16)
}

/// Appending digit bytes never decreases the denoted value.
proof fn lemma_dec_value_monotonic(s: Seq<u8>, k: int)
    requires
        0 <= k <= s.len(),
        all_digits(s),
    ensures
        dec_value(s) >= dec_value(s.subrange(0, k)),
    decreases s.len() - k,
{
    if k < s.len() {
        lemma_dec_value_monotonic(s, k + 1);
        assert(s.subrange(0, k + 1).drop_last() =~= s.subrange(0, k));
        assert(dec_value(s.subrange(0, k + 1)) >= dec_value(s.subrange(0, k)));
    } else {
        assert(s.subrange(0, s.len() as int) =~= s);
    }
}

} // verus!
