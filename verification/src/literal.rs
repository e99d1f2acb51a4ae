//! The grammar of a floating-point literal, as bytes.
//!
//! A coordinate in a track file is written as text. This module says which
//! texts denote a floating-point number and decides it for a given text:
//!
//! ```text
//! Float  ::= Sign? ( 'inf' | 'infinity' | 'nan' | Number )
//! Number ::= ( Digit+ | Digit+ '.' Digit* | Digit* '.' Digit+ ) Exp?
//! Exp    ::= 'e' Sign? Digit+
//! Sign   ::= [+-]
//! Digit  ::= [0-9]
//! ```
//!
//! Letters match in either case. This is the grammar that the standard
//! library documents for parsing a double from a string.

use vstd::prelude::*;

verus! {

/// `b` is one of `0` to `9`.
pub open spec fn is_digit(b: u8) -> bool {
    0x30 <= b <= 0x39
}

/// `b` is `+` or `-`.
pub open spec fn is_sign(b: u8) -> bool {
    b == 0x2b || b == 0x2d
}

/// `b` with an upper-case ASCII letter turned into its lower-case form.
pub open spec fn lower(b: u8) -> u8 {
    if 0x41 <= b <= 0x5a {
        (b + 0x20) as u8
    } else {
        b
    }
}

/// The index of the first byte at or after `from` that is no digit
/// (the length of `s` if only digits follow).
pub open spec fn digits_end(s: Seq<u8>, from: int) -> int
    decreases s.len() - from,
{
    if 0 <= from < s.len() && is_digit(s[from]) {
        digits_end(s, from + 1)
    } else {
        from
    }
}

/// From `at` to its end, `s` is an exponent: `e` or `E`, an optional sign,
/// and one digit or more.
pub open spec fn exponent_at(s: Seq<u8>, at: int) -> bool {
    &&& 0 <= at < s.len()
    &&& lower(s[at]) == 0x65
    &&& {
        let first = if at + 1 < s.len() && is_sign(s[at + 1]) {
            at + 2
        } else {
            at + 1
        };
        first < s.len() && digits_end(s, first) == s.len()
    }
}

/// From `from` to its end, `s` is a decimal number: digits with at most one
/// point among them, at least one digit in all, and an optional exponent.
pub open spec fn number_at(s: Seq<u8>, from: int) -> bool {
    let whole_end = digits_end(s, from);
    let fraction = if whole_end < s.len() && s[whole_end] == 0x2e {
        whole_end + 1
    } else {
        whole_end
    };
    let fraction_end = digits_end(s, fraction);
    &&& (whole_end - from) + (fraction_end - fraction) > 0
    &&& (fraction_end == s.len() || exponent_at(s, fraction_end))
}

/// From `from` to its end, `s` spells `word`, in either case.
pub open spec fn word_at(s: Seq<u8>, from: int, word: Seq<u8>) -> bool {
    &&& s.len() - from == word.len()
    &&& forall|i: int| 0 <= i < word.len() ==> lower(#[trigger] s[from + i]) == word[i]
}

/// The bytes of `inf`.
pub open spec fn word_inf() -> Seq<u8> {
    seq![0x69u8, 0x6eu8, 0x66u8]
}

/// The bytes of `nan`.
pub open spec fn word_nan() -> Seq<u8> {
    seq![0x6eu8, 0x61u8, 0x6eu8]
}

/// The bytes of `infinity`.
pub open spec fn word_infinity() -> Seq<u8> {
    seq![0x69u8, 0x6eu8, 0x66u8, 0x69u8, 0x6eu8, 0x69u8, 0x74u8, 0x79u8]
}

/// From `from` to its end, `s` names an infinity or a not-a-number.
pub open spec fn special_at(s: Seq<u8>, from: int) -> bool {
    word_at(s, from, word_inf()) || word_at(s, from, word_nan()) || word_at(
        s,
        from,
        word_infinity(),
    )
}

/// `s` is a floating-point literal: an optional sign, then a special word or
/// a decimal number.
pub open spec fn float_literal(s: Seq<u8>) -> bool {
    &&& s.len() > 0
    &&& {
        let from: int = if is_sign(s[0]) {
            1
        } else {
            0
        };
        special_at(s, from) || number_at(s, from)
    }
}

/// The text `t`, encoded as UTF-8, is a floating-point literal.
pub open spec fn float_text(t: Seq<char>) -> bool {
    float_literal(vstd::utf8::encode_utf8(t))
}

/// Skips the digits of `s` that start at `from`.
fn scan_digits(s: &[u8], from: usize) -> (end: usize)
    requires
        from <= s@.len(),
    ensures
        end == digits_end(s@, from as int),
        from <= end <= s@.len(),
{
    let mut i: usize = from;
    while i < s.len() && 0x30 <= s[i] && s[i] <= 0x39
        invariant
            from <= i <= s@.len(),
            digits_end(s@, from as int) == digits_end(s@, i as int),
        decreases s@.len() - i,
    {
        i = i + 1;
    }
    i
}

/// Turns an upper-case ASCII letter into its lower-case form.
fn to_lower(b: u8) -> (r: u8)
    ensures
        r == lower(b),
{
    if 0x41 <= b && b <= 0x5a {
        b + 0x20
    } else {
        b
    }
}

/// Tells whether `s` from `from` on spells `word` in either case.
fn spells(s: &[u8], from: usize, word: &[u8]) -> (r: bool)
    requires
        from <= s@.len(),
    ensures
        r == word_at(s@, from as int, word@),
{
    let n: usize = s.len();
    if n - from != word.len() {
        return false;
    }
    let mut i: usize = 0;
    while i < word.len()
        invariant
            from <= s@.len(),
            n == s@.len(),
            s@.len() - from == word@.len(),
            0 <= i <= word@.len(),
            forall|j: int| 0 <= j < i ==> lower(#[trigger] s@[from + j]) == word@[j],
        decreases word@.len() - i,
    {
        if to_lower(s[from + i]) != word[i] {
            return false;
        }
        i = i + 1;
    }
    true
}

/// Tells whether `s` from `from` on names an infinity or a not-a-number.
fn is_special(s: &[u8], from: usize) -> (r: bool)
    requires
        from <= s@.len(),
    ensures
        r == special_at(s@, from as int),
{
    let inf: [u8; 3] = [0x69, 0x6e, 0x66];
    let nan: [u8; 3] = [0x6e, 0x61, 0x6e];
    let infinity: [u8; 8] = [0x69, 0x6e, 0x66, 0x69, 0x6e, 0x69, 0x74, 0x79];
    assert(inf@ =~= word_inf());
    assert(nan@ =~= word_nan());
    assert(infinity@ =~= word_infinity());
    spells(s, from, inf.as_slice()) || spells(s, from, nan.as_slice()) || spells(
        s,
        from,
        infinity.as_slice(),
    )
}

/// Tells whether `s` from `at` on is an exponent.
fn is_exponent(s: &[u8], at: usize) -> (r: bool)
    requires
        at < s@.len(),
    ensures
        r == exponent_at(s@, at as int),
{
    if to_lower(s[at]) != 0x65 {
        return false;
    }
    let first: usize = if at + 1 < s.len() && (s[at + 1] == 0x2b || s[at + 1] == 0x2d) {
        at + 2
    } else {
        at + 1
    };
    if first >= s.len() {
        return false;
    }
    scan_digits(s, first) == s.len()
}

/// Tells whether `s` from `from` on is a decimal number.
fn is_number(s: &[u8], from: usize) -> (r: bool)
    requires
        from <= s@.len(),
    ensures
        r == number_at(s@, from as int),
{
    let whole_end: usize = scan_digits(s, from);
    let fraction: usize = if whole_end < s.len() && s[whole_end] == 0x2e {
        whole_end + 1
    } else {
        whole_end
    };
    let fraction_end: usize = scan_digits(s, fraction);
    if (whole_end - from) + (fraction_end - fraction) == 0 {
        return false;
    }
    fraction_end == s.len() || is_exponent(s, fraction_end)
}

/// Decides whether the bytes `s` are a floating-point literal.
pub fn is_float_literal(s: &[u8]) -> (r: bool)
    ensures
        r == float_literal(s@),
{
    if s.len() == 0 {
        return false;
    }
    let from: usize = if s[0] == 0x2b || s[0] == 0x2d {
        1
    } else {
        0
    };
    is_special(s, from) || is_number(s, from)
}

/// Decides whether the text `t` is a floating-point literal.
pub fn is_float_text(t: &str) -> (r: bool)
    ensures
        r == float_text(t@),
{
    is_float_literal(t.as_bytes())
}

} // verus!
