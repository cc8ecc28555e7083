//! Character-level helpers over `str` and `String`.

use vstd::prelude::*;
use vstd::utf8::*;

verus! {

/// Pushes one character onto a `String`.
///
/// Trusted: calls `String::push`, whose documentation says it appends the
/// character to the end of the string; the contract claims exactly that
/// the view grows by that one character.
#[verifier::external_body]
pub(crate) fn push_char(s: &mut String, c: char)
    ensures
        final(s)@ == old(s)@.push(c),
{
    s.push(c);
}

/// Reads a byte slice as UTF-8 text.
///
/// Trusted: calls `core::str::from_utf8`, documented to succeed exactly when
/// the bytes are well-formed UTF-8; the contract claims that success
/// condition, with vstd's `valid_utf8`, and that the text holds the
/// characters that vstd's `decode_utf8` reads from the bytes.
#[verifier::external_body]
pub(crate) fn utf8_text(bytes: &[u8]) -> (r: Option<&str>)
    ensures
        r is Some <==> valid_utf8(bytes@),
        r matches Some(s) ==> s@ == decode_utf8(bytes@),
{
    core::str::from_utf8(bytes).ok()
}

/// The characters of a string slice, in order, as a vector.
pub fn chars_of(s: &str) -> (v: Vec<char>)
    ensures
        v@ == s@,
{
    let mut v: Vec<char> = Vec::new();
    for c in it: s.chars()
        invariant
            v@ == it.seq().take(it.index() as int),
            it.seq() == s@,
    {
        v.push(c);
    }
    v
}

/// A `String` holding the given characters `from..to`.
pub fn string_of_range(chars: &Vec<char>, from: usize, to: usize) -> (s: String)
    requires
        from <= to <= chars@.len(),
    ensures
        s@ == chars@.subrange(from as int, to as int),
{
    let mut s = String::new();
    let mut i = from;
    while i < to
        invariant
            from <= i <= to <= chars@.len(),
            s@ == chars@.subrange(from as int, i as int),
        decreases to - i,
    {
        push_char(&mut s, chars[i]);
        i += 1;
    }
    s
}

} // verus!
