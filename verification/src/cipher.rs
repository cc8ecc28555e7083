//! The Vigenère shift applied to message text.
//!
//! Only ASCII letters are shifted; every other character is copied as it
//! stands. The key is repeated as often as needed and its `j`-th character
//! shifts the `j`-th letter of the text.

use vstd::prelude::*;
use vstd::utf8::*;

use crate::text::{chars_of, push_char, string_of_range, utf8_text};

verus! {

// ---------------------------------------------------------------------------
// Character classes
// ---------------------------------------------------------------------------

pub open spec fn is_lower(c: char) -> bool {
    'a' <= c && c <= 'z'
}

pub open spec fn is_upper(c: char) -> bool {
    'A' <= c && c <= 'Z'
}

pub open spec fn is_alpha(c: char) -> bool {
    is_lower(c) || is_upper(c)
}

/// The number of ASCII letters in `s`.
pub open spec fn alpha_count(s: Seq<char>) -> nat
    decreases s.len(),
{
    if s.len() == 0 {
        0
    } else {
        alpha_count(s.drop_last()) + if is_alpha(s.last()) {
            1nat
        } else {
            0nat
        }
    }
}

/// Rust's `%` by 26 on a signed value: the remainder takes the sign of `x`.
pub open spec fn rem26(x: int) -> int {
    if x >= 0 {
        x % 26
    } else {
        -((-x) % 26)
    }
}

/// The code of `c` after ASCII upper-casing.
pub open spec fn ascii_upper_code(c: char) -> int {
    if is_lower(c) {
        c as int - 32
    } else {
        c as int
    }
}

/// The byte that the upper-cased key character is truncated to.
pub open spec fn upper_key_byte(k: char) -> int {
    ascii_upper_code(k) % 256
}

/// The code of `c` after ASCII lower-casing.
pub open spec fn ascii_lower_code(c: char) -> int {
    if is_upper(c) {
        c as int + 32
    } else {
        c as int
    }
}

/// The shift of a lowercase letter `c` by key character `k`, before
/// wrapping: the key character is lower-cased, so a key letter of either
/// case shifts by its place in the alphabet.
pub open spec fn lower_shift(c: char, k: char) -> int {
    (c as int - 97) + (ascii_lower_code(k) - 97)
}

/// The shift of an uppercase letter `c` by key character `k`, before wrapping.
pub open spec fn upper_shift(c: char, k: char) -> int {
    (c as int - 65) + (upper_key_byte(k) - 65)
}

/// One character of output: a letter shifted by `k`, anything else unchanged.
pub open spec fn shift_char(c: char, k: char) -> char {
    if is_lower(c) {
        (rem26(lower_shift(c, k)) + 97) as char
    } else if is_upper(c) {
        (rem26(upper_shift(c, k)) + 65) as char
    } else {
        c
    }
}

/// The `j`-th character of the key stream: the key repeated without end.
pub open spec fn keystream_char(key: Seq<char>, j: int) -> char {
    key[j % (key.len() as int)]
}

/// The key character that shifts position `i` of `text`.
pub open spec fn key_for(text: Seq<char>, key: Seq<char>, i: int) -> char {
    keystream_char(key, alpha_count(text.take(i)) as int)
}

/// The enciphered text.
pub open spec fn vigenere(text: Seq<char>, key: Seq<char>) -> Seq<char> {
    Seq::new(text.len(), |i: int| shift_char(text[i], key_for(text, key, i)))
}

/// The inputs on which the cipher terminates without an arithmetic fault:
/// a text with letters needs a nonempty key, and each key character that
/// shifts an uppercase letter must upper-case to a byte no smaller than `'A'`.
pub open spec fn vigenere_defined(text: Seq<char>, key: Seq<char>) -> bool {
    &&& alpha_count(text) > 0 ==> key.len() > 0
    &&& forall|i: int|
        0 <= i < text.len() && is_upper(#[trigger] text[i]) ==> upper_key_byte(
            key_for(text, key, i),
        ) >= 65
}

// ---------------------------------------------------------------------------
// Lemmas on letter counts
// ---------------------------------------------------------------------------

pub proof fn lemma_alpha_count_step(s: Seq<char>, i: int)
    requires
        0 <= i < s.len(),
    ensures
        alpha_count(s.take(i + 1)) == alpha_count(s.take(i)) + if is_alpha(s[i]) {
            1nat
        } else {
            0nat
        },
{
    assert(s.take(i + 1).drop_last() =~= s.take(i));
}

pub proof fn lemma_alpha_count_monotone(s: Seq<char>, i: int, j: int)
    requires
        0 <= i <= j <= s.len(),
    ensures
        alpha_count(s.take(i)) <= alpha_count(s.take(j)),
    decreases j - i,
{
    if i < j {
        lemma_alpha_count_step(s, j - 1);
        lemma_alpha_count_monotone(s, i, j - 1);
    }
}

pub proof fn lemma_alpha_count_bound(s: Seq<char>)
    ensures
        alpha_count(s) <= s.len(),
    decreases s.len(),
{
    if s.len() > 0 {
        lemma_alpha_count_bound(s.drop_last());
    }
}

/// A letter at position `i` is followed by no fewer than one more letter
/// in the whole text than before it.
pub proof fn lemma_letter_index_in_range(s: Seq<char>, i: int)
    requires
        0 <= i < s.len(),
        is_alpha(s[i]),
    ensures
        alpha_count(s.take(i)) < alpha_count(s),
{
    lemma_alpha_count_step(s, i);
    lemma_alpha_count_monotone(s, i + 1, s.len() as int);
    assert(s.take(s.len() as int) =~= s);
}

// ---------------------------------------------------------------------------
// Executable character helpers
// ---------------------------------------------------------------------------

fn is_ascii_lowercase(c: char) -> (b: bool)
    ensures
        b == is_lower(c),
{
    'a' <= c && c <= 'z'
}

fn is_ascii_uppercase(c: char) -> (b: bool)
    ensures
        b == is_upper(c),
{
    'A' <= c && c <= 'Z'
}

fn is_ascii_alphabetic(c: char) -> (b: bool)
    ensures
        b == is_alpha(c),
{
    is_ascii_lowercase(c) || is_ascii_uppercase(c)
}

/// The code of `c` after ASCII lower-casing (`char::to_ascii_lowercase`).
fn to_ascii_lowercase_code(c: char) -> (r: u32)
    ensures
        r == ascii_lower_code(c),
{
    if is_ascii_uppercase(c) {
        (c as u32) + 32
    } else {
        c as u32
    }
}

/// The code of `c` after ASCII upper-casing (`char::to_ascii_uppercase`).
fn to_ascii_uppercase_code(c: char) -> (r: u32)
    ensures
        r == ascii_upper_code(c),
{
    if is_ascii_lowercase(c) {
        (c as u32) - 32
    } else {
        c as u32
    }
}

// ---------------------------------------------------------------------------
// Public functions
// ---------------------------------------------------------------------------

/// Counts the ASCII letters of `text`.
pub fn count_chars(text: &str) -> (count: usize)
    ensures
        count == alpha_count(text@),
{
    let chars = chars_of(text);
    let mut count: usize = 0;
    let mut i: usize = 0;
    while i < chars.len()
        invariant
            i <= chars@.len(),
            chars@ == text@,
            count == alpha_count(text@.take(i as int)),
            count <= i,
        decreases chars.len() - i,
    {
        proof {
            lemma_alpha_count_step(text@, i as int);
        }
        if is_ascii_alphabetic(chars[i]) {
            count += 1;
        }
        i += 1;
    }
    proof {
        assert(text@.take(chars@.len() as int) =~= text@);
    }
    count
}

/// Wraps a shifted lowercase offset back into a character: `'a'` plus the
/// offset's remainder by 26 (which keeps the offset's sign).
pub fn lower_char_adjustment(shifted_char: i32) -> (c: char)
    ensures
        c == (rem26(shifted_char as int) + 97) as char,
        0 <= shifted_char ==> is_lower(c),
{
    let s = shifted_char as i64;
    let adjusted: i64 = if s >= 0 {
        s % 26
    } else {
        -((-s) % 26)
    };
    let code = (adjusted + 97) as u8;
    code as char
}

/// Wraps a shifted uppercase offset back into a character: `'A'` plus the
/// offset's remainder by 26 (which keeps the offset's sign).
pub fn upper_char_adjustment(shifted_char: i32) -> (c: char)
    ensures
        c == (rem26(shifted_char as int) + 65) as char,
        0 <= shifted_char ==> is_upper(c),
{
    let s = shifted_char as i64;
    let adjusted: i64 = if s >= 0 {
        s % 26
    } else {
        -((-s) % 26)
    };
    let code = (adjusted + 65) as u8;
    code as char
}

/// Tells whether `shift_vig` accepts `text` with `key`.
pub fn shift_vig_accepts(text: &str, key: &str) -> (ok: bool)
    ensures
        ok == vigenere_defined(text@, key@),
{
    let text_chars = chars_of(text);
    let key_chars = chars_of(key);
    let count = count_chars(text);
    if count > 0 && key_chars.len() == 0 {
        return false;
    }
    let mut index: usize = 0;
    let mut i: usize = 0;
    while i < text_chars.len()
        invariant
            i <= text_chars@.len(),
            text_chars@ == text@,
            key_chars@ == key@,
            count == alpha_count(text@),
            count > 0 ==> key@.len() > 0,
            index == alpha_count(text@.take(i as int)),
            forall|j: int|
                0 <= j < i && is_upper(#[trigger] text@[j]) ==> upper_key_byte(
                    key_for(text@, key@, j),
                ) >= 65,
        decreases text_chars.len() - i,
    {
        let c = text_chars[i];
        proof {
            lemma_alpha_count_step(text@, i as int);
        }
        if is_ascii_alphabetic(c) {
            proof {
                lemma_letter_index_in_range(text@, i as int);
            }
            if is_ascii_uppercase(c) {
                let k = key_chars[index % key_chars.len()];
                let byte = to_ascii_uppercase_code(k) % 256;
                if byte < 65 {
                    return false;
                }
            }
            index += 1;
        }
        i += 1;
    }
    true
}

/// Enciphers `text` with `key`: each ASCII letter is shifted, within its
/// case, by the next character of the key repeated without end; every other
/// character stands unchanged.
pub fn shift_vig(text: &str, key: &str) -> (result: String)
    requires
        vigenere_defined(text@, key@),
    ensures
        result@ == vigenere(text@, key@),
{
    let mut result = String::new();
    let text_char_count = count_chars(text);
    let text_chars = chars_of(text);
    let key_chars = chars_of(key);
    let mut index: usize = 0;
    let mut i: usize = 0;
    while i < text_chars.len()
        invariant
            i <= text_chars@.len(),
            text_chars@ == text@,
            key_chars@ == key@,
            vigenere_defined(text@, key@),
            text_char_count == alpha_count(text@),
            index == alpha_count(text@.take(i as int)),
            result@ == vigenere(text@, key@).take(i as int),
        decreases text_chars.len() - i,
    {
        let c = text_chars[i];
        proof {
            lemma_alpha_count_step(text@, i as int);
        }
        let ghost k_spec = key_for(text@, key@, i as int);
        if is_ascii_lowercase(c) {
            proof {
                lemma_letter_index_in_range(text@, i as int);
            }
            let k = key_chars[index % key_chars.len()];
            assert(k == k_spec);
            // normalize to 0 - 25, whatever the case of the key letter
            let key_val: i32 = to_ascii_lowercase_code(k) as i32 - 97;
            let shifted_char: i32 = (c as u32) as i32 - 97 + key_val;
            push_char(&mut result, lower_char_adjustment(shifted_char));
            index += 1;
        } else if is_ascii_uppercase(c) {
            proof {
                lemma_letter_index_in_range(text@, i as int);
            }
            let k = key_chars[index % key_chars.len()];
            assert(k == k_spec);
            let byte = (to_ascii_uppercase_code(k) % 256) as u8;
            let key_val: i32 = (byte - 65) as i32;
            let shifted_char: i32 = (c as u32) as i32 - 65 + key_val;
            push_char(&mut result, upper_char_adjustment(shifted_char));
            index += 1;
        } else {
            push_char(&mut result, c);
        }
        assert(result@ =~= vigenere(text@, key@).take(i + 1));
        i += 1;
    }
    assert(vigenere(text@, key@).take(text_chars@.len() as int) =~= vigenere(text@, key@));
    result
}

// ---------------------------------------------------------------------------
// Payloads of the form `key|text`
// ---------------------------------------------------------------------------

/// The position of the first `'|'` in `s`, if any.
pub open spec fn first_bar(s: Seq<char>) -> Option<int> {
    if exists|i: int| 0 <= i < s.len() && s[i] == '|' {
        Some(choose|i: int| 0 <= i < s.len() && s[i] == '|' && forall|j: int| 0 <= j < i ==> s[j] != '|')
    } else {
        None
    }
}

/// The key of a payload: the text before its first `'|'`.
pub open spec fn payload_key(s: Seq<char>) -> Seq<char> {
    s.take(first_bar(s)->0)
}

/// The text of a payload: what follows its first `'|'`.
pub open spec fn payload_text(s: Seq<char>) -> Seq<char> {
    s.skip(first_bar(s)->0 + 1)
}

/// A payload that `split_payload` accepts: UTF-8 text holding a `'|'`.
pub open spec fn payload_well_formed(input: Seq<u8>) -> bool {
    valid_utf8(input) && first_bar(decode_utf8(input)) is Some
}

proof fn lemma_first_bar(s: Seq<char>, p: int)
    requires
        0 <= p < s.len(),
        s[p] == '|',
        forall|j: int| 0 <= j < p ==> s[j] != '|',
    ensures
        first_bar(s) == Some(p),
{
    let q = choose|i: int| 0 <= i < s.len() && s[i] == '|' && forall|j: int| 0 <= j < i ==> s[j] != '|';
    assert(0 <= p < s.len() && s[p] == '|' && forall|j: int| 0 <= j < p ==> s[j] != '|');
    if q < p {
        assert(s[q] != '|');
    }
    if p < q {
        assert(s[p] != '|');
    }
}

/// Splits a `key|text` payload into its key and its text, at the first `'|'`.
pub fn payload_parts(input: &[u8]) -> (parts: (String, String))
    requires
        payload_well_formed(input@),
    ensures
        parts.0@ == payload_key(decode_utf8(input@)),
        parts.1@ == payload_text(decode_utf8(input@)),
{
    let text = match utf8_text(input) {
        Some(t) => t,
        None => {
            assert(false);
            return (String::new(), String::new());
        },
    };
    let chars = chars_of(text);
    let ghost s = decode_utf8(input@);
    let mut p: usize = 0;
    while p < chars.len() && chars[p] != '|'
        invariant
            chars@ == s,
            p <= chars@.len(),
            first_bar(s) is Some,
            forall|j: int| 0 <= j < p ==> s[j] != '|',
        decreases chars.len() - p,
    {
        p += 1;
    }
    if p == chars.len() {
        proof {
            let w = choose|i: int| 0 <= i < s.len() && s[i] == '|';
            assert(s[w] != '|');
        }
        assert(false);
    }
    proof {
        lemma_first_bar(s, p as int);
    }
    let key = string_of_range(&chars, 0, p);
    let body = string_of_range(&chars, p + 1, chars.len());
    assert(key@ =~= payload_key(s));
    assert(body@ =~= payload_text(s));
    (key, body)
}

/// Enciphers a `key|text` payload: the text after the first `'|'` is shifted
/// with the key before it.
pub fn split_payload(input: &[u8]) -> (encoded: String)
    requires
        payload_well_formed(input@),
        vigenere_defined(payload_text(decode_utf8(input@)), payload_key(decode_utf8(input@))),
    ensures
        encoded@ == vigenere(payload_text(decode_utf8(input@)), payload_key(decode_utf8(input@))),
{
    let (key, text) = payload_parts(input);
    shift_vig(text.as_str(), key.as_str())
}

// ---------------------------------------------------------------------------
// Laws of the cipher
// ---------------------------------------------------------------------------

/// Enciphering keeps the length of the text, and every character that is
/// not an ASCII letter stays where it was, unchanged.
pub proof fn law_non_letters_unchanged(text: Seq<char>, key: Seq<char>)
    ensures
        vigenere(text, key).len() == text.len(),
        forall|i: int|
            0 <= i < text.len() && !is_alpha(#[trigger] text[i]) ==> vigenere(text, key)[i]
                == text[i],
{
}

/// Two texts with letters at the same positions hold the same number of letters.
pub proof fn lemma_alpha_count_same_shape(a: Seq<char>, b: Seq<char>)
    requires
        a.len() == b.len(),
        forall|i: int| 0 <= i < a.len() ==> is_alpha(#[trigger] a[i]) == is_alpha(b[i]),
    ensures
        alpha_count(a) == alpha_count(b),
    decreases a.len(),
{
    if a.len() > 0 {
        lemma_alpha_count_same_shape(a.drop_last(), b.drop_last());
    }
}

pub open spec fn all_lower(key: Seq<char>) -> bool {
    forall|i: int| 0 <= i < key.len() ==> is_lower(#[trigger] key[i])
}

/// With a nonempty key of lowercase letters every text is accepted,
/// lowercase letters stay lowercase, uppercase letters stay uppercase,
/// and the number of letters is kept.
pub proof fn law_lowercase_key_keeps_case(text: Seq<char>, key: Seq<char>)
    requires
        key.len() > 0,
        all_lower(key),
    ensures
        vigenere_defined(text, key),
        forall|i: int| 0 <= i < text.len() && is_lower(#[trigger] text[i]) ==> is_lower(vigenere(text, key)[i]),
        forall|i: int| 0 <= i < text.len() && is_upper(#[trigger] text[i]) ==> is_upper(vigenere(text, key)[i]),
        alpha_count(vigenere(text, key)) == alpha_count(text),
{
    let out = vigenere(text, key);
    assert forall|i: int| 0 <= i < text.len() implies {
        &&& is_lower(#[trigger] text[i]) ==> is_lower(out[i])
        &&& is_upper(text[i]) ==> is_upper(out[i])
        &&& is_upper(text[i]) ==> upper_key_byte(key_for(text, key, i)) >= 65
        &&& is_alpha(text[i]) == is_alpha(out[i])
    } by {
        let j = alpha_count(text.take(i)) as int;
        let k = key_for(text, key, i);
        assert(0 <= j % (key.len() as int) < key.len());
        assert(is_lower(k));
        if is_lower(text[i]) {
            let x = lower_shift(text[i], k);
            assert(0 <= x);
            assert(0 <= rem26(x) < 26);
        } else if is_upper(text[i]) {
            assert(65 <= upper_key_byte(k) <= 90);
            let x = upper_shift(text[i], k);
            assert(0 <= x);
            assert(0 <= rem26(x) < 26);
        }
    }
    lemma_alpha_count_same_shape(out, text);
}

pub open spec fn all_a(key: Seq<char>) -> bool {
    forall|i: int| 0 <= i < key.len() ==> #[trigger] key[i] == 'a'
}

/// A key made only of `'a'` leaves every text unchanged.
pub proof fn law_key_of_a_is_identity(text: Seq<char>, key: Seq<char>)
    requires
        key.len() > 0,
        all_a(key),
    ensures
        vigenere_defined(text, key),
        vigenere(text, key) == text,
{
    law_lowercase_key_keeps_case(text, key);
    assert forall|i: int| 0 <= i < text.len() implies #[trigger] vigenere(text, key)[i] == text[i] by {
        let j = alpha_count(text.take(i)) as int;
        let k = key_for(text, key, i);
        assert(0 <= j % (key.len() as int) < key.len());
        assert(k == 'a');
        if is_lower(text[i]) {
            assert(rem26(lower_shift(text[i], k)) == text[i] as int - 97);
        } else if is_upper(text[i]) {
            assert(upper_key_byte(k) == 65);
            assert(rem26(upper_shift(text[i], k)) == text[i] as int - 65);
        }
    }
    assert(vigenere(text, key) =~= text);
}

/// Counting letters is additive: the letters of `a + b` are those of `a`
/// and those of `b`.
pub proof fn law_count_additive(a: Seq<char>, b: Seq<char>)
    ensures
        alpha_count(a + b) == alpha_count(a) + alpha_count(b),
    decreases b.len(),
{
    if b.len() == 0 {
        assert(a + b =~= a);
    } else {
        law_count_additive(a, b.drop_last());
        assert((a + b).drop_last() =~= a + b.drop_last());
    }
}

/// The shift that a lowercase key character gives: its distance from `'a'`.
pub open spec fn key_shift(k: char) -> int {
    k as int - 97
}

/// A letter shifted forward by `n` places within its case.
pub open spec fn shift_by(c: char, n: int) -> char {
    if is_lower(c) {
        ((c as int - 97 + n) % 26 + 97) as char
    } else if is_upper(c) {
        ((c as int - 65 + n) % 26 + 65) as char
    } else {
        c
    }
}

proof fn lemma_lower_key_shift(c: char, k: char)
    requires
        is_lower(k),
    ensures
        shift_char(c, k) == shift_by(c, key_shift(k)),
        is_lower(c) ==> is_lower(shift_char(c, k)),
        is_upper(c) ==> is_upper(shift_char(c, k)),
        !is_alpha(c) ==> shift_char(c, k) == c,
{
    if is_upper(c) {
        assert(upper_key_byte(k) == k as int - 32);
    }
}

proof fn lemma_shift_by_twice(c: char, m: int, n: int)
    requires
        0 <= m,
        0 <= n,
    ensures
        shift_by(shift_by(c, m), n) == shift_by(c, m + n),
{
    if is_lower(c) {
        let x = c as int - 97;
        assert(0 <= (x + m) % 26 < 26);
        assert(((x + m) % 26 + n) % 26 == (x + m + n) % 26) by (nonlinear_arith)
            requires
                0 <= x,
                0 <= m,
                0 <= n,
        ;
    } else if is_upper(c) {
        let x = c as int - 65;
        assert(0 <= (x + m) % 26 < 26);
        assert(((x + m) % 26 + n) % 26 == (x + m + n) % 26) by (nonlinear_arith)
            requires
                0 <= x,
                0 <= m,
                0 <= n,
        ;
    }
}

proof fn lemma_alpha_prefixes_same_shape(a: Seq<char>, b: Seq<char>, i: int)
    requires
        a.len() == b.len(),
        0 <= i <= a.len(),
        forall|j: int| 0 <= j < a.len() ==> is_alpha(#[trigger] a[j]) == is_alpha(b[j]),
    ensures
        alpha_count(a.take(i)) == alpha_count(b.take(i)),
{
    lemma_alpha_count_same_shape(a.take(i), b.take(i));
}

/// With a nonempty lowercase key, position `i` of the output is the letter
/// shifted by the key character for it, and the output has its letters
/// where the text has them.
proof fn lemma_lower_key_output(text: Seq<char>, key: Seq<char>)
    requires
        key.len() > 0,
        all_lower(key),
    ensures
        vigenere(text, key).len() == text.len(),
        forall|i: int|
            0 <= i < text.len() ==> #[trigger] vigenere(text, key)[i] == shift_by(
                text[i],
                key_shift(key_for(text, key, i)),
            ) && is_alpha(vigenere(text, key)[i]) == is_alpha(text[i]) && is_lower(
                key_for(text, key, i),
            ),
{
    assert forall|i: int| 0 <= i < text.len() implies #[trigger] vigenere(text, key)[i]
        == shift_by(text[i], key_shift(key_for(text, key, i))) && is_alpha(vigenere(text, key)[i])
        == is_alpha(text[i]) && is_lower(key_for(text, key, i)) by {
        let j = alpha_count(text.take(i)) as int;
        assert(0 <= j % (key.len() as int) < key.len());
        lemma_lower_key_shift(text[i], key_for(text, key, i));
    }
}

/// Enciphering with two lowercase keys in turn does not depend on their
/// order.
pub proof fn law_keys_commute(text: Seq<char>, k1: Seq<char>, k2: Seq<char>)
    requires
        k1.len() > 0,
        all_lower(k1),
        k2.len() > 0,
        all_lower(k2),
    ensures
        vigenere(vigenere(text, k1), k2) == vigenere(vigenere(text, k2), k1),
{
    let a = vigenere(text, k1);
    let b = vigenere(text, k2);
    lemma_lower_key_output(text, k1);
    lemma_lower_key_output(text, k2);
    lemma_lower_key_output(a, k2);
    lemma_lower_key_output(b, k1);
    let ab = vigenere(a, k2);
    let ba = vigenere(b, k1);
    assert forall|i: int| 0 <= i < text.len() implies #[trigger] ab[i] == ba[i] by {
        lemma_alpha_prefixes_same_shape(a, text, i);
        lemma_alpha_prefixes_same_shape(b, text, i);
        let m = key_shift(key_for(text, k1, i));
        let n = key_shift(key_for(text, k2, i));
        assert(key_for(a, k2, i) == key_for(text, k2, i));
        assert(key_for(b, k1, i) == key_for(text, k1, i));
        lemma_shift_by_twice(text[i], m, n);
        lemma_shift_by_twice(text[i], n, m);
        assert(m + n == n + m);
    }
    assert(ab =~= ba);
}

/// The key that undoes a lowercase key: each character replaced by the one
/// that shifts the rest of the way round the alphabet.
pub open spec fn inverse_key(key: Seq<char>) -> Seq<char> {
    Seq::new(key.len(), |i: int| ((26 - key_shift(key[i])) % 26 + 97) as char)
}

/// Enciphering with a lowercase key and then with its inverse key gives
/// the text back.
pub proof fn law_inverse_key_deciphers(text: Seq<char>, key: Seq<char>)
    requires
        key.len() > 0,
        all_lower(key),
    ensures
        all_lower(inverse_key(key)),
        vigenere(vigenere(text, key), inverse_key(key)) == text,
{
    let inv = inverse_key(key);
    assert forall|i: int| 0 <= i < inv.len() implies is_lower(#[trigger] inv[i]) by {
        assert(is_lower(key[i]));
        assert(0 <= (26 - key_shift(key[i])) % 26 < 26);
    }
    let a = vigenere(text, key);
    lemma_lower_key_output(text, key);
    lemma_lower_key_output(a, inv);
    let back = vigenere(a, inv);
    assert forall|i: int| 0 <= i < text.len() implies #[trigger] back[i] == text[i] by {
        lemma_alpha_prefixes_same_shape(a, text, i);
        let j = alpha_count(text.take(i)) as int;
        let q = j % (key.len() as int);
        assert(0 <= q < key.len());
        assert(key_for(a, inv, i) == inv[q]);
        let m = key_shift(key[q]);
        let n = key_shift(inv[q]);
        assert(0 <= m < 26);
        assert(n == (26 - m) % 26);
        assert(0 <= n);
        lemma_shift_by_twice(text[i], m, n);
        let c = text[i];
        if is_lower(c) {
            let x = c as int - 97;
            assert((x + m + n) % 26 == x) by (nonlinear_arith)
                requires
                    0 <= x < 26,
                    0 <= m < 26,
                    n == (26 - m) % 26,
            ;
        } else if is_upper(c) {
            let x = c as int - 65;
            assert((x + m + n) % 26 == x) by (nonlinear_arith)
                requires
                    0 <= x < 26,
                    0 <= m < 26,
                    n == (26 - m) % 26,
            ;
        }
    }
    assert(back =~= text);
}

/// A key written twice over enciphers as the key itself: the key stream
/// is the same.
pub proof fn law_repeated_key(text: Seq<char>, key: Seq<char>)
    requires
        key.len() > 0,
    ensures
        vigenere(text, key + key) == vigenere(text, key),
{
    let kk = key + key;
    let l = key.len() as int;
    assert forall|j: int| 0 <= j implies #[trigger] keystream_char(kk, j) == keystream_char(key, j) by {
        let r = j % (2 * l);
        assert(0 <= r < 2 * l);
        vstd::arithmetic::div_mod::lemma_mod_mod(j, l, 2);
        assert(l * 2 == 2 * l);
        assert(r % l == j % l);
        if r < l {
            assert(r % l == r) by (nonlinear_arith)
                requires
                    0 <= r < l,
            ;
        } else {
            assert(r % l == r - l) by (nonlinear_arith)
                requires
                    l <= r < 2 * l,
            ;
        }
        assert(kk.len() == 2 * l);
    }
    assert forall|i: int| 0 <= i < text.len() implies #[trigger] vigenere(text, kk)[i] == vigenere(
        text,
        key,
    )[i] by {
        assert(keystream_char(kk, alpha_count(text.take(i)) as int) == keystream_char(
            key,
            alpha_count(text.take(i)) as int,
        ));
    }
    assert(vigenere(text, kk) =~= vigenere(text, key));
}

pub open spec fn all_alpha(key: Seq<char>) -> bool {
    forall|i: int| 0 <= i < key.len() ==> is_alpha(#[trigger] key[i])
}

/// The key with each character ASCII lower-cased.
pub open spec fn lowercase_key(key: Seq<char>) -> Seq<char> {
    Seq::new(key.len(), |i: int| ascii_lower_code(key[i]) as char)
}

/// The case of the key's letters does not matter: a nonempty key of ASCII
/// letters enciphers every text as its lower-cased form does, so each key
/// letter shifts by its place in the alphabet.
pub proof fn law_key_case_does_not_matter(text: Seq<char>, key: Seq<char>)
    requires
        key.len() > 0,
        all_alpha(key),
    ensures
        all_lower(lowercase_key(key)),
        vigenere_defined(text, key),
        vigenere(text, key) == vigenere(text, lowercase_key(key)),
{
    let lk = lowercase_key(key);
    assert forall|i: int| 0 <= i < lk.len() implies is_lower(#[trigger] lk[i]) by {
        assert(is_alpha(key[i]));
    }
    assert forall|i: int| 0 <= i < text.len() implies #[trigger] vigenere(text, key)[i]
        == vigenere(text, lk)[i] && (is_upper(text[i]) ==> upper_key_byte(key_for(text, key, i))
        >= 65) by {
        let q = (alpha_count(text.take(i)) as int) % (key.len() as int);
        assert(0 <= q < key.len());
        let k = key[q];
        assert(is_alpha(k));
        assert(key_for(text, lk, i) == lk[q]);
        assert(ascii_lower_code(lk[q]) == ascii_lower_code(k));
        assert(upper_key_byte(lk[q]) == upper_key_byte(k));
        assert(65 <= ascii_upper_code(k) <= 90);
    }
    assert(vigenere(text, key) =~= vigenere(text, lk));
}

/// With a nonempty key of ASCII letters of either case, lowercase letters
/// stay lowercase, uppercase letters stay uppercase, and the number of
/// letters is kept.
pub proof fn law_letter_key_keeps_case(text: Seq<char>, key: Seq<char>)
    requires
        key.len() > 0,
        all_alpha(key),
    ensures
        vigenere_defined(text, key),
        forall|i: int| 0 <= i < text.len() && is_lower(#[trigger] text[i]) ==> is_lower(vigenere(text, key)[i]),
        forall|i: int| 0 <= i < text.len() && is_upper(#[trigger] text[i]) ==> is_upper(vigenere(text, key)[i]),
        alpha_count(vigenere(text, key)) == alpha_count(text),
{
    law_key_case_does_not_matter(text, key);
    law_lowercase_key_keeps_case(text, lowercase_key(key));
}

proof fn lemma_some_first_bar(s: Seq<char>, k: int)
    requires
        0 <= k < s.len(),
        s[k] == '|',
    ensures
        exists|p: int| 0 <= p <= k && s[p] == '|' && forall|j: int| 0 <= j < p ==> s[j] != '|',
    decreases k,
{
    if exists|j: int| 0 <= j < k && s[j] == '|' {
        let j = choose|j: int| 0 <= j < k && s[j] == '|';
        lemma_some_first_bar(s, j);
    } else {
        assert(forall|j: int| 0 <= j < k ==> s[j] != '|');
    }
}

/// A payload with a `'|'` splits without loss at its first `'|'`: the key,
/// a `'|'` and the text make up the payload again, and the key holds no
/// `'|'`, so it is the whole text before the first bar.
pub proof fn law_payload_split_at_first_bar(s: Seq<char>)
    requires
        exists|i: int| 0 <= i < s.len() && s[i] == '|',
    ensures
        payload_key(s) + seq!['|'] + payload_text(s) == s,
        !payload_key(s).contains('|'),
{
    let k = choose|i: int| 0 <= i < s.len() && s[i] == '|';
    lemma_some_first_bar(s, k);
    let p = choose|p: int| 0 <= p <= k && s[p] == '|' && forall|j: int| 0 <= j < p ==> s[j] != '|';
    lemma_first_bar(s, p);
    assert(payload_key(s) + seq!['|'] + payload_text(s) =~= s);
    if payload_key(s).contains('|') {
        let j = choose|j: int| 0 <= j < payload_key(s).len() && payload_key(s)[j] == '|';
        assert(s[j] == '|');
    }
}

} // verus!
