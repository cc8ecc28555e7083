use vigenere_udp::cipher::shift_vig_accepts;
use vigenere_udp::{count_chars, lower_char_adjustment, shift_vig, split_payload, upper_char_adjustment};

#[test]
fn shift_vig_lowercase_classic() {
    assert_eq!(shift_vig("hello", "key"), "rijvs");
}

#[test]
fn shift_vig_uppercase_text_lowercase_key() {
    assert_eq!(shift_vig("HELLO", "key"), "RIJVS");
}

#[test]
fn shift_vig_keeps_non_letters_and_counts_only_letters() {
    // the key advances over letters only
    assert_eq!(shift_vig("Hello, World!", "abc"), "Hfnlp, Yosnd!");
}

#[test]
fn shift_vig_wraps_around_the_alphabet() {
    assert_eq!(shift_vig("z", "b"), "a");
    assert_eq!(shift_vig("Z", "b"), "A");
    assert_eq!(shift_vig("zz", "zz"), "yy");
}

#[test]
fn shift_vig_key_of_a_is_identity() {
    let text = "The quick brown Fox, 42 times!";
    assert_eq!(shift_vig(text, "a"), text);
    assert_eq!(shift_vig(text, "aaaa"), text);
}

#[test]
fn shift_vig_key_case_does_not_matter() {
    assert_eq!(shift_vig("a", "A"), "a");
    assert_eq!(shift_vig("a", "B"), "b");
    assert_eq!(shift_vig("hello", "KEY"), "rijvs");
    assert_eq!(shift_vig("Hello World", "LeMoN"), shift_vig("Hello World", "lemon"));
}

#[test]
fn shift_vig_without_letters_accepts_empty_key() {
    assert!(shift_vig_accepts("123 !?", ""));
    assert_eq!(shift_vig("123 !?", ""), "123 !?");
}

#[test]
fn shift_vig_accepts_refuses_what_would_fail() {
    assert!(!shift_vig_accepts("abc", ""));
    // '1' upper-cases to byte 49, below 'A'
    assert!(!shift_vig_accepts("A", "1"));
    // but a lowercase letter takes such a key character
    assert!(shift_vig_accepts("a", "1"));
    assert!(shift_vig_accepts("Hello", "key"));
}

#[test]
fn count_chars_counts_ascii_letters() {
    assert_eq!(count_chars("Hello, World!"), 10);
    assert_eq!(count_chars(""), 0);
    assert_eq!(count_chars("é ß 123"), 0);
}

#[test]
fn char_adjustments_wrap_by_signed_remainder() {
    assert_eq!(lower_char_adjustment(0), 'a');
    assert_eq!(lower_char_adjustment(27), 'b');
    assert_eq!(lower_char_adjustment(-1), '`');
    assert_eq!(lower_char_adjustment(-26), 'a');
    assert_eq!(upper_char_adjustment(25), 'Z');
    assert_eq!(upper_char_adjustment(26), 'A');
    assert_eq!(upper_char_adjustment(-27), '@');
    // 2147483648 = 26 * 82595524 + 24
    assert_eq!(lower_char_adjustment(i32::MIN), 'I');
}

#[test]
fn split_payload_uses_text_before_first_bar_as_key() {
    assert_eq!(split_payload(b"key|hello"), "rijvs");
    assert_eq!(split_payload(b"k|a|b"), "k|l");
    assert_eq!(split_payload(b"|123"), "123");
}

#[test]
fn inverse_key_deciphers() {
    // "key" shifts by 10, 4, 24; its inverse shifts by 16, 22, 2
    let secret = shift_vig("Attack at Dawn!", "key");
    assert_eq!(shift_vig(&secret, "qwc"), "Attack at Dawn!");
}

#[test]
fn two_keys_commute() {
    let t = "Meet me, Bob.";
    assert_eq!(shift_vig(&shift_vig(t, "ab"), "xyz"), shift_vig(&shift_vig(t, "xyz"), "ab"));
}

#[test]
fn doubled_key_is_the_same_key() {
    let t = "repeat the Key";
    assert_eq!(shift_vig(t, "lemonlemon"), shift_vig(t, "lemon"));
}

#[test]
fn count_chars_adds_over_concatenation() {
    assert_eq!(count_chars("ab1C") + count_chars("-d e"), count_chars("ab1C-d e"));
}
