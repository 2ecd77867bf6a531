use translator::text::{chars_of, is_blank_str, replace_chars, strip_controls, strip_trailing_chars, trim_chars};

fn text(v: Vec<char>) -> String {
    v.into_iter().collect()
}

#[test]
fn trimming_uses_unicode_white_space() {
    assert_eq!(text(trim_chars(&chars_of("\u{3000} a b \u{2009}\n"))), "a b");
    assert!(is_blank_str(" \t\u{00A0}\u{2028}"));
    assert!(!is_blank_str(" x "));
    assert!(is_blank_str(""));
}

#[test]
fn trailing_characters_are_stripped() {
    assert_eq!(text(strip_trailing_chars(&chars_of("http://a///"), '/')), "http://a");
    assert_eq!(text(strip_trailing_chars(&chars_of("///"), '/')), "");
}

#[test]
fn replacing_goes_left_to_right() {
    assert_eq!(text(replace_chars(&chars_of("aaaa"), "aa", "b")), "bb");
    assert_eq!(text(replace_chars(&chars_of("aaa"), "aa", "b")), "ba");
    assert_eq!(text(replace_chars(&chars_of("x"), "yy", "z")), "x");
}

#[test]
fn control_characters_are_stripped_but_layout_kept() {
    let cleaned = text(strip_controls(&chars_of("a\u{0}b\nc\r\td\u{7f}e\u{85}f")));
    assert_eq!(cleaned, "ab\nc\r\tdef");
    let again = text(strip_controls(&chars_of(&cleaned)));
    assert_eq!(again, cleaned);
}
