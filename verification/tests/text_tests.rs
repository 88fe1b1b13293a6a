use bosbase::text::all_whitespace;
use bosbase::text::chars_eq;
use bosbase::text::chars_of;
use bosbase::text::contains_char;
use bosbase::text::find_char;
use bosbase::text::is_space;
use bosbase::text::skip_leading;
use bosbase::text::skip_leading_whitespace;
use bosbase::text::starts_with;
use bosbase::text::string_of;
use bosbase::text::strip_line_end;
use bosbase::text::strip_newlines;
use bosbase::text::strip_trailing_whitespace;
use bosbase::text::sub_chars;
use bosbase::text::trimmed;

#[test]
fn chars_round_trip() {
    let chars = chars_of("héllo ✓");
    assert_eq!(chars.len(), 7);
    assert_eq!(chars[1], 'é');
    assert_eq!(string_of(&chars), "héllo ✓");
    assert_eq!(string_of(&chars_of("")), "");
}

#[test]
fn sub_chars_takes_the_range() {
    let chars = chars_of("abcdef");
    assert_eq!(string_of(&sub_chars(&chars, 1, 4)), "bcd");
    assert_eq!(string_of(&sub_chars(&chars, 0, 0)), "");
    assert_eq!(string_of(&sub_chars(&chars, 6, 6)), "");
    assert_eq!(string_of(&sub_chars(&chars, 0, 6)), "abcdef");
}

#[test]
fn whitespace_is_the_unicode_property() {
    for c in [' ', '\t', '\n', '\r', '\u{0B}', '\u{0C}', '\u{85}', '\u{A0}', '\u{1680}', '\u{2000}', '\u{200A}', '\u{2028}', '\u{2029}', '\u{202F}', '\u{205F}', '\u{3000}'] {
        assert!(is_space(c));
    }
    for c in ['a', '0', ':', '\u{200B}', '\u{FEFF}', '\u{1F}', '\u{2010}'] {
        assert!(!is_space(c));
    }
}

#[test]
fn whitespace_agrees_with_std_on_every_char() {
    let mut n: u32 = 0;
    while n <= 0x10FFFF {
        if let Some(c) = char::from_u32(n) {
            assert_eq!(is_space(c), c.is_whitespace());
        }
        n += 1;
    }
}

#[test]
fn find_char_gives_first_index_or_length() {
    let chars = chars_of("a:b:c");
    assert_eq!(find_char(&chars, ':'), 1);
    assert_eq!(find_char(&chars, 'c'), 4);
    assert_eq!(find_char(&chars, 'z'), 5);
    assert_eq!(find_char(&chars_of(""), 'z'), 0);
    assert!(contains_char(&chars, 'b'));
    assert!(!contains_char(&chars, '?'));
}

#[test]
fn starts_with_and_equality() {
    let chars = chars_of("topic?x");
    assert!(starts_with(&chars, &chars_of("topic")));
    assert!(starts_with(&chars, &chars_of("")));
    assert!(starts_with(&chars, &chars_of("topic?x")));
    assert!(!starts_with(&chars, &chars_of("topic?xy")));
    assert!(!starts_with(&chars, &chars_of("Topic")));
    assert!(chars_eq(&chars, &chars_of("topic?x")));
    assert!(!chars_eq(&chars, &chars_of("topic?y")));
    assert!(!chars_eq(&chars, &chars_of("topic")));
}

#[test]
fn trimming() {
    assert_eq!(string_of(&skip_leading_whitespace(&chars_of(" \t x y "))), "x y ");
    assert_eq!(string_of(&skip_leading_whitespace(&chars_of("   "))), "");
    assert_eq!(string_of(&skip_leading_whitespace(&chars_of("x"))), "x");
    assert_eq!(string_of(&strip_line_end(&chars_of("line\r\n"))), "line");
    assert_eq!(string_of(&strip_line_end(&chars_of("line\n\n\r"))), "line");
    assert_eq!(string_of(&strip_line_end(&chars_of("li\nne"))), "li\nne");
    assert_eq!(string_of(&strip_line_end(&chars_of("\r\n"))), "");
    assert_eq!(string_of(&strip_newlines(&chars_of("a\n\n"))), "a");
    assert_eq!(string_of(&strip_newlines(&chars_of("a\r\n"))), "a\r");
    assert_eq!(string_of(&skip_leading(&chars_of("///a/b"), '/')), "a/b");
    assert_eq!(string_of(&skip_leading(&chars_of("a/b"), '/')), "a/b");
    assert_eq!(string_of(&skip_leading(&chars_of("//"), '/')), "");
}

#[test]
fn trimming_both_ends_like_std() {
    for s in ["", " ", "a", " a", "a ", " \t a b \u{A0}\n", "\u{3000}x\u{2009}", "  ", "x y"] {
        assert_eq!(string_of(&trimmed(&chars_of(s))), s.trim());
        assert_eq!(string_of(&strip_trailing_whitespace(&chars_of(s))), s.trim_end());
    }
}

#[test]
fn blank_texts() {
    assert!(all_whitespace(&chars_of("")));
    assert!(all_whitespace(&chars_of(" \n\t")));
    assert!(!all_whitespace(&chars_of(" \n x")));
}
