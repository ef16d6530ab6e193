use rhc_bot::text::{is_whitespace, replace, starts_with, str_eq, strip_suffix, trim};

#[test]
fn white_space_is_that_of_unicode() {
    for n in 0..=0x10_ffff_u32 {
        if let Some(c) = char::from_u32(n) {
            assert_eq!(is_whitespace(c), c.is_whitespace(), "{n:x}");
        }
    }
}

#[test]
fn trims_as_the_standard_library_does() {
    for s in ["", " ", "a", " a b\t\n", "\u{3000}中文 \u{85}", "\u{200b}a", "\r\n12\r\n"] {
        assert_eq!(trim(s), s.trim());
    }
}

#[test]
fn replaces_from_left_to_right_without_overlap() {
    for (s, from, to) in [
        ("aaa", "aa", "b"),
        ("", "x", "y"),
        ("{fullname}{fullname}", "{fullname}", "{fullname}!"),
        ("中文\\n中文\\n", "\\n", "\n"),
        ("abc", "abcd", "x"),
        ("xabx", "ab", ""),
    ] {
        assert_eq!(replace(s, from, to), s.replace(from, to));
    }
}

#[test]
fn an_absent_text_is_not_replaced() {
    assert_eq!(replace("Welcome!", "{fullname}", "Alice"), "Welcome!");
}

#[test]
fn strips_a_suffix_as_often_as_it_stands_there() {
    assert_eq!(strip_suffix("5.log", ".log"), "5");
    assert_eq!(strip_suffix("5.log.log", ".log"), "5");
    assert_eq!(strip_suffix("5.logs", ".log"), "5.logs");
    assert_eq!(strip_suffix(".log", ".log"), "");
    assert_eq!(strip_suffix("", ".log"), "");
}

#[test]
fn compares_texts_and_prefixes() {
    assert!(str_eq("验证", "验证"));
    assert!(!str_eq("验证", "验"));
    assert!(!str_eq("a", "b"));
    assert!(starts_with("/start verify", "/start"));
    assert!(starts_with("/start", "/start"));
    assert!(!starts_with("/star", "/start"));
    assert!(!starts_with(" /start", "/start"));
}
