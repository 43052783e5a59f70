use marginalia::text::{
    char_is_whitespace, eq_ignore_ascii_case, find_first, find_last, fold_char, parse_u16,
    same_text, starts_with, starts_with_dash, strip_prefix, trim,
};

#[test]
fn starts_with_compares_characters() {
    assert!(starts_with("--out=x", "--out="));
    assert!(starts_with("abc", ""));
    assert!(starts_with("", ""));
    assert!(!starts_with("--ou", "--out"));
    assert!(!starts_with("-+out", "--out"));
    assert!(starts_with("éa", "é"));
}

#[test]
fn strip_prefix_gives_the_rest() {
    assert_eq!(strip_prefix("http://host", "http://"), Some("host"));
    assert_eq!(strip_prefix("http://", "http://"), Some(""));
    assert_eq!(strip_prefix("https://host", "http://"), None);
    assert_eq!(strip_prefix("éü", "é"), Some("ü"));
}

#[test]
fn same_text_is_equality() {
    assert!(same_text("open", "open"));
    assert!(!same_text("open", "opens"));
    assert!(!same_text("opens", "open"));
    assert!(!same_text("open", "oped"));
    assert!(same_text("", ""));
}

#[test]
fn dash_is_seen_at_the_front_only() {
    assert!(starts_with_dash("-"));
    assert!(starts_with_dash("--x"));
    assert!(!starts_with_dash("x-"));
    assert!(!starts_with_dash(""));
}

#[test]
fn find_first_and_last_give_positions() {
    assert_eq!(find_first("a/b/c", '/'), 1);
    assert_eq!(find_first("abc", '/'), 3);
    assert_eq!(find_first("", '/'), 0);
    assert_eq!(find_last("a:b:c", ':'), Some(3));
    assert_eq!(find_last(":", ':'), Some(0));
    assert_eq!(find_last("abc", ':'), None);
    assert_eq!(find_first("é/", '/'), 1);
}

#[test]
fn trim_agrees_with_the_standard_library() {
    for s in ["", " ", "a", "  a b  ", "\t\n x \r\n", "\u{85}x\u{a0}", "\u{1680}\u{2000}\u{200a}y\u{2028}\u{2029}\u{202f}\u{205f}\u{3000}", "\u{200b}z\u{200b}", "x\u{b}\u{c}"] {
        assert_eq!(trim(s), s.trim());
    }
}

#[test]
fn whitespace_is_the_unicode_property() {
    let mut code = 0u32;
    while code <= 0x3100 {
        if let Some(c) = char::from_u32(code) {
            assert_eq!(char_is_whitespace(c), c.is_whitespace());
        }
        code += 1;
    }
    assert!(!char_is_whitespace('\u{feff}'));
}

#[test]
fn parse_u16_agrees_with_the_standard_library() {
    for s in ["0", "7", "80", "1420", "65535", "65536", "99999", "000001", "+5", "+", "", "-1", "-0", "1 ", " 1", "12a", "a", "٣", "++1", "4294967296", "0000000000000000000000000065535"] {
        assert_eq!(parse_u16(s), s.parse::<u16>().ok());
    }
    assert_eq!(parse_u16("1420"), Some(1420));
    assert_eq!(parse_u16("65536"), None);
}

#[test]
fn case_of_ascii_letters_is_ignored() {
    assert!(eq_ignore_ascii_case("LOCALHOST", "localhost"));
    assert!(eq_ignore_ascii_case("LocalHost", "lOCALhOST"));
    assert!(!eq_ignore_ascii_case("localhost", "localhos"));
    assert!(!eq_ignore_ascii_case("localhost", "localhose"));
    assert!(!eq_ignore_ascii_case("É", "é"));
    assert!(!eq_ignore_ascii_case("@", "`"));
    assert!(!eq_ignore_ascii_case("[", "{"));
    assert_eq!(fold_char('A'), 97);
    assert_eq!(fold_char('Z'), 122);
    assert_eq!(fold_char('a'), 97);
    assert_eq!(fold_char('['), 91);
}
