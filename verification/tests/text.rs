use niri_bar::text::{chars_of, decimal_chars, parse_u32_chars, string_of, trim_chars};

fn parse(s: &str) -> Option<u32> {
    parse_u32_chars(&chars_of(s))
}

#[test]
fn parses_u32_like_std() {
    for s in ["0", "42", "+7", "007", "4294967295", "4294967296", "", "+", "-1", "1a", " 1", "99999999999999"] {
        assert_eq!(parse(s), s.parse::<u32>().ok(), "input {:?}", s);
    }
}

#[test]
fn decimal_matches_display() {
    for n in [0usize, 7, 10, 99, 100, 12345, usize::MAX] {
        assert_eq!(string_of(&decimal_chars(n)), n.to_string());
    }
}

#[test]
fn trims_unicode_whitespace_like_std() {
    for s in ["  a b  ", "\u{a0}x\u{3000}", "\t\r\n", "", "\u{200b}z"] {
        assert_eq!(string_of(&trim_chars(&chars_of(s))), s.trim());
    }
}
