use rust_demos::text::{
    chars_of, contains_chars, find_char, line_bounds, parse_usize, split_bounds, string_from_chars,
    trim_bounds, usize_to_string, IntErrorKind,
};

fn parse(s: &str) -> Result<usize, IntErrorKind> {
    let cs = chars_of(s);
    parse_usize(&cs, 0, cs.len())
}

fn trimmed(s: &str) -> String {
    let cs = chars_of(s);
    let (a, b) = trim_bounds(&cs, 0, cs.len());
    string_from_chars(&cs, a, b)
}

#[test]
fn trim_removes_unicode_whitespace() {
    assert_eq!(trimmed("  Host \t"), "Host");
    assert_eq!(trimmed("\u{a0}x y\u{3000}"), "x y");
    assert_eq!(trimmed("   "), "");
    assert_eq!(trimmed(""), "");
}

#[test]
fn parse_usize_like_std() {
    assert_eq!(parse("42"), Ok(42));
    assert_eq!(parse("+7"), Ok(7));
    assert_eq!(parse("007"), Ok(7));
    assert_eq!(parse(""), Err(IntErrorKind::Empty));
    assert_eq!(parse("+"), Err(IntErrorKind::InvalidDigit));
    assert_eq!(parse("-"), Err(IntErrorKind::InvalidDigit));
    assert_eq!(parse("-1"), Err(IntErrorKind::InvalidDigit));
    assert_eq!(parse("12a"), Err(IntErrorKind::InvalidDigit));
    assert_eq!(parse(" 1"), Err(IntErrorKind::InvalidDigit));
    assert_eq!(parse("99999999999999999999999"), Err(IntErrorKind::PosOverflow));
    assert_eq!(parse("18446744073709551615"), Ok(usize::MAX));
    for s in ["", "+", "-", "1", "+1", "x", "99999999999999999999999", "3 "] {
        assert_eq!(parse(s).ok(), s.parse::<usize>().ok(), "{}", s);
    }
}

#[test]
fn decimal_text_round_trips() {
    for n in [0usize, 5, 10, 99, 100, 12345, usize::MAX] {
        let s = usize_to_string(n);
        assert_eq!(s, n.to_string());
        assert_eq!(parse(&s), Ok(n));
    }
}

#[test]
fn split_find_contains_lines() {
    let cs = chars_of("GET /index.html HTTP/1.1");
    let parts = split_bounds(&cs, 0, cs.len(), ' ');
    let words: Vec<String> = parts.iter().map(|(a, b)| string_from_chars(&cs, *a, *b)).collect();
    assert_eq!(words, vec!["GET", "/index.html", "HTTP/1.1"]);
    let cs2 = chars_of("a  b");
    assert_eq!(split_bounds(&cs2, 0, cs2.len(), ' ').len(), 3);
    assert_eq!(split_bounds(&cs2, 0, 0, ' '), vec![(0, 0)]);
    let h = chars_of("Host: a:b");
    assert_eq!(find_char(&h, 0, h.len(), ':'), Some(4));
    assert_eq!(find_char(&h, 5, h.len(), ':'), Some(7));
    assert_eq!(find_char(&h, 0, 3, ':'), None);
    let q = chars_of("st:");
    assert!(contains_chars(&h, 0, h.len(), &q));
    assert!(!contains_chars(&h, 3, h.len(), &q));
    assert!(contains_chars(&h, 0, 0, &[]));
    let t = chars_of("one\r\ntwo\n\nthree\r");
    let lines: Vec<String> = line_bounds(&t).iter().map(|(a, b)| string_from_chars(&t, *a, *b)).collect();
    assert_eq!(lines, "one\r\ntwo\n\nthree\r".lines().map(String::from).collect::<Vec<_>>());
}
