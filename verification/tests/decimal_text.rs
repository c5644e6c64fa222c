use judge_server::decimal::{format_i64, format_u64, parse_i64, parse_u64};
use judge_server::text::{chars_of, is_white_space_char, same_up_to_trailing_white_space, trimmed_len};

#[test]
fn parse_u64_accepts_plain_and_plus() {
    assert_eq!(parse_u64("0"), Some(0));
    assert_eq!(parse_u64("1234"), Some(1234));
    assert_eq!(parse_u64("+42"), Some(42));
    assert_eq!(parse_u64("007"), Some(7));
    assert_eq!(parse_u64("18446744073709551615"), Some(u64::MAX));
}

#[test]
fn parse_u64_rejects_what_std_rejects() {
    for t in ["", "+", "-1", "12a", " 1", "1 ", "1\n", "18446744073709551616", "++1"] {
        assert_eq!(parse_u64(t), None, "{:?}", t);
        assert!(t.parse::<u64>().is_err());
    }
}

#[test]
fn parse_i64_signs_and_bounds() {
    assert_eq!(parse_i64("-5"), Some(-5));
    assert_eq!(parse_i64("+5"), Some(5));
    assert_eq!(parse_i64("9223372036854775807"), Some(i64::MAX));
    assert_eq!(parse_i64("-9223372036854775808"), Some(i64::MIN));
    assert_eq!(parse_i64("9223372036854775808"), None);
    assert_eq!(parse_i64("-9223372036854775809"), None);
    assert_eq!(parse_i64("-"), None);
    assert_eq!(parse_i64("+-1"), None);
    assert_eq!(parse_i64("--1"), None);
}

#[test]
fn parse_agrees_with_std_on_samples() {
    for t in ["0", "1", "-0", "+0", "99", "-99", "4294967296", "x", "", "-", "1_000"] {
        assert_eq!(parse_u64(t), t.parse::<u64>().ok(), "{:?}", t);
        assert_eq!(parse_i64(t), t.parse::<i64>().ok(), "{:?}", t);
    }
}

#[test]
fn format_matches_to_string() {
    for n in [0u64, 7, 10, 99, 100, 12345, u64::MAX] {
        assert_eq!(format_u64(n), n.to_string());
    }
    for n in [0i64, -1, 5, -10, 1000, i64::MAX, i64::MIN] {
        assert_eq!(format_i64(n), n.to_string());
    }
}

#[test]
fn parse_reads_back_what_format_wrote() {
    for n in [0u64, 1, 9, 10, 65535, 1 << 40, u64::MAX] {
        assert_eq!(parse_u64(&format_u64(n)), Some(n));
    }
    for n in [0i64, -1, 1, -1000, 123456789, i64::MIN, i64::MAX] {
        assert_eq!(parse_i64(&format_i64(n)), Some(n));
    }
    assert_eq!(parse_u64(&format_i64(250)), Some(250));
    assert_eq!(parse_u64(&format_i64(-250)), None);
}

#[test]
fn chars_of_keeps_every_char() {
    assert_eq!(chars_of("aé\u{3000}z"), vec!['a', 'é', '\u{3000}', 'z']);
    assert_eq!(chars_of(""), Vec::<char>::new());
}

#[test]
fn white_space_is_std_white_space() {
    for c in ['\t', '\n', '\u{b}', '\u{c}', '\r', ' ', '\u{85}', '\u{a0}', '\u{1680}', '\u{2000}',
        '\u{200a}', '\u{2028}', '\u{2029}', '\u{202f}', '\u{205f}', '\u{3000}', 'a', '0', '\u{200b}',
        '\u{1f}', '\u{feff}']
    {
        assert_eq!(is_white_space_char(c), c.is_whitespace(), "{:?}", c);
    }
}

#[test]
fn trimmed_len_matches_trim_end() {
    for t in ["", "   ", "abc", "abc \n\t", " a b ", "x\u{3000}", "\u{a0}y\u{a0}"] {
        let v: Vec<char> = t.chars().collect();
        assert_eq!(trimmed_len(&v), t.trim_end().chars().count(), "{:?}", t);
    }
}

#[test]
fn outputs_compared_without_trailing_white_space() {
    assert!(same_up_to_trailing_white_space("1 2 3\n", "1 2 3"));
    assert!(same_up_to_trailing_white_space("1 2 3", "1 2 3\r\n\n"));
    assert!(same_up_to_trailing_white_space("", "\n"));
    assert!(!same_up_to_trailing_white_space(" 1", "1"));
    assert!(!same_up_to_trailing_white_space("1 2", "1  2"));
    assert!(!same_up_to_trailing_white_space("12", "1"));
    assert!(!same_up_to_trailing_white_space("YES", "yes"));
}
