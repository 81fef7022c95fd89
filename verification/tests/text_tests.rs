use celestial::text::{chars_of, lines_of, parse_u64, parse_unsigned, push_decimal, split_chars};

fn chars(s: &str) -> Vec<char> {
    s.chars().collect()
}

fn texts(v: &Vec<Vec<char>>) -> Vec<String> {
    v.iter().map(|c| c.iter().collect()).collect()
}

#[test]
fn parse_u64_reads_plain_digits() {
    assert_eq!(parse_u64("42"), Some(42));
    assert_eq!(parse_u64("0"), Some(0));
    assert_eq!(parse_u64("007"), Some(7));
}

#[test]
fn parse_u64_accepts_one_plus_sign() {
    assert_eq!(parse_u64("+7"), Some(7));
    assert_eq!(parse_u64("+"), None);
    assert_eq!(parse_u64("++7"), None);
}

#[test]
fn parse_u64_rejects_what_from_str_rejects() {
    for bad in ["", "-1", "-0", " 1", "1 ", "1a", "١"] {
        assert_eq!(parse_u64(bad), None, "{bad:?}");
        assert!(bad.parse::<u64>().is_err());
    }
}

#[test]
fn parse_u64_limits() {
    assert_eq!(parse_u64("18446744073709551615"), Some(u64::MAX));
    assert_eq!(parse_u64("18446744073709551616"), None);
    assert_eq!(parse_u64("99999999999999999999999"), None);
}

#[test]
fn parse_unsigned_with_u32_limit() {
    assert_eq!(parse_unsigned(&chars("4294967295"), u32::MAX as u64), Some(4294967295));
    assert_eq!(parse_unsigned(&chars("4294967296"), u32::MAX as u64), None);
}

#[test]
fn parse_agrees_with_std() {
    for s in ["12", "+12", "", "x", "4294967296", "18446744073709551615", "-3"] {
        assert_eq!(parse_u64(s), s.parse::<u64>().ok(), "{s:?}");
        assert_eq!(
            parse_unsigned(&chars(s), u32::MAX as u64),
            s.parse::<u32>().ok().map(|v| v as u64),
            "{s:?}"
        );
    }
}

#[test]
fn decimal_roundtrip_law() {
    for n in [0u64, 1, 9, 10, 99, 100, 12345, u64::MAX] {
        let mut out = Vec::new();
        push_decimal(n, &mut out);
        let text: String = out.iter().collect();
        assert_eq!(text, n.to_string());
        assert_eq!(parse_u64(&text), Some(n));
    }
}

#[test]
fn split_matches_str_split() {
    for (s, sep) in [("a=b", '='), ("", '='), ("==", '='), ("a-b-c", '-'), ("abc", ',')] {
        let expected: Vec<String> = s.split(sep).map(|p| p.to_string()).collect();
        assert_eq!(texts(&split_chars(&chars(s), sep)), expected, "{s:?}");
    }
}

#[test]
fn lines_match_str_lines() {
    for s in ["", "\n", "a", "a\n", "a\r\nb\n", "a\r", "a\n\nb", "\r\n\r\n", "x\ry\n"] {
        let expected: Vec<String> = s.lines().map(|l| l.to_string()).collect();
        assert_eq!(texts(&lines_of(&chars(s))), expected, "{s:?}");
    }
}

#[test]
fn chars_and_strings_roundtrip() {
    let s = "héllo wörld ✓";
    assert_eq!(chars_of(s), s.chars().collect::<Vec<_>>());
    assert_eq!(chars_of(s).iter().collect::<String>(), s);
}
