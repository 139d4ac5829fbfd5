use vmpl_run::decimal::{decimal_chars, parse_u64};

fn text(v: usize) -> String {
    decimal_chars(v).into_iter().collect()
}

#[test]
fn parses_proc_value() {
    assert_eq!(parse_u64("65536\n"), Some(65536));
    assert_eq!(parse_u64("0\n"), Some(0));
    assert_eq!(parse_u64("  42  "), Some(42));
    assert_eq!(parse_u64("\t7\r\n"), Some(7));
}

#[test]
fn parses_like_std() {
    for s in [
        "", " ", "+", "-", "-1", "+12", "12a", "1 2", "007", "18446744073709551615",
        "18446744073709551616", "99999999999999999999", "\u{3000}5\u{2029}", "٣",
    ] {
        assert_eq!(parse_u64(s), s.trim().parse::<u64>().ok(), "for {:?}", s);
    }
}

#[test]
fn extremes() {
    assert_eq!(parse_u64("18446744073709551615"), Some(u64::MAX));
    assert_eq!(parse_u64("18446744073709551616"), None);
    assert_eq!(parse_u64("+0"), Some(0));
    assert_eq!(parse_u64("-0"), None);
}

#[test]
fn writes_decimal() {
    assert_eq!(text(0), "0");
    assert_eq!(text(7), "7");
    assert_eq!(text(10), "10");
    assert_eq!(text(1234567), "1234567");
}

#[test]
fn decimal_roundtrip() {
    for v in [0usize, 1, 9, 10, 99, 100, 65536, 4294967295, usize::MAX] {
        assert_eq!(parse_u64(&text(v)), Some(v as u64));
    }
}
