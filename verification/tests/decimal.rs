use gitsync::decimal::{format_decimal, parse_usize, push_decimal};

#[test]
fn format_decimal_values() {
    assert_eq!(format_decimal(0), b"0");
    assert_eq!(format_decimal(7), b"7");
    assert_eq!(format_decimal(10), b"10");
    assert_eq!(format_decimal(27), b"27");
    assert_eq!(format_decimal(1_000_000), b"1000000");
    assert_eq!(format_decimal(usize::MAX), usize::MAX.to_string().as_bytes());
}

#[test]
fn push_decimal_appends() {
    let mut out = b"blob ".to_vec();
    push_decimal(&mut out, 405);
    assert_eq!(out, b"blob 405");
}

#[test]
fn parse_usize_values() {
    assert_eq!(parse_usize(b"0"), Some(0));
    assert_eq!(parse_usize(b"27"), Some(27));
    assert_eq!(parse_usize(b"0027"), Some(27));
    assert_eq!(parse_usize(b"+27"), Some(27));
    assert_eq!(parse_usize(usize::MAX.to_string().as_bytes()), Some(usize::MAX));
}

#[test]
fn parse_usize_refuses() {
    assert_eq!(parse_usize(b""), None);
    assert_eq!(parse_usize(b"+"), None);
    assert_eq!(parse_usize(b"-1"), None);
    assert_eq!(parse_usize(b"1 "), None);
    assert_eq!(parse_usize(b" 1"), None);
    assert_eq!(parse_usize(b"1+"), None);
    assert_eq!(parse_usize(b"12a"), None);
    assert_eq!(parse_usize(b"0x10"), None);
    assert_eq!(parse_usize(b"18446744073709551616"), None);
    assert_eq!(parse_usize(b"99999999999999999999999999"), None);
    assert_eq!(parse_usize(b"99999999999999999999999999x"), None);
}

#[test]
fn parse_undoes_format() {
    for n in [0usize, 1, 9, 10, 99, 100, 12345, usize::MAX - 1, usize::MAX] {
        assert_eq!(parse_usize(&format_decimal(n)), Some(n));
    }
}
