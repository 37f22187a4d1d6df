use fib_bench::parse::parse_u64;

#[test]
fn parses_valid_numbers() {
    assert_eq!(parse_u64("0".as_bytes()), Some(0));
    assert_eq!(parse_u64("12345".as_bytes()), Some(12345));
    assert_eq!(parse_u64("+7".as_bytes()), Some(7));
    assert_eq!(parse_u64("007".as_bytes()), Some(7));
    assert_eq!(parse_u64("18446744073709551615".as_bytes()), Some(u64::MAX));
}

#[test]
fn rejects_malformed_numbers() {
    assert_eq!(parse_u64("".as_bytes()), None);
    assert_eq!(parse_u64("+".as_bytes()), None);
    assert_eq!(parse_u64("abc".as_bytes()), None);
    assert_eq!(parse_u64("12x".as_bytes()), None);
    assert_eq!(parse_u64("-5".as_bytes()), None);
    assert_eq!(parse_u64(" 5".as_bytes()), None);
    assert_eq!(parse_u64("1 2".as_bytes()), None);
    assert_eq!(parse_u64("++1".as_bytes()), None);
    assert_eq!(parse_u64("3.5".as_bytes()), None);
}

#[test]
fn rejects_values_too_large_for_u64() {
    assert_eq!(parse_u64("18446744073709551616".as_bytes()), None);
    assert_eq!(parse_u64("99999999999999999999999".as_bytes()), None);
}

#[test]
fn agrees_with_std_parsing() {
    let cases = [
        "0",
        "42",
        "+42",
        "010",
        "18446744073709551615",
        "18446744073709551616",
        "",
        "+",
        "x",
        "3.5",
        "-1",
        "+0",
    ];
    for c in cases {
        assert_eq!(parse_u64(c.as_bytes()), c.parse::<u64>().ok());
    }
}
