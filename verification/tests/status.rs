use shell::status::parse_status;

#[test]
fn status_plain_digits() {
    assert_eq!(parse_status("0"), Some(0));
    assert_eq!(parse_status("3"), Some(3));
    assert_eq!(parse_status("42"), Some(42));
    assert_eq!(parse_status("007"), Some(7));
}

#[test]
fn status_with_sign() {
    assert_eq!(parse_status("+5"), Some(5));
    assert_eq!(parse_status("-5"), Some(-5));
    assert_eq!(parse_status("-0"), Some(0));
}

#[test]
fn status_at_the_limits() {
    assert_eq!(parse_status("2147483647"), Some(i32::MAX));
    assert_eq!(parse_status("-2147483648"), Some(i32::MIN));
    assert_eq!(parse_status("2147483648"), None);
    assert_eq!(parse_status("-2147483649"), None);
    assert_eq!(parse_status("+2147483648"), None);
    assert_eq!(parse_status("00000000000000000000002147483647"), Some(i32::MAX));
    assert_eq!(parse_status("99999999999999999999999999999999"), None);
}

#[test]
fn status_rejects_what_is_no_number() {
    assert_eq!(parse_status(""), None);
    assert_eq!(parse_status("+"), None);
    assert_eq!(parse_status("-"), None);
    assert_eq!(parse_status("abc"), None);
    assert_eq!(parse_status("1a"), None);
    assert_eq!(parse_status("a1"), None);
    assert_eq!(parse_status("--1"), None);
    assert_eq!(parse_status("+-1"), None);
    assert_eq!(parse_status(" 1"), None);
    assert_eq!(parse_status("1 "), None);
    assert_eq!(parse_status("1.0"), None);
    assert_eq!(parse_status("٣"), None);
    assert_eq!(parse_status("99999999999x"), None);
}

#[test]
fn status_agrees_with_std() {
    let samples = [
        "", "0", "1", "-1", "+1", "+", "-", "12", "0012", "2147483647", "2147483648",
        "-2147483648", "-2147483649", "4294967296", "x", "1x", "-x", "+0", "-00", "1_000", "0x10",
        "１２",
    ];
    for s in samples {
        assert_eq!(parse_status(s), s.parse::<i32>().ok(), "{:?}", s);
    }
}
