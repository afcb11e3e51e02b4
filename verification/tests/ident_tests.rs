use quiz::ident::parse_id;

#[test]
fn parse_id_reads_plain_numbers() {
    assert_eq!(parse_id("0"), Some(0));
    assert_eq!(parse_id("1"), Some(1));
    assert_eq!(parse_id("42"), Some(42));
    assert_eq!(parse_id("007"), Some(7));
}

#[test]
fn parse_id_reads_signs() {
    assert_eq!(parse_id("+5"), Some(5));
    assert_eq!(parse_id("-5"), Some(-5));
    assert_eq!(parse_id("-0"), Some(0));
}

#[test]
fn parse_id_reads_the_limits_of_i32() {
    assert_eq!(parse_id("2147483647"), Some(i32::MAX));
    assert_eq!(parse_id("-2147483648"), Some(i32::MIN));
    assert_eq!(parse_id("2147483648"), None);
    assert_eq!(parse_id("-2147483649"), None);
    assert_eq!(parse_id("99999999999999999999999"), None);
}

#[test]
fn parse_id_refuses_what_is_no_number() {
    assert_eq!(parse_id(""), None);
    assert_eq!(parse_id("+"), None);
    assert_eq!(parse_id("-"), None);
    assert_eq!(parse_id(" 1"), None);
    assert_eq!(parse_id("1 "), None);
    assert_eq!(parse_id("1a"), None);
    assert_eq!(parse_id("--1"), None);
    assert_eq!(parse_id("+-1"), None);
    assert_eq!(parse_id("١٢"), None);
    assert_eq!(parse_id("9999999999999x"), None);
}

#[test]
fn parse_id_agrees_with_std_parsing() {
    let samples = [
        "", "0", "-0", "+0", "12", "-12", "+12", "abc", "1.5", "1e3", "0x10", "2147483647",
        "2147483648", "-2147483648", "-2147483649", "0000000000000000000000000001", "+", "-",
        "++1", "1-", " ", "٣", "12345678901", "-00042", "\u{0}", "9\n",
    ];
    for s in samples.iter() {
        assert_eq!(parse_id(s), s.parse::<i32>().ok(), "input {:?}", s);
    }
}
