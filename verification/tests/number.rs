use tasklist::number::parse_number;

#[test]
fn parse_number_reads_plain_digits() {
    assert_eq!(parse_number("0"), Some(0));
    assert_eq!(parse_number("1"), Some(1));
    assert_eq!(parse_number("9"), Some(9));
    assert_eq!(parse_number("10"), Some(10));
    assert_eq!(parse_number("42"), Some(42));
    assert_eq!(parse_number("1234567890"), Some(1234567890));
}

#[test]
fn parse_number_takes_a_leading_plus_and_zeros() {
    assert_eq!(parse_number("+5"), Some(5));
    assert_eq!(parse_number("+0"), Some(0));
    assert_eq!(parse_number("007"), Some(7));
    assert_eq!(parse_number("+007"), Some(7));
    assert_eq!(parse_number("0000000000000000000000000000000000000012"), Some(12));
}

#[test]
fn parse_number_refuses_what_is_no_number() {
    for s in [
        "", "+", "-", "-1", "-0", "++1", "+-1", "1+", "1 ", " 1", "1.5", "1e3", "0x10", "1_000",
        "one", "x", "12a", "a12", "١٢", "１２", "²", "1\u{a0}", "+ 1",
    ] {
        assert_eq!(parse_number(s), None, "reading {:?}", s);
    }
}

#[test]
fn parse_number_stops_at_the_largest_usize() {
    let largest = usize::MAX.to_string();
    assert_eq!(parse_number(&largest), Some(usize::MAX));
    assert_eq!(parse_number(&format!("+{}", largest)), Some(usize::MAX));
    assert_eq!(parse_number(&format!("000{}", largest)), Some(usize::MAX));
    let mut above = (usize::MAX / 10).to_string();
    let last = (usize::MAX % 10) as u8;
    if last < 9 {
        above.push((b'0' + last + 1) as char);
        assert_eq!(parse_number(&above), None);
    }
    assert_eq!(parse_number(&format!("{}0", largest)), None);
    assert_eq!(parse_number(&format!("1{}", largest)), None);
    assert_eq!(parse_number("99999999999999999999999999999999999999999"), None);
    assert_eq!(parse_number("99999999999999999999999999999999999999999x"), None);
}

#[test]
fn parse_number_agrees_with_str_parse() {
    let largest = usize::MAX.to_string();
    let above = format!("{}1", largest);
    let samples = [
        "", "0", "1", "+1", "-1", "+", "00", "010", "999", "18446744073709551615",
        "18446744073709551616", "18446744073709551614", "4294967295", "4294967296", "1 2", "12é",
        "+12", "12+", " ", "٣", largest.as_str(), above.as_str(),
    ];
    for s in samples {
        assert_eq!(parse_number(s), s.parse::<usize>().ok(), "reading {:?}", s);
    }
    for n in 0..2000usize {
        let s = n.to_string();
        assert_eq!(parse_number(&s), Some(n));
    }
}
