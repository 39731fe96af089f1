use todo_lists::number::{format_number, parse_number};

#[test]
fn digits_are_read_as_a_number() {
    assert_eq!(parse_number("0"), Some(0));
    assert_eq!(parse_number("7"), Some(7));
    assert_eq!(parse_number("12"), Some(12));
    assert_eq!(parse_number("1234567890"), Some(1234567890));
}

#[test]
fn leading_zeros_and_plus_sign_are_read() {
    assert_eq!(parse_number("007"), Some(7));
    assert_eq!(parse_number("+5"), Some(5));
    assert_eq!(parse_number("+0012"), Some(12));
}

#[test]
fn what_is_no_number_is_refused() {
    assert_eq!(parse_number(""), None);
    assert_eq!(parse_number("+"), None);
    assert_eq!(parse_number("++1"), None);
    assert_eq!(parse_number("-1"), None);
    assert_eq!(parse_number("-0"), None);
    assert_eq!(parse_number("1a"), None);
    assert_eq!(parse_number("a1"), None);
    assert_eq!(parse_number(" 1"), None);
    assert_eq!(parse_number("1 "), None);
    assert_eq!(parse_number("1_000"), None);
    assert_eq!(parse_number("1.5"), None);
    assert_eq!(parse_number("\u{663}"), None);
    assert_eq!(parse_number("in"), None);
}

#[test]
fn number_too_large_for_the_machine_is_refused() {
    let max = usize::MAX.to_string();
    assert_eq!(parse_number(&max), Some(usize::MAX));
    let mut beyond = max.clone();
    beyond.push('0');
    assert_eq!(parse_number(&beyond), None);
    assert_eq!(parse_number("340282366920938463463374607431768211456"), None);
    if usize::MAX == 18446744073709551615 {
        assert_eq!(parse_number("18446744073709551616"), None);
        assert_eq!(parse_number("18446744073709551615"), Some(usize::MAX));
    }
}

#[test]
fn reading_agrees_with_the_standard_library() {
    for word in ["0", "1", "+1", "-1", "", "+", "12x", "0009", "99999999999999999999999", "4294967296"] {
        assert_eq!(parse_number(word), word.parse::<usize>().ok(), "{:?}", word);
    }
}

#[test]
fn number_is_written_in_decimal() {
    assert_eq!(format_number(0), "0");
    assert_eq!(format_number(7), "7");
    assert_eq!(format_number(10), "10");
    assert_eq!(format_number(12345), "12345");
    assert_eq!(format_number(1000000), "1000000");
    assert_eq!(format_number(usize::MAX), usize::MAX.to_string());
}

#[test]
fn written_number_reads_back() {
    for n in [0usize, 1, 9, 10, 11, 99, 100, 101, 65535, usize::MAX] {
        assert_eq!(parse_number(&format_number(n)), Some(n));
    }
}
