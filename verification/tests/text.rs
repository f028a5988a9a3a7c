use cs39::text::{chars_of, decimal_string, matches_at, parse_digits, parse_u32, parse_unsigned};

#[test]
fn numbers_are_written_in_decimal() {
    assert_eq!(decimal_string(0), "0");
    assert_eq!(decimal_string(7), "7");
    assert_eq!(decimal_string(10), "10");
    assert_eq!(decimal_string(1234567890), "1234567890");
    assert_eq!(decimal_string(u128::MAX), "340282366920938463463374607431768211455");
}

#[test]
fn written_numbers_read_back() {
    for n in [0u128, 9, 10, 99, 100, 4294967295, u128::MAX] {
        assert_eq!(parse_unsigned(&decimal_string(n), u128::MAX), Some(n));
    }
}

#[test]
fn unsigned_numbers_are_read_as_the_standard_library_does() {
    for text in ["0", "7", "+7", "007", "4294967295", "4294967296", "", "+", "-1", "1 ", " 1",
        "1_000", "++1", "1+", "0x10", "٣"]
    {
        assert_eq!(parse_u32(text), text.parse::<u32>().ok(), "{:?}", text);
    }
}

#[test]
fn numbers_beyond_the_limit_are_not_read() {
    assert_eq!(parse_unsigned("100", 100), Some(100));
    assert_eq!(parse_unsigned("101", 100), None);
    assert_eq!(parse_unsigned("340282366920938463463374607431768211456", u128::MAX), None);
    assert_eq!(parse_unsigned("99999999999999999999999999999999999999999999", u128::MAX), None);
}

#[test]
fn digits_are_read_between_indices() {
    let v = chars_of("ab0123cd");
    assert_eq!(parse_digits(&v, 2, 6, 1000), Some(123));
    assert_eq!(parse_digits(&v, 3, 6, 122), None);
    assert_eq!(parse_digits(&v, 4, 4, 0), Some(0));
}

#[test]
fn literals_are_found_in_place() {
    let v = chars_of("[KERNEL x]");
    assert!(matches_at(&v, 0, "[KERNEL "));
    assert!(matches_at(&v, 8, "x]"));
    assert!(matches_at(&v, 10, ""));
    assert!(!matches_at(&v, 1, "[KERNEL "));
    assert!(!matches_at(&v, 9, "]]"));
    assert!(!matches_at(&v, 11, ""));
}
