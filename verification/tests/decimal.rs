use cargo_xbuild::decimal::{from_decimal, to_decimal};

#[test]
fn numbers_are_written_in_decimal() {
    assert_eq!(to_decimal(0), "0");
    assert_eq!(to_decimal(7), "7");
    assert_eq!(to_decimal(10), "10");
    assert_eq!(to_decimal(1234567890), "1234567890");
    assert_eq!(to_decimal(u64::MAX), "18446744073709551615");
}

#[test]
fn decimal_text_is_read_as_a_number() {
    assert_eq!(from_decimal("0"), Some(0));
    assert_eq!(from_decimal("42"), Some(42));
    assert_eq!(from_decimal("+42"), Some(42));
    assert_eq!(from_decimal("0042"), Some(42));
    assert_eq!(from_decimal("18446744073709551615"), Some(u64::MAX));
}

#[test]
fn other_text_is_no_number() {
    for text in
        ["", "+", "-1", " 1", "1 ", "1\n", "0x10", "1_000", "18446744073709551616", "99999999999999999999", "++1", "1+", "\u{663}"]
    {
        assert_eq!(from_decimal(text), None, "{:?}", text);
        assert_eq!(from_decimal(text), text.parse::<u64>().ok(), "{:?}", text);
    }
}

#[test]
fn a_number_is_read_back_from_its_text() {
    for n in [0u64, 1, 9, 10, 99, 100, 255, 65536, 4294967295, 4294967296, u64::MAX - 1, u64::MAX] {
        assert_eq!(from_decimal(&to_decimal(n)), Some(n));
        assert_eq!(to_decimal(n), n.to_string());
    }
}
