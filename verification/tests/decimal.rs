use nginx_pool::decimal::{parse_decimal, to_decimal};

#[test]
fn zero_is_one_digit() {
    assert_eq!(to_decimal(0), b"0".to_vec());
}

#[test]
fn numbers_are_written_most_significant_first() {
    assert_eq!(to_decimal(7), b"7".to_vec());
    assert_eq!(to_decimal(10), b"10".to_vec());
    assert_eq!(to_decimal(2048), b"2048".to_vec());
    assert_eq!(to_decimal(1234567890), b"1234567890".to_vec());
}

#[test]
fn largest_number_is_written_in_full() {
    assert_eq!(to_decimal(u64::MAX), b"18446744073709551615".to_vec());
}

#[test]
fn digits_are_read() {
    assert_eq!(parse_decimal(b"42", u64::MAX), Some(42));
    assert_eq!(parse_decimal(b"0", u64::MAX), Some(0));
    assert_eq!(parse_decimal(b"0007", u64::MAX), Some(7));
}

#[test]
fn a_plus_sign_may_lead() {
    assert_eq!(parse_decimal(b"+42", u64::MAX), Some(42));
    assert_eq!(parse_decimal(b"+", u64::MAX), None);
    assert_eq!(parse_decimal(b"++1", u64::MAX), None);
}

#[test]
fn what_is_no_number_is_not_read() {
    assert_eq!(parse_decimal(b"", u64::MAX), None);
    assert_eq!(parse_decimal(b"-1", u64::MAX), None);
    assert_eq!(parse_decimal(b"4a", u64::MAX), None);
    assert_eq!(parse_decimal(b" 4", u64::MAX), None);
    assert_eq!(parse_decimal(b"4 ", u64::MAX), None);
}

#[test]
fn the_limit_is_kept() {
    assert_eq!(parse_decimal(b"18446744073709551615", u64::MAX), Some(u64::MAX));
    assert_eq!(parse_decimal(b"18446744073709551616", u64::MAX), None);
    assert_eq!(parse_decimal(b"99999999999999999999999", u64::MAX), None);
    assert_eq!(parse_decimal(b"65535", 65535), Some(65535));
    assert_eq!(parse_decimal(b"65536", 65535), None);
    assert_eq!(parse_decimal(b"7", 0), None);
    assert_eq!(parse_decimal(b"0", 0), Some(0));
}

#[test]
fn reading_agrees_with_writing() {
    for n in [0u64, 1, 9, 10, 99, 100, 4096, 1 << 40, u64::MAX] {
        assert_eq!(parse_decimal(&to_decimal(n), u64::MAX), Some(n));
        assert_eq!(to_decimal(n), n.to_string().into_bytes());
    }
}
