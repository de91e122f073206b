use shift_exchange::numerals::{format_i64, format_u64, parse_i32_dec, parse_i64_dec, parse_u64_dec};

#[test]
fn formatting_is_canonical() {
    assert_eq!(format_u64(0), b"0".to_vec());
    assert_eq!(format_u64(7), b"7".to_vec());
    assert_eq!(format_u64(12345), b"12345".to_vec());
    assert_eq!(format_u64(u64::MAX), b"18446744073709551615".to_vec());
    assert_eq!(format_i64(-42), b"-42".to_vec());
    assert_eq!(format_i64(0), b"0".to_vec());
    assert_eq!(format_i64(i64::MIN), b"-9223372036854775808".to_vec());
}

#[test]
fn parsing_inverts_formatting() {
    for v in [0i64, 1, -1, 99, -100, 123456789, i64::MAX, i64::MIN] {
        assert_eq!(parse_i64_dec(&format_i64(v)), Some(v));
    }
    for v in [0u64, 9, 10, u64::MAX] {
        assert_eq!(parse_u64_dec(&format_u64(v)), Some(v));
    }
}

#[test]
fn parsing_accepts_leading_zeros() {
    assert_eq!(parse_u64_dec(&b"00123".to_vec()), Some(123));
    assert_eq!(parse_i32_dec(&b"-007".to_vec()), Some(-7));
}

#[test]
fn parsing_rejects_malformed_numerals() {
    assert_eq!(parse_u64_dec(&b"".to_vec()), None);
    assert_eq!(parse_u64_dec(&b"12a".to_vec()), None);
    assert_eq!(parse_u64_dec(&b"-5".to_vec()), None);
    assert_eq!(parse_i64_dec(&b"".to_vec()), None);
    assert_eq!(parse_i64_dec(&b"-".to_vec()), None);
    assert_eq!(parse_i64_dec(&b"1 2".to_vec()), None);
    assert_eq!(parse_i32_dec(&b"12:34".to_vec()), None);
}

#[test]
fn parsing_rejects_out_of_range_values() {
    assert_eq!(parse_u64_dec(&b"18446744073709551616".to_vec()), None);
    assert_eq!(parse_u64_dec(&b"99999999999999999999999".to_vec()), None);
    assert_eq!(parse_i64_dec(&b"9223372036854775808".to_vec()), None);
    assert_eq!(parse_i64_dec(&b"-9223372036854775809".to_vec()), None);
    assert_eq!(parse_i32_dec(&b"2147483648".to_vec()), None);
    assert_eq!(parse_i32_dec(&b"-2147483649".to_vec()), None);
    assert_eq!(parse_i32_dec(&b"2147483647".to_vec()), Some(i32::MAX));
    assert_eq!(parse_i32_dec(&b"-2147483648".to_vec()), Some(i32::MIN));
}
