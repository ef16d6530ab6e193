use rhc_bot::number::{
    i64_text, parse_i64, parse_u32, parse_u64, u64_text, wrap_i64, NumberError,
};

const TEXTS: [&str; 36] = [
    "99999999999999999999x", "9999999999999999999x", "999999999999999999x", "-99999999999999999999x",
    "-9223372036854775808x", "-9223372036854775809x", "4294967295x", "4294967296x", "x", "+x", "-x",
    "12 34", "18446744073709551616x", "0000000000000000000000000000000000000000001", "", "0", "7", "+7", "-7", "-0", "+", "-", "--1", "+-1", " 1", "1 ", "007", "4294967295",
    "4294967296", "9223372036854775807", "9223372036854775808", "-9223372036854775808",
    "-9223372036854775809", "18446744073709551615", "18446744073709551616", "１",
];

#[test]
fn reads_numbers_as_the_standard_library_does() {
    for s in TEXTS {
        let said = |e: NumberError| e.message();
        assert_eq!(parse_i64(s).map_err(said), s.parse::<i64>().map_err(|e| e.to_string()), "{s}");
        assert_eq!(parse_u32(s).map_err(said), s.parse::<u32>().map_err(|e| e.to_string()), "{s}");
        assert_eq!(parse_u64(s).map_err(said), s.parse::<u64>().map_err(|e| e.to_string()), "{s}");
    }
}

#[test]
fn writes_numbers_as_the_standard_library_does() {
    for n in [0, 1, -1, 9, 10, -10, 123_456, i64::MAX, i64::MIN] {
        assert_eq!(i64_text(n), n.to_string());
    }
    for n in [0, 9, 10, 100, u64::MAX] {
        assert_eq!(u64_text(n), n.to_string());
    }
}

#[test]
fn what_is_written_reads_back() {
    for n in [0, -1, 42, i64::MAX, i64::MIN] {
        assert_eq!(parse_i64(&i64_text(n)), Ok(n));
    }
}

#[test]
fn wraps_around_above_the_largest_signed_number() {
    assert_eq!(wrap_i64(600), 600);
    assert_eq!(wrap_i64(i64::MAX as u64), i64::MAX);
    assert_eq!(wrap_i64(i64::MAX as u64 + 1), i64::MIN);
    assert_eq!(wrap_i64(u64::MAX), -1);
}

#[test]
fn each_fault_of_a_number_is_told() {
    assert_eq!(parse_i64(""), Err(NumberError::Empty));
    assert_eq!(parse_i64("-"), Err(NumberError::InvalidDigit));
    assert_eq!(parse_i64("9223372036854775808"), Err(NumberError::PosOverflow));
    assert_eq!(parse_i64("-9223372036854775809"), Err(NumberError::NegOverflow));
    assert_eq!(parse_u32("-1"), Err(NumberError::InvalidDigit));
    assert_eq!(parse_u32("4294967296"), Err(NumberError::PosOverflow));
}
