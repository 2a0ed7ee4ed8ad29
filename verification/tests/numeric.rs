use dataset_store::numeric::{is_float_literal, parse_i32, parse_i64, parse_u64, parse_usize};

#[test]
fn parse_i64_reads_signed_decimals() {
    assert_eq!(parse_i64("10"), Some(10));
    assert_eq!(parse_i64("-10"), Some(-10));
    assert_eq!(parse_i64("+7"), Some(7));
    assert_eq!(parse_i64("0007"), Some(7));
    assert_eq!(parse_i64("9223372036854775807"), Some(i64::MAX));
    assert_eq!(parse_i64("-9223372036854775808"), Some(i64::MIN));
    assert_eq!(parse_i64("9223372036854775808"), None);
    assert_eq!(parse_i64(""), None);
    assert_eq!(parse_i64("-"), None);
    assert_eq!(parse_i64("1.5"), None);
    assert_eq!(parse_i64(" 1"), None);
    assert_eq!(parse_i64("123456789012345678901234567890"), None);
}

#[test]
fn parse_i32_and_u64_keep_their_ranges() {
    assert_eq!(parse_i32("-2147483648"), Some(i32::MIN));
    assert_eq!(parse_i32("2147483648"), None);
    assert_eq!(parse_u64("18446744073709551615"), Some(u64::MAX));
    assert_eq!(parse_u64("18446744073709551616"), None);
    assert_eq!(parse_u64("-0"), None);
    assert_eq!(parse_u64("+5"), Some(5));
}

#[test]
fn float_literals_follow_the_grammar() {
    for ok in ["1", "1.5", "-1.5", ".5", "5.", "+3e10", "1E-5", "inf", "-Infinity", "NaN", "1.e2"] {
        assert!(is_float_literal(ok), "{}", ok);
        assert!(ok.parse::<f64>().is_ok(), "{}", ok);
    }
    for bad in ["", "-", ".", "e5", "1e", "1e+", "1.5.2", "abc", "1 ", "0x10", "1_000", "infinit"] {
        assert!(!is_float_literal(bad), "{}", bad);
        assert!(bad.parse::<f64>().is_err(), "{}", bad);
    }
}

#[test]
fn integer_parsers_agree_with_the_standard_ones() {
    let samples = [
        "", "0", "-0", "+0", "7", "+7", "-7", "007", "-007", "+", "-", "+-1", "--1", "1-", "1 ",
        " 1", "1.0", "1e3", "0x10", "1_000", "١٢٣", "２", "2147483647", "2147483648",
        "-2147483648", "-2147483649", "4294967295", "4294967296", "9223372036854775807",
        "9223372036854775808", "-9223372036854775808", "-9223372036854775809",
        "18446744073709551615", "18446744073709551616", "000000000000000000000000000000001",
        "99999999999999999999999999999999999999999999", "-99999999999999999999999999999999999",
    ];
    for s in samples {
        assert_eq!(parse_i64(s), s.parse::<i64>().ok(), "{:?}", s);
        assert_eq!(parse_i32(s), s.parse::<i32>().ok(), "{:?}", s);
        assert_eq!(parse_u64(s), s.parse::<u64>().ok(), "{:?}", s);
        assert_eq!(parse_usize(s), s.parse::<usize>().ok(), "{:?}", s);
    }
}

#[test]
fn float_literals_agree_with_the_standard_parser() {
    let samples = [
        "", "0", "-0", "+0", ".", "+.", "-.5", "5.", "5.e1", ".5e1", "e1", "1e", "1e+", "1e-",
        "1e+5", "1E5", "1e5.0", "1.2.3", "inf", "Inf", "INF", "+inf", "-inf", "infinity",
        "INFINITY", "infinit", "infinityy", "nan", "NaN", "+nan", "-nan", "nan1", "na", "1f",
        "0x1p3", " 1", "1 ", "1,5", "--1", "+-1", "1e1e1", "٣", "1_0",
    ];
    for s in samples {
        assert_eq!(is_float_literal(s), s.parse::<f64>().is_ok(), "{:?}", s);
    }
}
