use todo_cli::number::{bracket, i32_to_string, parse_i32, parse_u64, u64_to_string};

#[test]
fn numerals_are_read() {
    assert_eq!(parse_i32("0"), Some(0));
    assert_eq!(parse_i32("-0"), Some(0));
    assert_eq!(parse_i32("+17"), Some(17));
    assert_eq!(parse_i32("007"), Some(7));
    assert_eq!(parse_i32("2147483647"), Some(i32::MAX));
    assert_eq!(parse_i32("-2147483648"), Some(i32::MIN));
    assert_eq!(parse_i32("00000000000000000000000000002147483647"), Some(i32::MAX));
    assert_eq!(parse_u64("18446744073709551615"), Some(u64::MAX));
    assert_eq!(parse_u64("+5"), Some(5));
}

#[test]
fn what_is_no_numeral_is_refused() {
    for bad in ["", "-", "+", "--1", "+-1", "1 ", " 1", "1_000", "0x10", "1.0", "12a", "٣", "2147483648", "-2147483649", "99999999999999999999999"] {
        assert_eq!(parse_i32(bad), None, "{:?}", bad);
    }
    for bad in ["", "-", "+", "-0", "-1", "18446744073709551616", "1e3", "½"] {
        assert_eq!(parse_u64(bad), None, "{:?}", bad);
    }
}

#[test]
fn reading_agrees_with_the_standard_library() {
    let samples = [
        "0", "1", "-1", "+1", "10", "-10", "2147483646", "2147483647", "2147483648", "-2147483647", "-2147483648",
        "-2147483649", "4294967296", "9223372036854775807", "9223372036854775808", "18446744073709551615",
        "18446744073709551616", "", "+", "-", "++1", "a", "1a", "a1", "0000", "-0000", "+0009", " 1", "1\n",
    ];
    for s in samples {
        assert_eq!(parse_i32(s), s.parse::<i32>().ok(), "{:?}", s);
        assert_eq!(parse_u64(s), s.parse::<u64>().ok(), "{:?}", s);
    }
}

#[test]
fn numbers_are_written() {
    assert_eq!(i32_to_string(0), "0");
    assert_eq!(i32_to_string(7), "7");
    assert_eq!(i32_to_string(-7), "-7");
    assert_eq!(i32_to_string(1200), "1200");
    assert_eq!(i32_to_string(i32::MAX), "2147483647");
    assert_eq!(i32_to_string(i32::MIN), "-2147483648");
    assert_eq!(u64_to_string(0), "0");
    assert_eq!(u64_to_string(u64::MAX), "18446744073709551615");
}

#[test]
fn what_is_written_is_read_back() {
    for v in [0, 1, -1, 9, 10, 11, 99, 100, 101, -999, 65535, i32::MAX, i32::MIN, i32::MIN + 1] {
        assert_eq!(parse_i32(&i32_to_string(v)), Some(v));
        assert_eq!(i32_to_string(v), v.to_string());
    }
    for v in [0u64, 9, 10, 59, 60, 3599, u64::MAX] {
        assert_eq!(parse_u64(&u64_to_string(v)), Some(v));
        assert_eq!(u64_to_string(v), v.to_string());
    }
}

#[test]
fn lists_are_written_in_brackets() {
    assert_eq!(bracket(&vec![]), "[]");
    assert_eq!(bracket(&vec![1]), "[1]");
    assert_eq!(bracket(&vec![1, 2]), "[1, 2]");
    assert_eq!(bracket(&vec![-3, 0, 44]), format!("{:?}", vec![-3, 0, 44]));
}
