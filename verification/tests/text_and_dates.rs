use bill_of_zero::text::{chars_of, line_bounds, parse_i128, parse_i64, parse_u64, split_bounds, trimmed};
use bill_of_zero::util::{group, ymd_to_unix, ymd_to_unix_fits, DateError};

fn parse_i64_str(s: &str) -> Option<i64> {
    let cs = chars_of(s);
    parse_i64(&cs, 0, cs.len())
}

fn parse_u64_str(s: &str) -> Option<u64> {
    let cs = chars_of(s);
    parse_u64(&cs, 0, cs.len())
}

fn parse_i128_str(s: &str) -> Option<i128> {
    let cs = chars_of(s);
    parse_i128(&cs, 0, cs.len())
}

#[test]
fn integer_parsing_matches_std() {
    for s in [
        "0", "42", "+42", "-42", "-", "+", "", "007", "9223372036854775807",
        "9223372036854775808", "-9223372036854775808", "-9223372036854775809", "1 2", " 1", "1a",
        "18446744073709551615", "18446744073709551616", "-0", "٣",
    ] {
        assert_eq!(parse_i64_str(s), s.parse::<i64>().ok(), "i64 {s:?}");
        assert_eq!(parse_u64_str(s), s.parse::<u64>().ok(), "u64 {s:?}");
        assert_eq!(parse_i128_str(s), s.parse::<i128>().ok(), "i128 {s:?}");
    }
    let big = "170141183460469231731687303715884105727";
    assert_eq!(parse_i128_str(big), Some(i128::MAX));
    assert_eq!(parse_i128_str("-170141183460469231731687303715884105728"), Some(i128::MIN));
    assert_eq!(parse_i128_str("170141183460469231731687303715884105728"), None);
}

#[test]
fn trimming_matches_std() {
    for s in ["  a b  ", "\t\n x \r", "", "   ", "\u{3000}y\u{a0}", "\u{200b}z"] {
        assert_eq!(trimmed(s), s.trim(), "{s:?}");
    }
}

#[test]
fn splitting_and_lines_match_std() {
    for s in ["2024-12-31", "-", "a--b", "", "x-"] {
        let cs = chars_of(s);
        let parts: Vec<String> =
            split_bounds(&cs, 0, cs.len(), '-').iter().map(|(a, b)| cs[*a..*b].iter().collect()).collect();
        let expected: Vec<&str> = s.split('-').collect();
        assert_eq!(parts, expected, "{s:?}");
    }
    for s in ["a\nb", "a\r\nb\r\n", "", "\n", "x\r", "a\n\nb\n", "\r\n\r\n"] {
        let cs = chars_of(s);
        let ls: Vec<String> =
            line_bounds(&cs).iter().map(|(a, b)| cs[*a..*b].iter().collect()).collect();
        let expected: Vec<&str> = s.lines().collect();
        assert_eq!(ls, expected, "{s:?}");
    }
}

#[test]
fn ymd_known_dates() {
    assert_eq!(ymd_to_unix("1970-01-01"), Ok(0));
    assert_eq!(ymd_to_unix("2024-12-31"), Ok(1_735_603_200));
    assert_eq!(ymd_to_unix("2000-02-29"), Ok(951_782_400));
    assert_eq!(ymd_to_unix("2000-03-01"), Ok(951_868_800));
    assert_eq!(ymd_to_unix("  2025-01-01 \n"), Ok(1_735_689_600));
    assert_eq!(ymd_to_unix("1969-12-31"), Ok((-86_400i64) as u64));
    assert_eq!(ymd_to_unix("1600-03-01"), Ok((-11_670_912_000i64) as u64));
    assert_eq!(ymd_to_unix("-0001-01-01"), Err(DateError::NotYearMonthDay));
}

#[test]
fn ymd_errors() {
    assert_eq!(ymd_to_unix("2024/12/31"), Err(DateError::NotYearMonthDay));
    assert_eq!(ymd_to_unix("2024-12"), Err(DateError::NotYearMonthDay));
    assert_eq!(ymd_to_unix("x-12-31"), Err(DateError::BadYear));
    assert_eq!(ymd_to_unix("2024- 12-31"), Err(DateError::BadMonth));
    assert_eq!(ymd_to_unix("2024-12-"), Err(DateError::BadDay));
    assert_eq!(ymd_to_unix("2024-13-01"), Err(DateError::MonthOrDayOutOfRange));
    assert_eq!(ymd_to_unix("2024-00-01"), Err(DateError::MonthOrDayOutOfRange));
    assert_eq!(ymd_to_unix("2024-02-32"), Err(DateError::MonthOrDayOutOfRange));
    assert_eq!(DateError::BadYear.message(), "bad year");
    assert_eq!(DateError::NotYearMonthDay.message(), "date must be YYYY-MM-DD");
    assert_eq!(DateError::MonthOrDayOutOfRange.message(), "month/day out of range");
}

#[test]
fn ymd_fits_only_for_representable_years() {
    assert!(ymd_to_unix_fits("2024-12-31"));
    assert!(ymd_to_unix_fits("garbage"));
    assert!(ymd_to_unix_fits("200000000000-01-01"));
    assert!(!ymd_to_unix_fits("400000000000-01-01"));
    assert!(!ymd_to_unix_fits("9223372036854775807-01-01"));
}

#[test]
fn grouping() {
    assert_eq!(group("1234567"), "1,234,567");
    assert_eq!(group("123"), "123");
    assert_eq!(group("1234"), "1,234");
    assert_eq!(group("-1234"), "-1,234");
    assert_eq!(group("  950000000000 "), "950,000,000,000");
    assert_eq!(group("\"1000\""), "1,000");
    assert_eq!(group("abc"), "abc");
    assert_eq!(group("  "), "");
    assert_eq!(group("12a34"), "1,234");
    assert_eq!(group("-"), "-");
}

#[test]
fn grouping_twice_changes_nothing() {
    for n in ["1234567", " -98765 ", "\"1000\"", "abc", "  ", "12", "1,234"] {
        assert_eq!(group(&group(n)), group(n));
    }
}
