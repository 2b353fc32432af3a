use dateformat::{any_date_format, date_expression, date_format_str_to_regex, FormatPiece, ParseError};
use regex::Regex;

#[test]
fn test_date_parsers() {
    assert_eq!(
        any_date_format("DD23"),
        Some(("23".to_string(), FormatPiece::Day))
    );
    assert_eq!(
        any_date_format("MM23"),
        Some(("23".to_string(), FormatPiece::Month))
    );
    assert_eq!(
        any_date_format("DDMM"),
        Some(("MM".to_string(), FormatPiece::Day))
    );
    assert_eq!(
        any_date_format("YYYY-"),
        Some(("-".to_string(), FormatPiece::Year))
    );
    assert_eq!(
        date_expression("DDMM"),
        vec![FormatPiece::Day, FormatPiece::Month]
    );
    assert_eq!(
        date_expression("DD:MM"),
        vec![
            FormatPiece::Day,
            FormatPiece::Seperator(String::from(":")),
            FormatPiece::Month
        ]
    );
    assert_eq!(
        date_expression("MMDD"),
        vec![FormatPiece::Month, FormatPiece::Day]
    );
}

#[test]
fn test_date_parsers_escapes() {
    assert_eq!(
        date_expression("MM   .|?*+(){}[]^$DD"),
        vec![
            FormatPiece::Month,
            FormatPiece::Seperator(String::from("\\s+\\.\\|\\?\\*\\+\\(\\)\\{}\\[]\\^\\$")),
            FormatPiece::Day
        ]
    );
}

#[test]
fn test_format_parsers() {
    assert_eq!(
        date_expression("DD-MM ---> hh:mm:ss:s TZD"),
        vec![
            FormatPiece::Day,
            FormatPiece::Seperator(String::from("-")),
            FormatPiece::Month,
            FormatPiece::Seperator(String::from("\\s+--->\\s+")),
            FormatPiece::Hour,
            FormatPiece::Seperator(String::from(":")),
            FormatPiece::Minute,
            FormatPiece::Seperator(String::from(":")),
            FormatPiece::Second,
            FormatPiece::Seperator(String::from(":")),
            FormatPiece::Fraction,
            FormatPiece::Seperator(String::from("\\s+")),
            FormatPiece::TimeZone,
        ]
    );
}

#[test]
fn test_date_format_str_to_regex1() {
    // 05-22 12:36:36.506 +0100 I/GKI_LINUX1
    let input = "DD-MM hh:mm:ss.s TZD";
    let regex = date_format_str_to_regex(input).expect("should be parsed");
    assert_eq!(
        Regex::new(
            "(?P<d>\\d{2})-(?P<m>\\d{2})\\s+(?P<H>\\d{2}):(?P<M>\\d{2}):(?P<S>\\d{2})\\.(?P<millis>\\d+)\\s+(?P<timezone>[\\+\\-]\\d+)"
        )
        .unwrap()
        .as_str(),
        regex.as_str()
    );
}

#[test]
fn test_date_format_str_to_regex2() {
    // 05-22-2019 12:36:04.344 A0
    let input2 = "DD-MM-YYYY hh:mm:ss.s";
    let regex2 = date_format_str_to_regex(input2).expect("should be parsed");
    assert_eq!(
        Regex::new(
            "(?P<d>\\d{2})-(?P<m>\\d{2})-(?P<Y>\\d{4})\\s+(?P<H>\\d{2}):(?P<M>\\d{2}):(?P<S>\\d{2})\\.(?P<millis>\\d+)"
        )
        .unwrap()
        .as_str(),
        regex2.as_str()
    );
}

#[test]
fn test_date_format_str_to_regex_with_escape_characters() {
    // 05|22|2019
    let regex = date_format_str_to_regex("DD|MM|YYYY").expect("should be parsed");
    assert_eq!(
        Regex::new("(?P<d>\\d{2})\\|(?P<m>\\d{2})\\|(?P<Y>\\d{4})")
            .unwrap()
            .as_str(),
        regex.as_str()
    );
}

#[test]
fn test_date_format_str_to_regex_empty() {
    let regex = date_format_str_to_regex("");
    assert!(regex.is_err());
    assert_eq!(regex.unwrap_err(), ParseError::EmptyFormat);
}

#[test]
fn test_format_of_only_literals_compiles_to_its_text() {
    let regex = date_format_str_to_regex("abc").expect("should be parsed");
    assert_eq!("abc", regex.as_str());
}

#[test]
fn test_trailing_literal_run_is_kept() {
    assert_eq!(
        date_expression("DD-"),
        vec![FormatPiece::Day, FormatPiece::Seperator(String::from("-"))]
    );
    let regex = date_format_str_to_regex("DD.").expect("should be parsed");
    assert_eq!("(?P<d>\\d{2})\\.", regex.as_str());
}

#[test]
fn test_repeated_field_yields_invalid_regex() {
    // Two day fields repeat the capture name, which the engine refuses.
    assert_eq!(
        date_format_str_to_regex("DDDD").unwrap_err(),
        ParseError::InvalidRegex
    );
}

#[test]
fn test_compile_twice_same_pattern_and_behaviour() {
    let spec = "MM-DD hh:mm:ss.s TZD";
    let first = date_format_str_to_regex(spec).expect("should be parsed");
    let second = date_format_str_to_regex(spec).expect("should be parsed");
    assert_eq!(first.as_str(), second.as_str());
    let matching = "04-04 11:52:50.229 +0200 rest";
    let other = "not a timestamp";
    assert_eq!(first.is_match(matching), second.is_match(matching));
    assert!(first.is_match(matching));
    assert_eq!(first.is_match(other), second.is_match(other));
    assert!(!first.is_match(other));
}
