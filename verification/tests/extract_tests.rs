use dateformat::{
    date_format_str_to_regex, line_matching_format_expression, line_to_timed_line, MandatoryField,
    ParseError, TimedLine,
};

#[test]
fn test_date_format_str_to_regex_other() {
    assert!(
        line_matching_format_expression("YYYY-MM-DDThh:mmTZD", "1997-07-16T19:20+01:00")
            .unwrap_or(false)
    );
    assert!(line_matching_format_expression("YYYY", "1997").unwrap_or(false));

    assert!(line_matching_format_expression("YYYY-MM", "1997-07").unwrap_or(false));

    assert!(line_matching_format_expression("YYYY-MM-DD", "1997-07-16").unwrap_or(false));

    assert!(
        line_matching_format_expression("YYYY-MM-DDThh:mmTZD", "1997-07-16T19:20+01:00")
            .unwrap_or(false)
    );

    assert!(line_matching_format_expression(
        "YYYY-MM-DDThh:mm:ssTZD",
        "1997-07-16T19:20:30+01:00"
    )
    .unwrap_or(false));

    assert!(line_matching_format_expression(
        "YYYY-MM-DDThh:mm:ss.sTZD",
        "1997-07-16T19:20:30.45+01:00"
    )
    .unwrap_or(false));
    assert!(line_matching_format_expression(
        "YYYY-MM-DDThh:mm:ss.sTZD",
        "1997-07-16T19:20:30.45+01:00"
    )
    .unwrap_or(false));
    assert!(
        line_matching_format_expression("YYYYMMDDhhmmsssTZD", "1997071619203045+01:00")
            .unwrap_or(false)
    );
}

#[test]
fn test_parse_date_line_no_year_with_timezone() {
    let input = "04-04 11:52:50.229 +0200 D/oup.csc(  665): [728] MqttLogger";
    let regex = date_format_str_to_regex("MM-DD hh:mm:ss.s TZD")
        .expect("format string should produce regex");

    let TimedLine {
        timestamp,
        content,
        tag,
        ..
    } = line_to_timed_line(input, input.len(), "TAG", &regex, Some(2017), None)
        .expect("convert to limed line should work");
    println!("timestamp: {}, tag: {}", timestamp, tag);
    assert_eq!(1_491_299_570_229, timestamp);
    assert_eq!(input, content);
}

#[test]
fn test_parse_date_line_no_year_no_millis() {
    let input = "04-04 11:52:50 +0200 D/oup.csc(  665): [728] MqttLogger";

    let regex_to_use = date_format_str_to_regex("MM-DD hh:mm:ss TZD").expect("should be parsed");
    let TimedLine {
        timestamp,
        content,
        tag,
        ..
    } = line_to_timed_line(input, input.len(), "TAG", &regex_to_use, Some(2017), None)
        .expect("convert to limed line should work");
    println!("timestamp: {}, tag: {}", timestamp, tag);
    assert_eq!(1_491_299_570_000, timestamp);
    assert_eq!(input, content);
}

const TWO_HOURS_IN_MS: i64 = 2 * 3600 * 1000;

#[test]
fn test_parse_date_line_year_no_timezone() {
    let input = "04-04-2017 11:52:50.229 0 0.764564113869644 0.7033032911158661 0.807587397462308";
    let regex =
        date_format_str_to_regex("MM-DD-YYYY hh:mm:ss.s").expect("format string should produce regex");
    {
        let TimedLine {
            timestamp,
            content,
            tag,
            ..
        } = line_to_timed_line(
            input,
            input.len(),
            "TAG",
            &regex,
            None,
            Some(TWO_HOURS_IN_MS),
        )
        .unwrap();
        println!("timestamp: {}, tag: {}", timestamp, tag);
        assert_eq!(1_491_299_570_229, timestamp);
        assert_eq!(input, content);
    }
}

#[test]
fn test_gki_line_matches_and_carries_offset() {
    let line = "05-22 12:36:36.506 +0100 I/GKI_LINUX1";
    assert!(line_matching_format_expression("DD-MM hh:mm:ss.s TZD", line).unwrap_or(false));
    assert_eq!(
        3_600_000,
        dateformat::parse_timezone("+0100").expect("could not parse")
    );
}

#[test]
fn test_month_out_of_range_is_invalid_date() {
    // Day-first reading of "05-22" makes the month 22.
    let line = "05-22 12:36:36.506 +0100 I/GKI_LINUX1";
    let regex = date_format_str_to_regex("DD-MM hh:mm:ss.s TZD").expect("should be parsed");
    let res = line_to_timed_line(line, line.len(), "TAG", &regex, Some(2019), None);
    assert_eq!(res.unwrap_err(), ParseError::InvalidDate);
}

#[test]
fn test_escaped_pipe_pattern_matches_line() {
    assert!(line_matching_format_expression("DD|MM|YYYY", "05|22|2019").unwrap_or(false));
}

#[test]
fn test_no_match_is_reported() {
    let regex = date_format_str_to_regex("DD-MM hh:mm:ss.s TZD").expect("should be parsed");
    let res = line_to_timed_line("nothing here", 12, "TAG", &regex, Some(2019), None);
    assert_eq!(res.unwrap_err(), ParseError::NoMatch);
}

#[test]
fn test_missing_hour_field_is_reported() {
    let regex = date_format_str_to_regex("DD-MM").expect("should be parsed");
    let res = line_to_timed_line("05-12", 5, "TAG", &regex, Some(2019), Some(0));
    assert_eq!(
        res.unwrap_err(),
        ParseError::MissingField(MandatoryField::Hour)
    );
}

#[test]
fn test_missing_year_is_reported() {
    let line = "04-04 11:52:50.229 +0200 rest";
    let regex = date_format_str_to_regex("MM-DD hh:mm:ss.s TZD").expect("should be parsed");
    let res = line_to_timed_line(line, line.len(), "TAG", &regex, None, None);
    assert_eq!(res.unwrap_err(), ParseError::MissingYear);
}

#[test]
fn test_missing_offset_is_reported() {
    let line = "04-04 11:52:50.229 rest";
    let regex = date_format_str_to_regex("MM-DD hh:mm:ss.s").expect("should be parsed");
    let res = line_to_timed_line(line, line.len(), "TAG", &regex, Some(2017), None);
    assert_eq!(res.unwrap_err(), ParseError::MissingOffset);
}

#[test]
fn test_malformed_timezone_capture_is_reported() {
    // The timezone group greedily takes digits; a single digit is too short.
    let line = "04-04 11:52:50.229 +2 rest";
    let regex = date_format_str_to_regex("MM-DD hh:mm:ss.s TZD").expect("should be parsed");
    let res = line_to_timed_line(line, line.len(), "TAG", &regex, Some(2017), None);
    assert_eq!(res.unwrap_err(), ParseError::MalformedTimezone);
}

#[test]
fn test_pre_epoch_timestamp_is_negative() {
    let line = "01-01-1960 00:00:00.000";
    let regex = date_format_str_to_regex("DD-MM-YYYY hh:mm:ss.s").expect("should be parsed");
    let TimedLine { timestamp, .. } =
        line_to_timed_line(line, line.len(), "TAG", &regex, None, Some(0)).unwrap();
    // 1960-01-01 is 3653 days before the epoch.
    assert_eq!(timestamp, -3653i64 * 86_400_000);
}

#[test]
fn test_timed_line_from_captures_directly() {
    let caps = dateformat::LineCaptures {
        day: Some("04".to_string()),
        month: Some("04".to_string()),
        year: Some("2017".to_string()),
        hour: Some("11".to_string()),
        minute: Some("52".to_string()),
        second: Some("50".to_string()),
        millis: Some("229".to_string()),
        timezone: None,
    };
    let t = dateformat::timed_line_from_captures(
        &caps,
        "some line",
        9,
        "TAG",
        None,
        Some(TWO_HOURS_IN_MS),
    )
    .unwrap();
    assert_eq!(t.timestamp, 1_491_299_570_229);
    assert_eq!(t.content, "some line");
    assert_eq!(t.tag, "TAG");
    assert_eq!(t.original_length, 9);

    let missing_minute = dateformat::LineCaptures {
        minute: None,
        ..caps
    };
    let res = dateformat::timed_line_from_captures(
        &missing_minute,
        "some line",
        9,
        "TAG",
        None,
        Some(0),
    );
    assert_eq!(
        res.unwrap_err(),
        ParseError::MissingField(MandatoryField::Minute)
    );
}

#[test]
fn test_leap_second_fraction_is_accepted() {
    // A fraction above 999 is a leap-second reading and is only valid on
    // second 59.
    let line = "04-04-2017 11:52:59.1500";
    let regex = date_format_str_to_regex("MM-DD-YYYY hh:mm:ss.s").expect("should be parsed");
    let TimedLine { timestamp, .. } =
        line_to_timed_line(line, line.len(), "TAG", &regex, None, Some(TWO_HOURS_IN_MS)).unwrap();
    assert_eq!(timestamp, 1_491_299_580_500);
}

#[test]
fn test_fraction_too_large_is_invalid_date() {
    let leap_outside_second_59 = "04-04-2017 11:52:50.1500";
    let too_many_millis = "04-04-2017 11:52:50.12345";
    let overflowing = "04-04-2017 11:52:50.99999999999999999999";
    let regex = date_format_str_to_regex("MM-DD-YYYY hh:mm:ss.s").expect("should be parsed");
    for line in [leap_outside_second_59, too_many_millis, overflowing] {
        let res = line_to_timed_line(line, line.len(), "TAG", &regex, None, Some(0));
        assert_eq!(res.unwrap_err(), ParseError::InvalidDate);
    }
}

#[test]
fn test_fallback_offset_wins_over_captured_timezone() {
    let line = "04-04 11:52:50.229 +0200 rest";
    let regex = date_format_str_to_regex("MM-DD hh:mm:ss.s TZD").expect("should be parsed");
    let with_fallback =
        line_to_timed_line(line, line.len(), "TAG", &regex, Some(2017), Some(0)).unwrap();
    let with_captured =
        line_to_timed_line(line, line.len(), "TAG", &regex, Some(2017), None).unwrap();
    assert_eq!(with_fallback.timestamp - with_captured.timestamp, TWO_HOURS_IN_MS);
}
