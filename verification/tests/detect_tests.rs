use dateformat::{detect_timestamp_format, detect_timestamp_format_with_limits, ParseError};

fn candidates() -> Vec<String> {
    vec![
        "MM-DD hh:mm:ss.s TZD".to_string(),
        "MM-DD-YYYY hh:mm:ss.s".to_string(),
    ]
}

#[test]
fn test_detect_uniform_file_picks_matching_candidate() {
    let lines: Vec<String> = (0..10)
        .map(|i| format!("04-0{} 11:52:50.229 +0200 some log text", (i % 9) + 1))
        .collect();
    let res = detect_timestamp_format(&lines, &candidates());
    assert_eq!(res.unwrap(), "MM-DD hh:mm:ss.s TZD".to_string());
}

#[test]
fn test_detect_second_candidate_wins_on_its_format() {
    let lines: Vec<String> = (0..10)
        .map(|_| "04-04-2017 11:52:50.229 0 0.7645".to_string())
        .collect();
    let res = detect_timestamp_format(&lines, &candidates());
    assert_eq!(res.unwrap(), "MM-DD-YYYY hh:mm:ss.s".to_string());
}

#[test]
fn test_detect_short_file_uses_inspected_count_as_bar() {
    // Three non-blank lines are fewer than the threshold of five; the
    // effective bar is then three, and a candidate matching all three wins.
    let lines: Vec<String> = vec![
        "04-04-2017 11:52:50.229 a".to_string(),
        "".to_string(),
        "04-05-2017 11:52:50.229 b".to_string(),
        "   ".to_string(),
        "04-06-2017 11:52:50.229 c".to_string(),
    ];
    let res = detect_timestamp_format(&lines, &candidates());
    assert_eq!(res.unwrap(), "MM-DD-YYYY hh:mm:ss.s".to_string());
}

#[test]
fn test_detect_short_file_partial_match_fails() {
    let lines: Vec<String> = vec![
        "04-04-2017 11:52:50.229 a".to_string(),
        "no timestamp here".to_string(),
        "nor here".to_string(),
    ];
    let res = detect_timestamp_format(&lines, &candidates());
    assert_eq!(res.unwrap_err(), ParseError::NoFormatDetected);
}

#[test]
fn test_detect_inspects_one_line_past_the_bound() {
    // With a bound of two, the line that crosses the bound still counts:
    // three lines are inspected, and a threshold of three can be met.
    let lines: Vec<String> = vec![
        "04-04-2017 11:52:50.229 a".to_string(),
        "04-05-2017 11:52:50.229 b".to_string(),
        "04-06-2017 11:52:50.229 c".to_string(),
        "junk".to_string(),
        "junk".to_string(),
    ];
    let res = detect_timestamp_format_with_limits(&lines, &candidates(), 2, 3);
    assert_eq!(res.unwrap(), "MM-DD-YYYY hh:mm:ss.s".to_string());
    // Lines past the crossing line are not inspected: a matching line
    // further down cannot help a candidate any more.
    let late: Vec<String> = vec![
        "04-04-2017 11:52:50.229 a".to_string(),
        "04-05-2017 11:52:50.229 b".to_string(),
        "junk".to_string(),
        "04-06-2017 11:52:50.229 late".to_string(),
    ];
    let res2 = detect_timestamp_format_with_limits(&late, &candidates(), 2, 3);
    assert_eq!(res2.unwrap_err(), ParseError::NoFormatDetected);
}

#[test]
fn test_detect_blank_lines_are_skipped_not_counted() {
    let mut lines: Vec<String> = Vec::new();
    for _ in 0..20 {
        lines.push("  \t ".to_string());
    }
    for _ in 0..5 {
        lines.push("04-04-2017 11:52:50.229 x".to_string());
    }
    let res = detect_timestamp_format(&lines, &candidates());
    assert_eq!(res.unwrap(), "MM-DD-YYYY hh:mm:ss.s".to_string());
}

#[test]
fn test_detect_non_compiling_candidates_are_silently_excluded() {
    let cands: Vec<String> = vec![
        "".to_string(),
        "DDDD".to_string(),
        "MM-DD-YYYY hh:mm:ss.s".to_string(),
    ];
    let lines: Vec<String> = (0..10)
        .map(|_| "04-04-2017 11:52:50.229 x".to_string())
        .collect();
    let res = detect_timestamp_format(&lines, &cands);
    assert_eq!(res.unwrap(), "MM-DD-YYYY hh:mm:ss.s".to_string());
}

#[test]
fn test_detect_first_listed_candidate_wins_ties() {
    // Both candidates match every line; the first listed wins.
    let cands: Vec<String> = vec![
        "YYYY-MM-DD".to_string(),
        "YYYY-MM".to_string(),
    ];
    let lines: Vec<String> = (0..10).map(|_| "1997-07-16".to_string()).collect();
    let res = detect_timestamp_format(&lines, &cands);
    assert_eq!(res.unwrap(), "YYYY-MM-DD".to_string());
}

#[test]
fn test_detect_empty_input_fails() {
    let lines: Vec<String> = Vec::new();
    let res = detect_timestamp_format(&lines, &candidates());
    assert_eq!(res.unwrap_err(), ParseError::NoFormatDetected);
}
