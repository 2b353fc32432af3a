use dateformat::parse_timezone;

#[test]
fn test_offset_from_timezone_in_ms_non_ascii() {
    assert!(parse_timezone("a\u{0860}A").is_err());
}

#[test]
fn test_offset_from_timezone_in_ms_invalid_input() {
    assert!(parse_timezone("0Aaa0").is_err());
}

#[test]
fn test_timezone_parser() {
    if let Ok(res) = parse_timezone("+01:00") {
        println!("res: {:?}", res);
    } else {
        println!("could not parse");
    }
}

#[test]
fn test_offset_from_timezone_in_ms() {
    assert_eq!(0, parse_timezone("+0000").expect("could not parse"));
    assert_eq!(0, parse_timezone("-0000").expect("could not parse"));
    assert_eq!(
        2 * 3600 * 1000,
        parse_timezone("+0200").expect("could not parse")
    );
    assert_eq!(
        2 * 3600 * 1000,
        parse_timezone("+02:00").expect("could not parse")
    );
    assert_eq!(
        2 * 3600 * 1000 + 30 * 60 * 1000,
        parse_timezone("+0230").expect("could not parse")
    );
    assert_eq!(
        -2 * 3600 * 1000,
        parse_timezone("-0200").expect("could not parse")
    );
}

#[test]
fn test_timezone_colon_and_colon_free_agree() {
    for (with_colon, without) in [
        ("+01:30", "+0130"),
        ("-23:59", "-2359"),
        ("+00:00", "+0000"),
        ("-09:05", "-0905"),
    ] {
        let a = parse_timezone(with_colon).expect("could not parse");
        let b = parse_timezone(without).expect("could not parse");
        assert_eq!(a, b);
    }
    assert_eq!(
        parse_timezone("-23:59").expect("could not parse"),
        -(23 * 3600 * 1000 + 59 * 60 * 1000)
    );
}

#[test]
fn test_timezone_arbitrary_text_never_panics() {
    for junk in [
        "",
        "+",
        "-",
        "+1",
        "Z",
        "++00",
        "\u{1f600}\u{1f600}\u{1f600}",
        "+\u{0660}\u{0661}",
        "完全非ASCII",
        "+0x",
        "-::",
    ] {
        let _ = parse_timezone(junk);
    }
    assert!(parse_timezone("+1").is_err());
    assert!(parse_timezone("").is_err());
}

#[test]
fn test_timezone_grammar_is_strict() {
    // Exactly sign + hh, optionally followed by an optional colon and
    // exactly mm: trailing text, short windows and stray digits all fail.
    assert!(parse_timezone("+0100 and more").is_err());
    assert!(parse_timezone("+1x").is_err());
    assert!(parse_timezone("+012").is_err());
    assert!(parse_timezone("+01:0").is_err());
    assert!(parse_timezone("+01234").is_err());
    assert!(parse_timezone("+01:000").is_err());
    assert_eq!(3600 * 1000, parse_timezone("+01").expect("could not parse"));
}
