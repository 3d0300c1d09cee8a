use template_store::{
    dedent, format_magnitude, relative_phrase, timeformat, timeformat_at, FilterError,
    FilterValue,
};

#[test]
fn magnitude_seconds() {
    assert_eq!(format_magnitude(45), "45 seconds");
}

#[test]
fn magnitude_minutes_with_decimal() {
    assert_eq!(format_magnitude(125), "2.1 minutes");
}

#[test]
fn magnitude_whole_minutes() {
    assert_eq!(format_magnitude(120), "2 minutes");
}

#[test]
fn magnitude_hours() {
    assert_eq!(format_magnitude(7200), "2 hours");
}

#[test]
fn magnitude_edges() {
    assert_eq!(format_magnitude(0), "0 seconds");
    assert_eq!(format_magnitude(59), "59 seconds");
    assert_eq!(format_magnitude(60), "1 minutes");
    assert_eq!(format_magnitude(90), "1.5 minutes");
    assert_eq!(format_magnitude(5400), "1.5 hours");
    assert_eq!(format_magnitude(3599), "60 minutes");
    assert_eq!(format_magnitude(u64::MAX), "5124095576030431 hours");
}

#[test]
fn timeformat_numbers() {
    assert_eq!(timeformat(&FilterValue::Number(125), false), Ok(String::from("2.1 minutes")));
    assert_eq!(timeformat(&FilterValue::Text(String::from("x")), false), Err(FilterError::NotANumber));
    assert_eq!(timeformat(&FilterValue::Null, false), Err(FilterError::NotANumber));
}

#[test]
fn timeformat_relative() {
    let at = String::from("2020-03-18T12:00:00Z");
    // 1584532800 is 2020-03-18T12:00:00Z.
    let v = FilterValue::Text(at);
    assert_eq!(timeformat_at(&v, true, 1584532800 + 30), Ok(String::from("30 seconds ago")));
    assert_eq!(timeformat_at(&v, true, 1584532800 + 7200), Ok(String::from("2 hours ago")));
    assert_eq!(timeformat_at(&v, true, 1584532800 + 86400 * 10), Ok(String::from("Mar 18, 2020")));
    assert_eq!(
        timeformat_at(&FilterValue::Text(String::from("yesterday")), true, 0),
        Err(FilterError::NotATimestamp)
    );
    assert_eq!(timeformat_at(&FilterValue::Number(3), true, 0), Err(FilterError::NotATimestamp));
    assert!(timeformat(&v, true).is_ok());
}

#[test]
fn relative_phrases() {
    assert_eq!(relative_phrase(0, None), "just now");
    assert_eq!(relative_phrase(-5, None), "just now");
    assert_eq!(relative_phrase(1, None), "1 seconds ago");
    assert_eq!(relative_phrase(60, None), "one minute ago");
    assert_eq!(relative_phrase(150, None), "2 minutes ago");
    assert_eq!(relative_phrase(3600, None), "an hour ago");
    assert_eq!(relative_phrase(86400, None), "one day ago");
    assert_eq!(relative_phrase(86400 * 3, None), "3 days ago");
    assert_eq!(relative_phrase(86400 * 9, Some(String::from("Jan 01, 2020"))), "Jan 01, 2020");
    assert_eq!(relative_phrase(86400 * 9, None), "9 days ago");
}

#[test]
fn dedent_strips_each_line() {
    assert_eq!(dedent("  line1\n    line2"), "line1\nline2");
}

#[test]
fn dedent_keeps_blank_lines() {
    assert_eq!(dedent("a\n\n  b\n"), "a\n\nb");
    assert_eq!(dedent(""), "");
    assert_eq!(dedent("\t x\r\n\u{3000}y"), "x\ny");
    assert_eq!(dedent("   "), "");
}

#[test]
fn dedent_matches_std_lines() {
    let s = " one\r\n\ttwo  \n\n   three\n";
    let expected = s.lines().map(|l| l.trim_start()).collect::<Vec<&str>>().join("\n");
    assert_eq!(dedent(s), expected);
}
