use rhc_bot::interval::{interval_fits, interval_seconds, IntervalError};

#[test]
fn hours_and_days_are_counted_in_seconds() {
    assert_eq!(interval_seconds("1h"), Ok(3_600));
    assert_eq!(interval_seconds("21h"), Ok(75_600));
    assert_eq!(interval_seconds("24h"), Ok(86_400));
    assert_eq!(interval_seconds("30d"), Ok(2_592_000));
}

#[test]
fn a_span_is_a_whole_number_of_hours() {
    for s in ["1h", "7h", "1d", "365d"] {
        let seconds = interval_seconds(s).unwrap();
        assert!(seconds >= 3_600);
        assert_eq!(seconds % 3_600, 0);
    }
}

#[test]
fn other_texts_are_no_spans() {
    for s in ["", "h", "24", "0h", "01h", "-1h", "+1h", "1m", "1hd", " 1h", "1h ", "1h\n", "1.5h", "١h"] {
        assert!(interval_fits(s));
        assert_eq!(interval_seconds(s), Err(IntervalError::Format), "{s}");
    }
    assert_eq!(IntervalError::Format.message(), "更新时间必须类似 21h 或 30d");
}

#[test]
fn a_number_may_be_too_large() {
    assert!(interval_fits("9223372036854775808h"));
    assert_eq!(interval_seconds("9223372036854775808h"), Err(IntervalError::TooLarge));
    let message = "9223372036854775808".parse::<i64>().unwrap_err().to_string();
    assert_eq!(IntervalError::TooLarge.message(), message);
}

#[test]
fn a_span_may_be_too_long_to_count() {
    assert!(!interval_fits("9223372036854775807h"));
    assert!(!interval_fits("106751991167301d"));
    assert!(interval_fits("106751991167300d"));
    assert_eq!(interval_seconds("106751991167300d"), Ok(9_223_372_036_854_720_000));
}
