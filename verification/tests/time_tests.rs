use weather::error::WeatherError;
use weather::time::{format_time_text, format_timestamp, parse_timestamp, Timestamp};

#[test]
fn afternoon_timestamp_renders_in_12_hour_form() {
    assert_eq!(format_time_text("2024-03-15T14:00").unwrap(), "2 PM on Mar 15, 2024");
}

#[test]
fn midnight_renders_as_12_am() {
    assert_eq!(format_time_text("2024-01-01T00:00").unwrap(), "12 AM on Jan 1, 2024");
}

#[test]
fn last_hour_of_year_renders_as_11_pm() {
    assert_eq!(format_time_text("2024-12-31T23:00").unwrap(), "11 PM on Dec 31, 2024");
}

#[test]
fn noon_renders_as_12_pm() {
    assert_eq!(format_time_text("2024-06-07T12:30").unwrap(), "12 PM on Jun 7, 2024");
}

#[test]
fn malformed_text_fails_time_parsing() {
    assert_eq!(format_time_text("not-a-date"), Err(WeatherError::TimeParseError));
    assert_eq!(format_time_text(""), Err(WeatherError::TimeParseError));
    assert_eq!(format_time_text("2024-03-15 14:00"), Err(WeatherError::TimeParseError));
    assert_eq!(format_time_text("2024-3-15T14:00"), Err(WeatherError::TimeParseError));
    assert_eq!(format_time_text("2024-03-15T14:00:00"), Err(WeatherError::TimeParseError));
}

#[test]
fn impossible_dates_fail_time_parsing() {
    assert_eq!(parse_timestamp("2024-13-01T00:00"), Err(WeatherError::TimeParseError));
    assert_eq!(parse_timestamp("2024-00-10T00:00"), Err(WeatherError::TimeParseError));
    assert_eq!(parse_timestamp("2024-04-31T00:00"), Err(WeatherError::TimeParseError));
    assert_eq!(parse_timestamp("2024-03-15T24:00"), Err(WeatherError::TimeParseError));
    assert_eq!(parse_timestamp("2024-03-15T14:60"), Err(WeatherError::TimeParseError));
    assert_eq!(parse_timestamp("2023-02-29T08:00"), Err(WeatherError::TimeParseError));
    assert_eq!(parse_timestamp("1900-02-29T08:00"), Err(WeatherError::TimeParseError));
}

#[test]
fn leap_days_parse_where_real() {
    assert_eq!(
        parse_timestamp("2024-02-29T08:05"),
        Ok(Timestamp { year: 2024, month: 2, day: 29, hour: 8, minute: 5 })
    );
    assert_eq!(
        parse_timestamp("2000-02-29T23:59"),
        Ok(Timestamp { year: 2000, month: 2, day: 29, hour: 23, minute: 59 })
    );
}

#[test]
fn parsed_fields_match_the_text() {
    assert_eq!(
        parse_timestamp("1987-11-03T09:41"),
        Ok(Timestamp { year: 1987, month: 11, day: 3, hour: 9, minute: 41 })
    );
}

#[test]
fn formatting_pads_nothing_and_keeps_four_digit_years() {
    let t = Timestamp { year: 987, month: 8, day: 2, hour: 1, minute: 0 };
    assert_eq!(format_timestamp(&t), "1 AM on Aug 2, 0987");
    let t2 = Timestamp { year: 2024, month: 10, day: 31, hour: 13, minute: 15 };
    assert_eq!(format_timestamp(&t2), "1 PM on Oct 31, 2024");
}
