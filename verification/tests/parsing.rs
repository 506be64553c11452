use clockeroo::errors::ParseError;
use clockeroo::format_duration;
use clockeroo::format_stopwatch;
use clockeroo::hour_to_24;
use clockeroo::parse_alarm_time;
use clockeroo::parse_duration;
use clockeroo::TimeOfDay;
use std::time::Duration;

#[test]
fn test_parse_duration() {
    assert_eq!(parse_duration("120s").unwrap(), Duration::from_secs(120).as_secs());
    assert_eq!(parse_duration("5m").unwrap(), Duration::from_secs(300).as_secs());
    assert_eq!(parse_duration("2h").unwrap(), Duration::from_secs(7200).as_secs());
    assert_eq!(parse_duration("1h30m").unwrap(), Duration::from_secs(5400).as_secs());
    assert_eq!(parse_duration("1h30m45s").unwrap(), Duration::from_secs(5445).as_secs());
    assert_eq!(parse_duration("90").unwrap(), Duration::from_secs(90).as_secs());
}

#[test]
fn test_parse_alarm_time() {
    let time1 = parse_alarm_time("7:20am").unwrap();
    assert_eq!(time1.hour(), 7);
    assert_eq!(time1.minute(), 20);

    let time2 = parse_alarm_time("7:20pm").unwrap();
    assert_eq!(time2.hour(), 19);
    assert_eq!(time2.minute(), 20);

    let time3 = parse_alarm_time("23:45").unwrap();
    assert_eq!(time3.hour(), 23);
    assert_eq!(time3.minute(), 45);

    let time4 = parse_alarm_time("12:00am").unwrap();
    assert_eq!(time4.hour(), 0);
    assert_eq!(time4.minute(), 0);

    let time5 = parse_alarm_time("12:00pm").unwrap();
    assert_eq!(time5.hour(), 12);
    assert_eq!(time5.minute(), 0);
}

#[test]
fn duration_components_in_any_order() {
    assert_eq!(parse_duration("45s30m1h").unwrap(), 5445);
    assert_eq!(parse_duration("30m1h45s").unwrap(), 5445);
    assert_eq!(parse_duration("1H30M45S").unwrap(), 5445);
    assert_eq!(parse_duration("3s5m").unwrap(), 303);
}

#[test]
fn duration_zero_or_empty_rejected() {
    assert_eq!(parse_duration("0s"), Err(ParseError::InvalidDuration));
    assert_eq!(parse_duration(""), Err(ParseError::InvalidDuration));
    assert_eq!(parse_duration("abc"), Err(ParseError::InvalidDuration));
    assert_eq!(parse_duration("0h0m0s"), Err(ParseError::InvalidDuration));
}

#[test]
fn duration_off_grammar_rejected() {
    // A character outside digits and unit markers.
    assert_eq!(parse_duration("1x"), Err(ParseError::InvalidDuration));
    assert_eq!(parse_duration("1h 30m"), Err(ParseError::InvalidDuration));
    // A digit run not closed by a marker, in a string with components.
    assert_eq!(parse_duration("5m3"), Err(ParseError::InvalidDuration));
    assert_eq!(parse_duration("1h30"), Err(ParseError::InvalidDuration));
    // A marker closing an empty run.
    assert_eq!(parse_duration("h"), Err(ParseError::InvalidDuration));
    assert_eq!(parse_duration("1hh"), Err(ParseError::InvalidDuration));
    assert_eq!(parse_duration("m30s"), Err(ParseError::InvalidDuration));
}

#[test]
fn duration_beyond_the_countable_rejected() {
    assert_eq!(parse_duration("99999999999999999999"), Err(ParseError::DurationTooLarge));
    assert_eq!(parse_duration("9000000000000000000h"), Err(ParseError::DurationTooLarge));
}

#[test]
fn twelve_hour_conversion() {
    assert_eq!(hour_to_24(12, false), 0);
    assert_eq!(hour_to_24(12, true), 12);
    assert_eq!(hour_to_24(7, true), 19);
    assert_eq!(hour_to_24(7, false), 7);
    assert_eq!(hour_to_24(11, true), 23);
    assert_eq!(hour_to_24(1, false), 1);

    assert_eq!(parse_alarm_time("1:05pm").unwrap(), TimeOfDay { hour: 13, minute: 5 });
    assert_eq!(parse_alarm_time("11:59am").unwrap(), TimeOfDay { hour: 11, minute: 59 });
    assert_eq!(parse_alarm_time("11:59PM").unwrap(), TimeOfDay { hour: 23, minute: 59 });
}

#[test]
fn alarm_time_errors() {
    assert_eq!(parse_alarm_time("13:00pm"), Err(ParseError::InvalidHour));
    assert_eq!(parse_alarm_time("0:30am"), Err(ParseError::InvalidHour));
    assert_eq!(parse_alarm_time("24:00"), Err(ParseError::InvalidTime));
    assert_eq!(parse_alarm_time("12:60"), Err(ParseError::InvalidTime));
    assert_eq!(parse_alarm_time("1230"), Err(ParseError::InvalidTimeFormat));
    assert_eq!(parse_alarm_time("12:30:45"), Err(ParseError::InvalidTimeFormat));
    assert_eq!(parse_alarm_time(":30"), Err(ParseError::InvalidTimeFormat));
    assert_eq!(parse_alarm_time("7:"), Err(ParseError::InvalidTimeFormat));
    assert_eq!(parse_alarm_time("7:x0"), Err(ParseError::InvalidTimeFormat));
}

#[test]
fn duration_formatting() {
    assert_eq!(format_duration(0), "00:00");
    assert_eq!(format_duration(45), "00:45");
    assert_eq!(format_duration(90), "01:30");
    assert_eq!(format_duration(3661), "01:01:01");
    assert_eq!(format_duration(5445), "01:30:45");
    assert_eq!(format_duration(359999), "99:59:59");
    assert_eq!(format_duration(360000), "100:00:00");
}

#[test]
fn stopwatch_formatting() {
    assert_eq!(format_stopwatch(0), "00:00.000");
    assert_eq!(format_stopwatch(999), "00:00.999");
    assert_eq!(format_stopwatch(61_234), "01:01.234");
    assert_eq!(format_stopwatch(3_600_005), "01:00:00.005");
    assert_eq!(format_stopwatch(60_042), "01:00.042");
}
