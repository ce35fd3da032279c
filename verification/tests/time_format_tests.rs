use xdownload::text::same_text;
use xdownload::time_format::{
    date_of_moment, format_duration_millis, format_duration_seconds, format_unix_timestamp,
};

#[test]
fn milliseconds_as_minutes_and_seconds() {
    assert_eq!(format_duration_millis(0), "00:00");
    assert_eq!(format_duration_millis(999), "00:00");
    assert_eq!(format_duration_millis(1000), "00:01");
    assert_eq!(format_duration_millis(65_000), "01:05");
    assert_eq!(format_duration_millis(599_999), "09:59");
    assert_eq!(format_duration_millis(600_000), "10:00");
    assert_eq!(format_duration_millis(3_600_000), "60:00");
    assert_eq!(format_duration_millis(360_000_000), "6000:00");
}

#[test]
fn negative_milliseconds_keep_their_sign() {
    assert_eq!(format_duration_millis(-1), "00:00");
    assert_eq!(format_duration_millis(-1000), "00:-1");
    assert_eq!(format_duration_millis(-61_000), "-1:-1");
    assert_eq!(format_duration_millis(-725_000), "-12:-5");
    assert_eq!(format_duration_millis(i64::MIN), "-153722867280912:-55");
    assert_eq!(format_duration_millis(i64::MAX), "153722867280912:55");
}

#[test]
fn seconds_as_minutes_and_seconds_or_with_hours() {
    assert_eq!(format_duration_seconds(0), "00:00");
    assert_eq!(format_duration_seconds(59), "00:59");
    assert_eq!(format_duration_seconds(60), "01:00");
    assert_eq!(format_duration_seconds(3599), "59:59");
    assert_eq!(format_duration_seconds(3600), "01:00:00");
    assert_eq!(format_duration_seconds(3661), "01:01:01");
    assert_eq!(format_duration_seconds(360_000), "100:00:00");
    assert_eq!(format_duration_seconds(i32::MAX), "596523:14:07");
}

#[test]
fn negative_seconds_keep_their_sign() {
    assert_eq!(format_duration_seconds(-5), "00:-5");
    assert_eq!(format_duration_seconds(-65), "-1:-5");
    assert_eq!(format_duration_seconds(-3600), "-60:00");
    assert_eq!(format_duration_seconds(i32::MIN), "-35791394:-8");
}

#[test]
fn timestamp_as_date() {
    assert_eq!(format_unix_timestamp(0), "1970-01-01");
    assert_eq!(format_unix_timestamp(86_399), "1970-01-01");
    assert_eq!(format_unix_timestamp(86_400), "1970-01-02");
    assert_eq!(format_unix_timestamp(1_546_300_800), "2019-01-01");
    assert_eq!(format_unix_timestamp(951_782_400), "2000-02-29");
    assert_eq!(format_unix_timestamp(-1), "1969-12-31");
    assert_eq!(format_unix_timestamp(253_402_300_799), "9999-12-31");
}

#[test]
fn timestamp_that_has_no_date_gives_the_epoch() {
    assert_eq!(format_unix_timestamp(i64::MAX), "1970-01-01");
    assert_eq!(format_unix_timestamp(i64::MIN), "1970-01-01");
    assert_eq!(format_unix_timestamp(253_402_300_800), "1970-01-01");
    assert_eq!(format_unix_timestamp(-62_167_219_201), "1970-01-01");
}

#[test]
fn date_is_what_stands_before_the_first_t() {
    assert_eq!(date_of_moment(Some("2019-01-01T00:00:00Z".to_string())), "2019-01-01");
    assert_eq!(date_of_moment(Some("2019-01-01".to_string())), "2019-01-01");
    assert_eq!(date_of_moment(Some("T".to_string())), "");
    assert_eq!(date_of_moment(Some("aTbTc".to_string())), "a");
    assert_eq!(date_of_moment(Some(String::new())), "");
    assert_eq!(date_of_moment(None), "1970-01-01");
}

#[test]
fn texts_are_compared_by_their_characters() {
    assert!(same_text("netease", "netease"));
    assert!(!same_text("netease", "Netease"));
    assert!(!same_text("a", "ab"));
    assert!(same_text("", ""));
}
