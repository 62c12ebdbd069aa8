use rust_extensions::date_time::{
    DateTimeAsMicroseconds, DateTimeAsMicrosecondsWithTimeZone, DateTimeStruct, TimeZone,
};

fn utc(src: &str) -> DateTimeAsMicroseconds {
    DateTimeAsMicroseconds::parse_iso_string(src).unwrap()
}

fn tz(minutes: i32) -> TimeZone {
    TimeZone::from_minutes(minutes)
}

#[test]
fn test_2822() {
    let src = DateTimeAsMicroseconds::new(1704379539839324);

    assert_eq!(src.to_rfc2822(), "Thu, 04 Jan 2024 14:45:39 +0000");
}

#[test]
fn test() {
    let result = DateTimeStruct::parse_rfc_5322("Sep  8 18:41:54 2032 GMT").unwrap();

    assert_eq!(2032, result.year);
    assert_eq!(9, result.month);
    assert_eq!(8, result.day);

    assert_eq!(18, result.time.hour);
    assert_eq!(41, result.time.min);
    assert_eq!(54, result.time.sec);

    assert_eq!(0, result.time.micros);
}

#[test]
fn test_parse_forward_and_back() {
    let result = DateTimeStruct::parse_rfc_5322("Sep  8 18:41:54 2032 GMT").unwrap();

    assert_eq!("Sep  8 18:41:54 2032 GMT", result.to_rfc5322())
}

#[test]
fn from_server_and_local_time_rounds_to_15_minutes() {
    let server = utc("2021-04-25T17:30:03.000Z");

    let case = |offset_minutes: i64| {
        let mut local = server;
        local.add_minutes(offset_minutes);
        TimeZone::from_server_and_local_time(server, local).offset_in_minutes()
    };

    assert_eq!(60, case(60)); // exact +1h
    assert_eq!(60, case(58)); // +58m rounds up to 60
    assert_eq!(45, case(50)); // +50m -> nearest 15 -> 45
    assert_eq!(345, case(345)); // Nepal +5:45 stays exact
    assert_eq!(0, case(7)); // +7m rounds down to 0
    assert_eq!(-300, case(-300)); // -5h stays -300
}

#[test]
fn offset_conversions() {
    let tz = TimeZone::from_minutes(90);
    assert_eq!(90, tz.offset_in_minutes());
    assert_eq!(5400, tz.offset_in_seconds());
}

#[test]
fn local_struct_applies_positive_offset() {
    // 17:30 UTC at UTC+1 is 18:30 local.
    let value = DateTimeAsMicrosecondsWithTimeZone::new(utc("2021-04-25T17:30:03.000Z"), tz(60));

    let local = value.to_local_date_time_struct();
    assert_eq!(2021, local.year);
    assert_eq!(4, local.month);
    assert_eq!(25, local.day);
    assert_eq!(18, local.time.hour);
    assert_eq!(30, local.time.min);
    assert_eq!(3, local.time.sec);
}

#[test]
fn local_struct_applies_negative_offset_across_midnight() {
    // 01:30 UTC at UTC-5 is 20:30 the previous day.
    let value =
        DateTimeAsMicrosecondsWithTimeZone::new(utc("2021-04-25T01:30:00.000Z"), tz(-300));

    let local = value.to_local_date_time_struct();
    assert_eq!(2021, local.year);
    assert_eq!(4, local.month);
    assert_eq!(24, local.day);
    assert_eq!(20, local.time.hour);
    assert_eq!(30, local.time.min);
}

#[test]
fn to_rfc3339_renders_offset() {
    let value = DateTimeAsMicrosecondsWithTimeZone::new(utc("2021-04-25T17:30:03.000Z"), tz(60));
    assert_eq!("2021-04-25T18:30:03.000000+01:00", value.to_rfc3339());

    let value =
        DateTimeAsMicrosecondsWithTimeZone::new(utc("2021-04-25T17:30:03.000Z"), tz(-300));
    assert_eq!("2021-04-25T12:30:03.000000-05:00", value.to_rfc3339());

    // Half-hour offset (UTC+5:30 = 330 minutes).
    let value =
        DateTimeAsMicrosecondsWithTimeZone::new(utc("2021-04-25T17:30:03.000Z"), tz(330));
    assert_eq!("2021-04-25T23:00:03.000000+05:30", value.to_rfc3339());
}

#[test]
fn to_compact_string_renders_local_time() {
    let value = DateTimeAsMicrosecondsWithTimeZone::new(utc("2021-04-25T17:30:03.000Z"), tz(60));
    assert_eq!("2021-04-25 18:30:03", value.to_compact_string());
}

#[test]
fn from_str_reads_offset_into_minutes() {
    let value =
        DateTimeAsMicrosecondsWithTimeZone::from_str("2021-04-25T18:30:03+01:00").unwrap();

    assert_eq!(60, value.time_zone.offset_in_minutes());
    // The stored instant is UTC.
    assert_eq!(utc("2021-04-25T17:30:03.000Z"), value.date_time);
}

#[test]
fn from_str_reads_z_as_utc() {
    let value = DateTimeAsMicrosecondsWithTimeZone::from_str("2021-04-25T17:30:03Z").unwrap();

    assert_eq!(0, value.time_zone.offset_in_minutes());
    assert_eq!(utc("2021-04-25T17:30:03.000Z"), value.date_time);
}

#[test]
fn from_str_reads_half_hour_offset() {
    let value =
        DateTimeAsMicrosecondsWithTimeZone::from_str("2021-04-25T23:00:03+05:30").unwrap();

    assert_eq!(330, value.time_zone.offset_in_minutes());
    assert_eq!(utc("2021-04-25T17:30:03.000Z"), value.date_time);
}

#[test]
fn from_server_and_local_time_derives_time_zone() {
    let server = utc("2021-04-25T17:30:03.000Z");

    let mut local = server;
    local.add_minutes(58); // rounds to +60

    let value = DateTimeAsMicrosecondsWithTimeZone::from_server_and_local_time(server, local);

    assert_eq!(60, value.time_zone.offset_in_minutes());
    assert_eq!(server, value.date_time);
    // Server 17:30 UTC rendered in the derived +1h zone reads 18:30 local.
    assert_eq!("2021-04-25 18:30:03", value.to_compact_string());
}

#[test]
fn zoned_rfc3339_text_reads_back_as_the_same_instant_and_offset() {
    for (micros, minutes) in [
        (1_619_371_803_000_000i64, 60i32),
        (1_619_371_803_123_456, -300),
        (0, 345),
        (-1, 0),
    ] {
        let value = DateTimeAsMicrosecondsWithTimeZone::new(
            DateTimeAsMicroseconds::new(micros),
            TimeZone::from_minutes(minutes),
        );
        let text = value.to_rfc3339();
        let back = DateTimeAsMicrosecondsWithTimeZone::from_str(&text).unwrap();
        assert_eq!(back.date_time.unix_microseconds, micros, "{}", text);
        assert_eq!(back.time_zone.offset_in_minutes(), minutes, "{}", text);
    }
}
