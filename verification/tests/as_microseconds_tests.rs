use std::time::Duration;

use rust_extensions::date_time::{DateTimeAsMicroseconds, DateTimeDuration};

const SAMPLE_ISO: &str = "2021-04-25T17:30:03.000Z";

fn sample() -> DateTimeAsMicroseconds {
    DateTimeAsMicroseconds::parse_iso_string(SAMPLE_ISO).unwrap()
}

#[test]
fn test_seconds_between() {
    let now = DateTimeAsMicroseconds::parse_iso_string("2021-04-25T17:30:03.000Z").unwrap();
    let before = DateTimeAsMicroseconds::parse_iso_string("2021-04-25T17:30:00.000Z").unwrap();
    assert_eq!(3, now.seconds_before(before));
}

#[test]
fn test_add_seconds() {
    let mut now = DateTimeAsMicroseconds::parse_iso_string("2021-04-25T17:30:03.000Z").unwrap();

    now.add_seconds(1);

    let result = DateTimeAsMicroseconds::parse_iso_string("2021-04-25T17:30:04.000Z").unwrap();
    assert_eq!(now.unix_microseconds, result.unix_microseconds)
}

#[test]
fn test_add_minutes() {
    let mut now = DateTimeAsMicroseconds::parse_iso_string("2021-04-25T17:30:03.000Z").unwrap();

    now.add_minutes(1);

    let result = DateTimeAsMicroseconds::parse_iso_string("2021-04-25T17:31:03.000Z").unwrap();
    assert_eq!(now.unix_microseconds, result.unix_microseconds)
}

#[test]
fn test_add_hours() {
    let mut now = DateTimeAsMicroseconds::parse_iso_string("2021-04-25T17:30:03.000Z").unwrap();

    now.add_hours(1);

    let result = DateTimeAsMicroseconds::parse_iso_string("2021-04-25T18:30:03.000Z").unwrap();
    assert_eq!(now.unix_microseconds, result.unix_microseconds)
}

#[test]
fn test_add_days() {
    let mut now = DateTimeAsMicroseconds::parse_iso_string("2021-04-25T17:30:03.000Z").unwrap();

    now.add_days(1);

    let result = DateTimeAsMicroseconds::parse_iso_string("2021-04-26T17:30:03.000Z").unwrap();
    assert_eq!(now.unix_microseconds, result.unix_microseconds)
}

#[test]
fn test_duration_since() {
    let now = DateTimeAsMicroseconds::parse_iso_string("2021-04-25T17:30:03.000Z").unwrap();

    let before = DateTimeAsMicroseconds::new(now.unix_microseconds - 1);

    let duration = now.duration_since(before);

    assert_eq!(1, duration.as_positive_or_zero().as_micros());
}

#[test]
fn test_from_trait() {
    let now = DateTimeAsMicroseconds::parse_iso_string("2021-04-25T17:30:03.000Z").unwrap();

    let now_microseconds = now.unix_microseconds;

    let result: DateTimeAsMicroseconds = now_microseconds.into();

    assert_eq!("2021-04-25T17:30:03", &result.to_rfc3339()[..19]);

    let now_milliseconds = now_microseconds / 1000;

    let result: DateTimeAsMicroseconds = now_milliseconds.into();

    assert_eq!("2021-04-25T17:30:03", &result.to_rfc3339()[..19]);

    let now_seconds = now_milliseconds / 1000;

    let result: DateTimeAsMicroseconds = now_seconds.into();

    assert_eq!("2021-04-25T17:30:03", &result.to_rfc3339()[..19]);
}

#[test]
fn test_parse_date_only() {
    let now = DateTimeAsMicroseconds::from_str("2021-04-25").unwrap();
    assert_eq!("2021-04-25T00:00:00", &now.to_rfc3339()[..19]);
}

#[test]
fn client_input_time_to_server_time_1() {
    let client_time =
        DateTimeAsMicroseconds::parse_iso_string("2021-04-25T19:30:03.000Z").unwrap();
    let server_time =
        DateTimeAsMicroseconds::parse_iso_string("2021-04-25T17:30:00.000Z").unwrap();

    let input_time = DateTimeAsMicroseconds::client_input_time_to_server_time(
        DateTimeAsMicroseconds::parse_iso_string("2021-04-25T19:30:03.000Z").unwrap(),
        client_time,
        server_time,
    );
    assert_eq!("2021-04-25T17:30:03", &input_time.to_rfc3339()[..19]);
}

#[test]
fn client_input_time_to_server_time_2() {
    let client_time =
        DateTimeAsMicroseconds::parse_iso_string("2021-04-25T17:30:03.000Z").unwrap();
    let server_time =
        DateTimeAsMicroseconds::parse_iso_string("2021-04-25T19:30:00.000Z").unwrap();

    let input_time = DateTimeAsMicroseconds::client_input_time_to_server_time(
        DateTimeAsMicroseconds::parse_iso_string("2021-04-25T17:30:03.000Z").unwrap(),
        client_time,
        server_time,
    );
    assert_eq!("2021-04-25T19:30:03", &input_time.to_rfc3339()[..19]);
}

#[test]
fn client_input_time_to_server_time_4() {
    let client_time =
        DateTimeAsMicroseconds::parse_iso_string("2021-04-25T17:30:03.000Z").unwrap();
    let server_time =
        DateTimeAsMicroseconds::parse_iso_string("2021-04-25T19:30:00.000Z").unwrap();

    let input_time = DateTimeAsMicroseconds::client_input_time_to_server_time(
        DateTimeAsMicroseconds::parse_iso_string("2021-04-25T16:30:03.000Z").unwrap(),
        client_time,
        server_time,
    );
    assert_eq!("2021-04-25T18:30:03", &input_time.to_rfc3339()[..19]);
}

#[test]
fn test_add_duration() {
    let dt = DateTimeAsMicroseconds::parse_iso_string("2021-04-25T17:30:03.001Z").unwrap();

    assert_eq!(
        "2021-04-25T17:30:04.001",
        &dt.add(Duration::from_secs(1)).to_rfc3339()[0..23]
    );
}

#[test]
fn test_sub_duration() {
    let dt = DateTimeAsMicroseconds::parse_iso_string("2021-04-25T17:30:03.001Z").unwrap();

    assert_eq!(
        "2021-04-25T17:30:02.001",
        &dt.sub(Duration::from_secs(1)).to_rfc3339()[0..23]
    );
}

#[test]
fn test_from_date() {
    let dt = DateTimeAsMicroseconds::from_str("2021-04-25").unwrap();

    assert_eq!("2021-04-25T00:00:00", &dt.to_rfc3339()[0..19]);
}

#[test]
fn test_from_date_time_without_seconds() {
    let dt = DateTimeAsMicroseconds::from_str("2021-04-25T12:34").unwrap();

    assert_eq!("2021-04-25T12:34:00", &dt.to_rfc3339()[0..19]);
}

#[test]
fn test_is_later_than() {
    let now = DateTimeAsMicroseconds::parse_iso_string("2021-04-25T17:30:03.000Z").unwrap();
    let later = DateTimeAsMicroseconds::parse_iso_string("2021-04-25T17:30:04.000Z").unwrap();
    let earlier = DateTimeAsMicroseconds::parse_iso_string("2021-04-25T17:30:02.000Z").unwrap();

    assert!(later.is_later_than(now));
    assert!(!now.is_later_than(later));
    assert!(!now.is_later_than(now));
    assert!(!earlier.is_later_than(now));

    assert!(earlier.is_earlier_than(now));
}

#[test]
fn test_from_mil_micro_secs() {
    //nanoseconds
    let value: DateTimeAsMicroseconds = 1679059876123456000i64.into();
    assert_eq!("2023-03-17T13:31:16.123456", &value.to_rfc3339()[..26]);

    //microseconds
    let value: DateTimeAsMicroseconds = 1679059876123456i64.into();
    assert_eq!("2023-03-17T13:31:16.123456", &value.to_rfc3339()[..26]);
    let value: DateTimeAsMicroseconds = 315525600123456i64.into();
    assert_eq!("1979-12-31T22:00:00.123456", &value.to_rfc3339()[..26]);

    //milliseconds
    let value: DateTimeAsMicroseconds = 1679059876123i64.into();
    assert_eq!("2023-03-17T13:31:16.123", &value.to_rfc3339()[..23]);
    let value: DateTimeAsMicroseconds = 315525600123i64.into();
    assert_eq!("1979-12-31T22:00:00.123", &value.to_rfc3339()[..23]);

    //seconds
    let value: DateTimeAsMicroseconds = 1679059876i64.into();
    assert_eq!("2023-03-17T13:31:16", &value.to_rfc3339()[..19]);
    let value: DateTimeAsMicroseconds = 315525600i64.into();
    assert_eq!("1979-12-31T22:00:00", &value.to_rfc3339()[..19]);
}

#[test]
fn test_from_negative_timestamps() {
    // A negative timestamp is the same unit as its positive counterpart,
    // pointing before the unix epoch.

    //seconds
    let value: DateTimeAsMicroseconds = (-1679059876i64).into();
    assert_eq!(-1679059876_000000, value.unix_microseconds);

    //milliseconds
    let value: DateTimeAsMicroseconds = (-315525600123i64).into();
    assert_eq!(-315525600123_000, value.unix_microseconds);

    //microseconds
    let value: DateTimeAsMicroseconds = (-315525600123456i64).into();
    assert_eq!(-315525600123456, value.unix_microseconds);

    //nanoseconds
    let value: DateTimeAsMicroseconds = (-315525600123456000i64).into();
    assert_eq!(-315525600123456, value.unix_microseconds);
}

#[test]
fn some_random_tests() {
    let value: DateTimeAsMicroseconds = 1679000370000i64.into();
    println!("{}", value.to_rfc3339());
}

#[test]
fn from_str_empty() {
    let time = DateTimeAsMicroseconds::from_str("");

    assert_eq!(true, time.is_none());
}

#[test]
fn from_str_too_short_returns_none_instead_of_panicking() {
    for src in ["x", "ab", "abc", "2024-", "2021-04", "-", "T", "::"] {
        assert!(
            DateTimeAsMicroseconds::from_str(src).is_none(),
            "expected None for {}",
            src
        );
    }
}

#[test]
fn from_str_garbage_returns_none() {
    for src in [
        "not-a-date",
        "hello world",
        "2021-04-25T",
        "----------",
        "@@@@@@@@@@@@@@@@@@@@",
    ] {
        assert!(
            DateTimeAsMicroseconds::from_str(src).is_none(),
            "expected None for {}",
            src
        );
    }
}

#[test]
fn from_str_truncated_rfc3339_returns_none_instead_of_panicking() {
    for src in [
        "2021-04-25T",
        "2021-04-25T1",
        "2021-04-25T17",
        "2021-04-25T17:",
        "2021-04-25T17:3",
        "2021-04-25T17:30:",
        "2021-04-25T17:30:0",
    ] {
        let _ = DateTimeAsMicroseconds::from_str(src);
    }
}

#[test]
fn from_json_value_str_reads_quoted_tokens() {
    for token in [
        "\"2021-04-25T17:30:03.000000Z\"",
        "\"2021-04-25T17:30:03+00:00\"",
        "\"2021-04-25T17:30:03Z\"",
        "\"1619371803000000\"",
        "\"1619371803000\"",
        "\"1619371803\"",
        "'2021-04-25T17:30:03.000000Z'",
    ] {
        assert_eq!(
            Some(sample()),
            DateTimeAsMicroseconds::from_json_value_str(token),
            "token {}",
            token
        );
    }
}

#[test]
fn from_json_value_str_reads_bare_numbers() {
    for token in ["1619371803000000", "1619371803000", "1619371803"] {
        assert_eq!(
            Some(sample()),
            DateTimeAsMicroseconds::from_json_value_str(token),
            "token {}",
            token
        );
    }

    assert_eq!(
        -315525600123456,
        DateTimeAsMicroseconds::from_json_value_str("-315525600123456")
            .unwrap()
            .unix_microseconds
    );
}

#[test]
fn from_json_value_str_quotes_do_not_change_the_meaning() {
    for (quoted, bare) in [
        ("\"1619371803\"", "1619371803"),
        ("\"1619371803000\"", "1619371803000"),
        ("\"1619371803000000\"", "1619371803000000"),
        ("\"2021-04-25T17:30:03Z\"", "2021-04-25T17:30:03Z"),
    ] {
        assert_eq!(
            DateTimeAsMicroseconds::from_json_value_str(quoted),
            DateTimeAsMicroseconds::from_json_value_str(bare),
            "quoted {} vs bare {}",
            quoted,
            bare
        );
    }
}

#[test]
fn from_json_value_str_handles_null_and_whitespace() {
    assert_eq!(None, DateTimeAsMicroseconds::from_json_value_str("null"));
    assert_eq!(None, DateTimeAsMicroseconds::from_json_value_str(""));
    assert_eq!(None, DateTimeAsMicroseconds::from_json_value_str("   "));
    assert_eq!(None, DateTimeAsMicroseconds::from_json_value_str("\"\""));

    assert_eq!(
        Some(sample()),
        DateTimeAsMicroseconds::from_json_value_str("  \"2021-04-25T17:30:03.000000Z\"  ")
    );
    assert_eq!(
        Some(sample()),
        DateTimeAsMicroseconds::from_json_value_str(" 1619371803000000 ")
    );
}

#[test]
fn from_json_value_str_reads_unquoted_date_time() {
    assert_eq!(
        Some(sample()),
        DateTimeAsMicroseconds::from_json_value_str("2021-04-25T17:30:03.000000Z")
    );
}

#[test]
fn from_json_value_str_rejects_garbage_without_panicking() {
    for token in [
        "\"x\"", "\"ab\"", "\"not-a-date\"", "x", "ab", "not-a-date", "\"", "'", "{}", "[]",
        "true",
    ] {
        assert_eq!(
            None,
            DateTimeAsMicroseconds::from_json_value_str(token),
            "token {}",
            token
        );
    }
}

#[test]
fn test_negative_date() {
    let b = DateTimeAsMicroseconds::from_str("1969-01-01").unwrap();
    assert_eq!("1969-01-01T00:00:00", &b.to_rfc3339()[..19]);
}

#[test]
fn test_add() {
    let b = DateTimeAsMicroseconds::from_str("1969-01-01").unwrap();
    let b = b.add(Duration::from_secs(1));

    assert_eq!("1969-01-01T00:00:01", &b.to_rfc3339()[..19]);
}

#[test]
fn test_greater() {
    let a = DateTimeAsMicroseconds::from_str("1969-01-01").unwrap();
    let b = DateTimeAsMicroseconds::from_str("1969-01-02").unwrap();

    assert!(a < b);
}

#[test]
fn test_positive_duration() {
    let now = DateTimeAsMicroseconds::now();
    let prev = DateTimeAsMicroseconds::new(now.unix_microseconds - 1);

    let duration = DateTimeDuration::new(&prev, &now);

    match duration {
        DateTimeDuration::Positive(value) => {
            assert_eq!(value.as_micros(), 1);
        }
        DateTimeDuration::Negative(_) => {
            panic!("Should not be here")
        }
        DateTimeDuration::Zero => {
            panic!("Should not be here")
        }
    }
}

#[test]
fn test_negative_duration() {
    let now = DateTimeAsMicroseconds::now();
    let prev = DateTimeAsMicroseconds::new(now.unix_microseconds + 1);

    let duration = DateTimeDuration::new(&prev, &now);

    match duration {
        DateTimeDuration::Positive(_) => {
            panic!("Should not be here")
        }
        DateTimeDuration::Negative(value) => {
            assert_eq!(value.as_micros(), 1);
        }
        DateTimeDuration::Zero => {
            panic!("Should not be here")
        }
    }
}

#[test]
fn test_zero_duration() {
    let now = DateTimeAsMicroseconds::now();
    let prev = DateTimeAsMicroseconds::new(now.unix_microseconds);

    let duration = DateTimeDuration::new(&prev, &now);

    match duration {
        DateTimeDuration::Positive(_) => {
            panic!("Should not be here")
        }
        DateTimeDuration::Negative(_) => {
            panic!("Should not be here")
        }
        DateTimeDuration::Zero => {
            println!("Zero");
        }
    }
}

#[test]
fn test_get_full_seconds() {
    let after = DateTimeAsMicroseconds::from_str("2021-03-05T01:12:32").unwrap();

    let before = DateTimeAsMicroseconds::from_str("2021-03-05T01:12:31").unwrap();

    let duration = after - before;

    assert_eq!(duration.get_full_seconds(), 1);

    let duration = before - after;

    assert_eq!(duration.get_full_seconds(), -1);
}

#[test]
fn test_get_full_minutes() {
    let after = DateTimeAsMicroseconds::from_str("2021-03-05T01:12:32").unwrap();

    let before = DateTimeAsMicroseconds::from_str("2021-03-05T01:12:31").unwrap();

    let duration = after - before;

    assert_eq!(duration.get_full_minutes(), 0);

    let duration = before - after;

    assert_eq!(duration.get_full_minutes(), 0);

    let before = DateTimeAsMicroseconds::from_str("2021-03-05T01:11:32").unwrap();

    let duration = after - before;

    assert_eq!(duration.get_full_minutes(), 1);

    let duration = before - after;

    assert_eq!(duration.get_full_minutes(), -1);
}

#[test]
fn from_system_time_counts_microseconds_from_the_epoch() {
    let after = std::time::UNIX_EPOCH + std::time::Duration::from_nanos(1_619_371_803_000_001_999);
    assert_eq!(
        DateTimeAsMicroseconds::from_system_time(after).unix_microseconds,
        1_619_371_803_000_001
    );
    let before = std::time::UNIX_EPOCH - std::time::Duration::from_micros(1_500);
    assert_eq!(DateTimeAsMicroseconds::from_system_time(before).unix_microseconds, -1_500);
    assert!(DateTimeAsMicroseconds::now().unix_microseconds > 1_600_000_000_000_000);
}

#[test]
fn json_quotes_are_only_packaging() {
    for bare in ["1619371803", "2021-04-25T17:30:03Z", "null", "abc", "", "-5"] {
        let expected = if bare.is_empty() || bare == "null" {
            None
        } else {
            DateTimeAsMicroseconds::from_str(bare)
        };
        assert_eq!(DateTimeAsMicroseconds::from_json_value_str(bare), expected, "bare {}", bare);
        for quote in ['"', '\''] {
            let quoted = format!("{quote}{bare}{quote}");
            assert_eq!(
                DateTimeAsMicroseconds::from_json_value_str(&quoted),
                expected,
                "quoted {}",
                quoted
            );
        }
    }
    assert_eq!(
        DateTimeAsMicroseconds::from_json_value_str("'1619371803'"),
        Some(DateTimeAsMicroseconds::new(1619371803000000))
    );
}

#[test]
fn to_rfc3339_writes_the_shortest_fraction_and_a_zero_offset() {
    let whole = DateTimeAsMicroseconds::new(1619371803000000);
    assert_eq!(whole.to_rfc3339(), "2021-04-25T17:30:03+00:00");
    let millis = DateTimeAsMicroseconds::new(1619371803120000);
    assert_eq!(millis.to_rfc3339(), "2021-04-25T17:30:03.120+00:00");
    let micros = DateTimeAsMicroseconds::new(1619371803123456);
    assert_eq!(micros.to_rfc3339(), "2021-04-25T17:30:03.123456+00:00");
}
