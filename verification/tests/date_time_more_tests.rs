use rust_extensions::date_time::chrono_bridge::is_in_chrono_range;
use rust_extensions::date_time::interval_key::interval_utils::{
    minute, month, week_monday, week_sunday, year,
};
use rust_extensions::date_time::{DateTimeAsMicroseconds, DateTimeStruct, TimeStruct};

#[test]
fn renders_the_same_instant_in_every_format() {
    let t = DateTimeAsMicroseconds::new(1704379539839324);
    assert_eq!(t.to_rfc2822(), "Thu, 04 Jan 2024 14:45:39 +0000");
    assert_eq!(t.to_rfc7231(), "Thu, 04 Jan 2024 14:45:39 GMT");
    assert_eq!(t.to_rfc5322(), "Jan  4 14:45:39 2024 GMT");
    assert_eq!(t.to_compact_date_time_string(), "2024-01-04 14:45:39");
    assert_eq!(t.to_rfc3339_utc(), "2024-01-04T14:45:39.839324Z");
    assert_eq!(t.to_rfc3339(), "2024-01-04T14:45:39.839324+00:00");
}

#[test]
fn create_builds_the_instant_of_the_fields() {
    let t = DateTimeAsMicroseconds::create(2021, 4, 25, 17, 30, 3, 5);
    assert_eq!(t, DateTimeAsMicroseconds::parse_iso_string("2021-04-25T17:30:03.000005Z").unwrap());
    let before_epoch = DateTimeAsMicroseconds::create(1969, 12, 31, 23, 59, 59, 0);
    assert_eq!(before_epoch.unix_microseconds, -1_000_000);
}

#[test]
fn fields_of_an_instant_and_back() {
    for t in [0i64, -1, 1, 951782400000000, -62135596800000000, 253402300799999999] {
        let s = DateTimeStruct::from_unix_microseconds(t);
        assert_eq!(s.to_unix_microseconds(), Some(t));
    }
    let leap = DateTimeStruct::from_unix_microseconds(951782400000000);
    assert_eq!((leap.year, leap.month, leap.day), (2000, 2, 29));
    let invalid = DateTimeStruct {
        year: 2021,
        month: 2,
        day: 29,
        time: TimeStruct { hour: 0, min: 0, sec: 0, micros: 0 },
        dow: None,
    };
    assert_eq!(invalid.to_unix_microseconds(), None);
}

#[test]
fn rfc_5322_parse_skips_weekday_and_refuses_garbage() {
    let parsed = DateTimeStruct::parse_rfc_5322("Thu Jan  4 14:45:39 2024").unwrap();
    assert_eq!((parsed.year, parsed.month, parsed.day), (2024, 1, 4));
    assert!(DateTimeStruct::parse_rfc_5322("Foo 4 14:45:39 2024").is_none());
    assert!(DateTimeStruct::parse_rfc_5322("Jan x 14:45:39 2024").is_none());
    assert!(DateTimeStruct::parse_rfc_5322("Jan 4 14:45 2024").is_none());
    assert_eq!(TimeStruct::parse_from_str("18:41:54").unwrap().min, 41);
}

#[test]
fn week_starts_are_mondays_and_sundays() {
    let thursday = DateTimeAsMicroseconds::parse_iso_string("2021-03-04T10:00:00Z").unwrap();
    assert_eq!(week_monday::to_value(thursday), 20210301);
    assert_eq!(week_sunday::to_value(thursday), 20210228);
    assert_eq!(
        week_monday::to_date_time(20210304).unwrap(),
        DateTimeAsMicroseconds::parse_iso_string("2021-03-01T00:00:00Z").unwrap()
    );
    assert_eq!(
        week_monday::to_date_time(20210230).unwrap_err(),
        "20210230 is not a valid year+month+day key"
    );
}

#[test]
fn keys_name_their_errors() {
    assert_eq!(month::to_date_time(202113).unwrap_err(), "202113 is not a valid year+month key");
    assert_eq!(
        minute::to_date_time(202103051260).unwrap_err(),
        "202103051260 is not a valid year+month+day+hour+minute key"
    );
    assert_eq!(
        year::to_date_time(1970).unwrap(),
        DateTimeAsMicroseconds::new(0)
    );
    assert_eq!(year::to_date_time(3_000_000_000).unwrap_err(), "3000000000 is not a valid year");
}

#[test]
fn rfc3339_utc_text_reads_back_as_the_same_instant() {
    for micros in [0i64, 1, 1_619_371_803_000_000, 1_704_379_539_839_324, -1, -62_135_596_800_000_000] {
        let t = DateTimeAsMicroseconds::new(micros);
        let text = t.to_rfc3339_utc();
        let back = DateTimeAsMicroseconds::from_str(&text).unwrap();
        assert_eq!(back.unix_microseconds, micros, "{}", text);
    }
}

#[test]
fn rfc3339_utc_text_has_a_fixed_width() {
    let t = DateTimeAsMicroseconds::new(0);
    assert_eq!(t.to_rfc3339_utc(), "1970-01-01T00:00:00.000000Z");
    let t = DateTimeAsMicroseconds::new(-62_135_596_800_000_000);
    assert_eq!(t.to_rfc3339_utc(), "0001-01-01T00:00:00.000000Z");
}

#[test]
fn chrono_range_covers_the_years_chrono_represents() {
    assert!(is_in_chrono_range(0));
    assert!(is_in_chrono_range(-8_334_601_228_800_000_000));
    assert!(!is_in_chrono_range(-8_334_601_228_800_000_001));
    assert!(is_in_chrono_range(8_210_266_876_799_999_999));
    assert!(!is_in_chrono_range(8_210_266_876_800_000_000));
    assert!(!is_in_chrono_range(i64::MAX));
}

#[test]
fn rfc3339_utc_texts_sort_as_their_instants() {
    let instants = [
        -62_135_596_800_000_000i64,
        -1,
        0,
        9,
        10,
        999_999,
        1_000_000,
        1_619_371_803_000_000,
        1_704_379_539_839_324,
    ];
    for pair in instants.windows(2) {
        let earlier = DateTimeAsMicroseconds::new(pair[0]).to_rfc3339_utc();
        let later = DateTimeAsMicroseconds::new(pair[1]).to_rfc3339_utc();
        assert!(earlier < later, "{} < {}", earlier, later);
    }
}

#[test]
fn rfc5322_text_reads_back_as_the_same_fields() {
    for (year, month, day, hour, min, sec) in [
        (2032, 9u32, 8u32, 18u32, 41u32, 54u32),
        (2024, 1, 31, 0, 0, 0),
        (-44, 3, 15, 12, 5, 9),
        (0, 2, 29, 23, 59, 59),
    ] {
        let fields = DateTimeStruct {
            year,
            month,
            day,
            time: TimeStruct { hour, min, sec, micros: 123 },
            dow: None,
        };
        let text = fields.to_rfc5322();
        let back = DateTimeStruct::parse_rfc_5322(&text).unwrap();
        assert_eq!(
            (back.year, back.month, back.day),
            (year, month, day),
            "{}",
            text
        );
        assert_eq!(
            (back.time.hour, back.time.min, back.time.sec, back.time.micros),
            (hour, min, sec, 0),
            "{}",
            text
        );
    }
}
