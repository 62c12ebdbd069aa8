use chrono::Datelike;
use rust_extensions::date_time::interval_key::interval_utils::{
    day, month, week_monday, week_sunday,
};
use rust_extensions::date_time::{
    DateTimeAsMicroseconds, DateTimeInterval, DayKey, Hour2Key, Hour4Key, HourKey, IntervalKey,
    Minute15Key, Minute30Key, Minute5Key, MinuteKey, MonthKey, WeekMondayKey, WeekSundayKey,
    YearKey,
};

#[test]
fn interval_utils_test_dt_struct() {
    let key = 202502;

    let dt_struct = month::to_date_time_struct(key);

    assert_eq!(dt_struct.year, 2025);
    assert_eq!(dt_struct.month, 02);
    assert_eq!(dt_struct.day, 01);

    let key = 20250203;

    let dt_struct = day::to_date_time_struct(key);

    assert_eq!(dt_struct.year, 2025);
    assert_eq!(dt_struct.month, 02);
    assert_eq!(dt_struct.day, 03);
}

#[test]
fn test_year_key() {
    let d = DateTimeAsMicroseconds::from_str("2021-03-05T01:12:32.000000Z").unwrap();

    let year_key: IntervalKey<YearKey> = d.into();

    assert_eq!(year_key.to_i64(), 2021);

    let d_result: DateTimeAsMicroseconds = year_key.try_into().unwrap();

    assert_eq!("2021-01-01T00:00:00", &d_result.to_rfc3339()[..19]);
}

#[test]
fn test_month_key() {
    let d = DateTimeAsMicroseconds::from_str("2021-03-05T01:12:32.000000Z").unwrap();

    let month_key: IntervalKey<MonthKey> = d.into();

    assert_eq!(month_key.to_i64(), 202103);

    let d_result: DateTimeAsMicroseconds = month_key.try_into().unwrap();

    assert_eq!("2021-03-01T00:00:00", &d_result.to_rfc3339()[..19]);
}

#[test]
fn test_day_key() {
    let d = DateTimeAsMicroseconds::from_str("2021-03-05T01:12:32.000000Z").unwrap();

    let day_key: IntervalKey<DayKey> = d.into();

    assert_eq!(day_key.to_i64(), 20210305);

    let d_result: DateTimeAsMicroseconds = day_key.try_into().unwrap();

    assert_eq!("2021-03-05T00:00:00", &d_result.to_rfc3339()[..19]);
}

#[test]
fn test_hour_key() {
    let d = DateTimeAsMicroseconds::from_str("2021-03-05T01:12:32.000000Z").unwrap();

    let hour_key: IntervalKey<HourKey> = d.into();

    assert_eq!(hour_key.to_i64(), 2021030501);

    let d_result: DateTimeAsMicroseconds = hour_key.try_into().unwrap();

    assert_eq!("2021-03-05T01:00:00", &d_result.to_rfc3339()[..19]);
}

#[test]
fn test_minute_key() {
    let d = DateTimeAsMicroseconds::from_str("2021-03-05T01:12:32.000000Z").unwrap();

    let minute_key: IntervalKey<MinuteKey> = d.into();

    assert_eq!(minute_key.to_i64(), 202103050112);

    let d_result: DateTimeAsMicroseconds = minute_key.try_into().unwrap();

    assert_eq!("2021-03-05T01:12:00", &d_result.to_rfc3339()[..19]);
}

#[test]
fn test_minute_five_key() {
    let d = DateTimeAsMicroseconds::from_str("2021-03-05T01:12:32.000000Z").unwrap();

    let minute_key: IntervalKey<Minute5Key> = d.into();

    assert_eq!(minute_key.to_i64(), 202103050110);

    let d_result: DateTimeAsMicroseconds = minute_key.try_into().unwrap();

    assert_eq!("2021-03-05T01:10:00", &d_result.to_rfc3339()[..19]);
}

#[test]
fn test_minute_fifteen_key() {
    let d = DateTimeAsMicroseconds::from_str("2021-03-05T01:22:32.000000Z").unwrap();

    let minute_key: IntervalKey<Minute15Key> = d.into();

    assert_eq!(minute_key.to_i64(), 202103050115);

    let d_result: DateTimeAsMicroseconds = minute_key.try_into().unwrap();

    assert_eq!("2021-03-05T01:15:00", &d_result.to_rfc3339()[..19]);
}

#[test]
fn test_minute_thirty_key() {
    let d = DateTimeAsMicroseconds::from_str("2021-03-05T01:42:32.000000Z").unwrap();

    let minute_key: IntervalKey<Minute30Key> = d.into();

    assert_eq!(minute_key.to_i64(), 202103050130);

    let d_result: DateTimeAsMicroseconds = minute_key.try_into().unwrap();

    assert_eq!("2021-03-05T01:30:00", &d_result.to_rfc3339()[..19]);
}

#[test]
fn test_hour_two_key() {
    let d = DateTimeAsMicroseconds::from_str("2021-03-05T03:12:32.000000Z").unwrap();

    let hour_key: IntervalKey<Hour2Key> = d.into();

    assert_eq!(hour_key.to_i64(), 2021030502);

    let d_result: DateTimeAsMicroseconds = hour_key.try_into().unwrap();

    assert_eq!("2021-03-05T02:00:00", &d_result.to_rfc3339()[..19]);
}

#[test]
fn test_hour_four_key() {
    let d = DateTimeAsMicroseconds::from_str("2021-03-05T13:12:32.000000Z").unwrap();

    let hour_key: IntervalKey<Hour4Key> = d.into();

    assert_eq!(hour_key.to_i64(), 2021030512);

    let d_result: DateTimeAsMicroseconds = hour_key.try_into().unwrap();

    assert_eq!("2021-03-05T12:00:00", &d_result.to_rfc3339()[..19]);
}

#[test]
fn test_week_monday_key() {
    // 2021-03-05 is a Friday; its Monday-started week begins 2021-03-01.
    let d = DateTimeAsMicroseconds::from_str("2021-03-05T13:12:32.000000Z").unwrap();

    let week_key = IntervalKey::<WeekMondayKey>::new(d);

    assert_eq!(week_key.to_i64(), 20210301);

    let d_result: DateTimeAsMicroseconds = week_key.try_to_date_time().unwrap();

    assert_eq!("2021-03-01T00:00:00", &d_result.to_rfc3339()[..19]);
}

#[test]
fn test_week_sunday_key() {
    // 2021-03-05 is a Friday; its Sunday-started week begins 2021-02-28.
    let d = DateTimeAsMicroseconds::from_str("2021-03-05T13:12:32.000000Z").unwrap();

    let week_key = IntervalKey::<WeekSundayKey>::new(d);

    assert_eq!(week_key.to_i64(), 20210228);

    let d_result: DateTimeAsMicroseconds = week_key.try_to_date_time().unwrap();

    assert_eq!("2021-02-28T00:00:00", &d_result.to_rfc3339()[..19]);
}

#[test]
fn test_week_keys_on_boundary_days() {
    // 2021-03-01 is a Monday, 2021-03-07 is a Sunday - the two week ends.
    let monday = DateTimeAsMicroseconds::from_str("2021-03-01T00:00:00.000000Z").unwrap();
    let sunday = DateTimeAsMicroseconds::from_str("2021-03-07T23:59:59.000000Z").unwrap();

    // Both days fall into the same Monday-started week (2021-03-01).
    let m = IntervalKey::<WeekMondayKey>::new(monday);
    let s = IntervalKey::<WeekMondayKey>::new(sunday);
    assert_eq!(m.to_i64(), 20210301);
    assert_eq!(s.to_i64(), 20210301);

    // Sunday-started: the Monday belongs to the week that began 2021-02-28,
    // the Sunday starts its own week (2021-03-07).
    let m = IntervalKey::<WeekSundayKey>::new(monday);
    let s = IntervalKey::<WeekSundayKey>::new(sunday);
    assert_eq!(m.to_i64(), 20210228);
    assert_eq!(s.to_i64(), 20210307);
}

#[test]
fn test_off_slot_raw_value_is_normalized() {
    // minute 17 is not a valid slot start - it has to be cut to the slot
    let key: IntervalKey<Minute15Key> = IntervalKey::from_i64(202103050117);
    let d: DateTimeAsMicroseconds = key.try_to_date_time().unwrap();
    assert_eq!("2021-03-05T01:15:00", &d.to_rfc3339()[..19]);

    let key: IntervalKey<Minute5Key> = IntervalKey::from_i64(202103050117);
    let d: DateTimeAsMicroseconds = key.try_to_date_time().unwrap();
    assert_eq!("2021-03-05T01:15:00", &d.to_rfc3339()[..19]);

    // minute 42 cuts to the 30 slot
    let key: IntervalKey<Minute30Key> = IntervalKey::from_i64(202103050142);
    let d: DateTimeAsMicroseconds = key.try_to_date_time().unwrap();
    assert_eq!("2021-03-05T01:30:00", &d.to_rfc3339()[..19]);

    // hour 03 cuts to the 2-hour slot start (02)
    let key: IntervalKey<Hour2Key> = IntervalKey::from_i64(2021030503);
    let d: DateTimeAsMicroseconds = key.try_to_date_time().unwrap();
    assert_eq!("2021-03-05T02:00:00", &d.to_rfc3339()[..19]);

    // hour 13 cuts to the 4-hour slot start (12)
    let key: IntervalKey<Hour4Key> = IntervalKey::from_i64(2021030513);
    let d: DateTimeAsMicroseconds = key.try_to_date_time().unwrap();
    assert_eq!("2021-03-05T12:00:00", &d.to_rfc3339()[..19]);

    // 2021-03-05 (Friday) cuts back to its Monday-started week start (03-01)
    let key: IntervalKey<WeekMondayKey> = IntervalKey::from_i64(20210305);
    let d: DateTimeAsMicroseconds = key.try_to_date_time().unwrap();
    assert_eq!("2021-03-01T00:00:00", &d.to_rfc3339()[..19]);

    // ... and to its Sunday-started week start (02-28)
    let key: IntervalKey<WeekSundayKey> = IntervalKey::from_i64(20210305);
    let d: DateTimeAsMicroseconds = key.try_to_date_time().unwrap();
    assert_eq!("2021-02-28T00:00:00", &d.to_rfc3339()[..19]);
}

#[test]
fn test_min5_min15_conversions() {
    let d = DateTimeAsMicroseconds::from_str("2021-03-05T01:22:32.000000Z").unwrap();

    let min5_key: IntervalKey<Minute5Key> = d.into();
    assert_eq!(min5_key.to_i64(), 202103050120);

    let min15_key: IntervalKey<Minute15Key> = min5_key.try_into().unwrap();
    assert_eq!(min15_key.to_i64(), 202103050115);

    let min5_key: IntervalKey<Minute5Key> = min15_key.try_into().unwrap();
    assert_eq!(min5_key.to_i64(), 202103050115);
}

#[test]
fn test_date_time_interval_dispatch() {
    // Exercises the runtime DateTimeInterval enum: from_dt_to_*, to_i64, and
    // to_date_time — the hand-maintained 12-arm dispatch that the compiler
    // cannot check for wrong-module wiring.
    let d = DateTimeAsMicroseconds::from_str("2021-03-05T01:42:32.000000Z").unwrap();

    // from_dt_to_* + to_value wiring (variant & packed value).
    assert_eq!(DateTimeInterval::from_dt_to_year(d), DateTimeInterval::Year(2021));
    assert_eq!(DateTimeInterval::from_dt_to_month(d), DateTimeInterval::Month(202103));
    assert_eq!(DateTimeInterval::from_dt_to_day(d), DateTimeInterval::Day(20210305));
    assert_eq!(
        DateTimeInterval::from_dt_to_week_monday(d),
        DateTimeInterval::WeekMonday(20210301)
    );
    assert_eq!(
        DateTimeInterval::from_dt_to_week_sunday(d),
        DateTimeInterval::WeekSunday(20210228)
    );
    assert_eq!(DateTimeInterval::from_dt_to_hour(d), DateTimeInterval::Hour(2021030501));
    assert_eq!(DateTimeInterval::from_dt_to_hour2(d), DateTimeInterval::Hour2(2021030500));
    assert_eq!(DateTimeInterval::from_dt_to_hour4(d), DateTimeInterval::Hour4(2021030500));
    assert_eq!(
        DateTimeInterval::from_dt_to_minute(d),
        DateTimeInterval::Minute(202103050142)
    );
    assert_eq!(DateTimeInterval::from_dt_to_min5(d), DateTimeInterval::Min5(202103050140));
    assert_eq!(DateTimeInterval::from_dt_to_min15(d), DateTimeInterval::Min15(202103050130));
    assert_eq!(DateTimeInterval::from_dt_to_min30(d), DateTimeInterval::Min30(202103050130));

    // to_i64 arm (new variants).
    assert_eq!(DateTimeInterval::Min30(202103050130).to_i64(), 202103050130);
    assert_eq!(DateTimeInterval::Hour2(2021030500).to_i64(), 2021030500);
    assert_eq!(DateTimeInterval::Hour4(2021030500).to_i64(), 2021030500);
    assert_eq!(DateTimeInterval::WeekMonday(20210301).to_i64(), 20210301);
    assert_eq!(DateTimeInterval::WeekSunday(20210228).to_i64(), 20210228);

    // to_date_time arm (slot start) — pins each arm to the right utils module.
    let chk = |iv: DateTimeInterval, expected: &str| {
        assert_eq!(&iv.to_date_time().unwrap().to_rfc3339()[..19], expected, "{:?}", iv);
    };
    chk(DateTimeInterval::from_dt_to_year(d), "2021-01-01T00:00:00");
    chk(DateTimeInterval::from_dt_to_month(d), "2021-03-01T00:00:00");
    chk(DateTimeInterval::from_dt_to_day(d), "2021-03-05T00:00:00");
    chk(DateTimeInterval::from_dt_to_week_monday(d), "2021-03-01T00:00:00");
    chk(DateTimeInterval::from_dt_to_week_sunday(d), "2021-02-28T00:00:00");
    chk(DateTimeInterval::from_dt_to_hour(d), "2021-03-05T01:00:00");
    chk(DateTimeInterval::from_dt_to_hour2(d), "2021-03-05T00:00:00");
    chk(DateTimeInterval::from_dt_to_hour4(d), "2021-03-05T00:00:00");
    chk(DateTimeInterval::from_dt_to_minute(d), "2021-03-05T01:42:00");
    chk(DateTimeInterval::from_dt_to_min5(d), "2021-03-05T01:40:00");
    chk(DateTimeInterval::from_dt_to_min15(d), "2021-03-05T01:30:00");
    chk(DateTimeInterval::from_dt_to_min30(d), "2021-03-05T01:30:00");
}

#[test]
fn test_to_dt_interval_and_cross_path() {
    // IntervalKey::to_dt_interval must map to the matching DateTimeInterval
    // variant and agree with the typed value and DateTimeInterval::from_dt_to_*.
    let d = DateTimeAsMicroseconds::from_str("2021-03-05T01:42:32.000000Z").unwrap();

    let h2: IntervalKey<Hour2Key> = d.into();
    assert_eq!(h2.to_dt_interval(), DateTimeInterval::Hour2(2021030500));
    assert_eq!(h2.to_dt_interval().to_i64(), h2.to_i64());
    assert_eq!(h2.to_dt_interval(), DateTimeInterval::from_dt_to_hour2(d));

    let h4: IntervalKey<Hour4Key> = d.into();
    assert_eq!(h4.to_dt_interval(), DateTimeInterval::Hour4(2021030500));
    assert_eq!(h4.to_dt_interval(), DateTimeInterval::from_dt_to_hour4(d));

    let m30: IntervalKey<Minute30Key> = d.into();
    assert_eq!(m30.to_dt_interval(), DateTimeInterval::Min30(202103050130));
    assert_eq!(m30.to_dt_interval(), DateTimeInterval::from_dt_to_min30(d));

    let wm = IntervalKey::<WeekMondayKey>::new(d);
    assert_eq!(wm.to_dt_interval(), DateTimeInterval::WeekMonday(20210301));
    assert_eq!(wm.to_dt_interval(), DateTimeInterval::from_dt_to_week_monday(d));

    let ws = IntervalKey::<WeekSundayKey>::new(d);
    assert_eq!(ws.to_dt_interval(), DateTimeInterval::WeekSunday(20210228));
    assert_eq!(ws.to_dt_interval(), DateTimeInterval::from_dt_to_week_sunday(d));
}

#[test]
fn test_week_keys_across_boundaries() {
    // 2021-01-01 is a Friday; its week start falls in the previous YEAR.
    let d = DateTimeAsMicroseconds::from_str("2021-01-01T08:00:00.000000Z").unwrap();
    let wm = IntervalKey::<WeekMondayKey>::new(d);
    let ws = IntervalKey::<WeekSundayKey>::new(d);
    assert_eq!(wm.to_i64(), 20201228); // Mon 2020-12-28
    assert_eq!(ws.to_i64(), 20201227); // Sun 2020-12-27

    // 2020-01-01 is a Wednesday; Monday week start crosses the year boundary.
    let d = DateTimeAsMicroseconds::from_str("2020-01-01T00:00:00.000000Z").unwrap();
    let wm = IntervalKey::<WeekMondayKey>::new(d);
    assert_eq!(wm.to_i64(), 20191230); // Mon 2019-12-30

    // Leap year: 2024-03-01 is a Friday; Monday week start crosses Feb 29.
    let d = DateTimeAsMicroseconds::from_str("2024-03-01T12:00:00.000000Z").unwrap();
    let wm = IntervalKey::<WeekMondayKey>::new(d);
    assert_eq!(wm.to_i64(), 20240226); // Mon 2024-02-26
    let d_result: DateTimeAsMicroseconds = wm.try_to_date_time().unwrap();
    assert_eq!("2024-02-26T00:00:00", &d_result.to_rfc3339()[..19]);
}

#[test]
fn test_week_start_lands_on_correct_weekday() {

    for s in [
        "2021-03-01T00:00:00.000000Z", // Mon
        "2021-03-04T10:00:00.000000Z", // Thu
        "2021-03-07T23:59:59.000000Z", // Sun
        "2024-02-29T12:00:00.000000Z", // leap day (Thu)
        "2021-01-01T08:00:00.000000Z", // Fri (year boundary)
    ] {
        let d = DateTimeAsMicroseconds::from_str(s).unwrap();

        let wm = week_monday::to_week_start(d);
        assert_eq!(chrono::DateTime::from_timestamp_micros(wm.unix_microseconds).unwrap().weekday(), chrono::Weekday::Mon, "monday start for {s}");

        let ws = week_sunday::to_week_start(d);
        assert_eq!(chrono::DateTime::from_timestamp_micros(ws.unix_microseconds).unwrap().weekday(), chrono::Weekday::Sun, "sunday start for {s}");
    }
}

#[test]
fn test_numeric_into_for_new_keys() {
    let m30: IntervalKey<Minute30Key> = 202103050130i64.into();
    assert_eq!(m30.to_i64(), 202103050130);
    let m30: IntervalKey<Minute30Key> = (&202103050130i64).into();
    assert_eq!(m30.to_i64(), 202103050130);
    let m30: IntervalKey<Minute30Key> = 202103050130u64.into();
    assert_eq!(m30.to_i64(), 202103050130);
    let m30: IntervalKey<Minute30Key> = (&202103050130u64).into();
    assert_eq!(m30.to_i64(), 202103050130);

    let h2: IntervalKey<Hour2Key> = 2021030500i64.into();
    assert_eq!(h2.to_i64(), 2021030500);
    let h4: IntervalKey<Hour4Key> = 2021030500u64.into();
    assert_eq!(h4.to_i64(), 2021030500);
    let wm: IntervalKey<WeekMondayKey> = 20210301i64.into();
    assert_eq!(wm.to_i64(), 20210301);
    let ws: IntervalKey<WeekSundayKey> = (&20210228u64).into();
    assert_eq!(ws.to_i64(), 20210228);
}

#[test]
fn test_pre_1970_timestamps() {
    // 1969-12-31 22:37:15 UTC (negative unix micros). Wall-clock fields are
    // derived via chrono and stay non-negative, so slots floor toward the slot
    // start (not toward zero).
    let d = DateTimeAsMicroseconds::from_str("1969-12-31T22:37:15.000000Z").unwrap();

    let m30: IntervalKey<Minute30Key> = d.into();
    assert_eq!(m30.to_i64(), 196912312230); // min 37 -> slot 30

    let h2: IntervalKey<Hour2Key> = d.into();
    assert_eq!(h2.to_i64(), 1969123122); // hour 22 (even slot)

    // 1969-12-31 is a Wednesday.
    let wm = IntervalKey::<WeekMondayKey>::new(d);
    assert_eq!(wm.to_i64(), 19691229); // Mon 1969-12-29
    let ws = IntervalKey::<WeekSundayKey>::new(d);
    assert_eq!(ws.to_i64(), 19691228); // Sun 1969-12-28

    let back: DateTimeAsMicroseconds = m30.try_into().unwrap();
    assert_eq!("1969-12-31T22:30:00", &back.to_rfc3339()[..19]);
}

#[test]
fn test_min30_cross_conversions() {
    let d = DateTimeAsMicroseconds::from_str("2021-03-05T01:42:32.000000Z").unwrap();

    let min30: IntervalKey<Minute30Key> = d.into();
    assert_eq!(min30.to_i64(), 202103050130);

    let minute: IntervalKey<MinuteKey> = d.into();
    let from_minute: IntervalKey<Minute30Key> = minute.try_into().unwrap();
    assert_eq!(from_minute.to_i64(), 202103050130);

    let min5: IntervalKey<Minute5Key> = min30.try_into().unwrap();
    assert_eq!(min5.to_i64(), 202103050130);

    let min15: IntervalKey<Minute15Key> = min30.try_into().unwrap();
    assert_eq!(min15.to_i64(), 202103050130);

    let back_to_min30: IntervalKey<Minute30Key> = min15.try_into().unwrap();
    assert_eq!(back_to_min30.to_i64(), 202103050130);

    let back_to_minute: IntervalKey<MinuteKey> = min30.try_into().unwrap();
    assert_eq!(back_to_minute.to_i64(), 202103050130);
}

#[test]
fn adding_less_than_a_slot_keeps_the_key() {
    let d = DateTimeAsMicroseconds::from_str("2021-03-05T01:12:32.000000Z").unwrap();
    let minute: IntervalKey<MinuteKey> = IntervalKey::new(d);
    assert_eq!(minute.add(std::time::Duration::from_secs(59)).to_i64(), 202103050112);
    let hour4: IntervalKey<Hour4Key> = IntervalKey::new(d);
    assert_eq!(hour4.add(std::time::Duration::from_secs(4 * 3600 - 1)).to_i64(), hour4.to_i64());
    let week: IntervalKey<WeekMondayKey> = IntervalKey::new(d);
    assert_eq!(week.to_i64(), 20210301);
    assert_eq!(week.add(std::time::Duration::from_secs(60)).to_i64(), 20210301);
}

#[test]
fn adding_a_full_slot_moves_to_the_next_slot() {
    let d = DateTimeAsMicroseconds::from_str("2021-03-05T01:12:32.000000Z").unwrap();
    let minute: IntervalKey<MinuteKey> = IntervalKey::new(d);
    let next = minute.add(std::time::Duration::from_secs(60));
    assert_eq!(next.to_i64(), 202103050113);
    assert_eq!(
        next.try_to_date_time().unwrap(),
        minute.try_to_date_time().unwrap().add(std::time::Duration::from_secs(60))
    );
    let week: IntervalKey<WeekSundayKey> = IntervalKey::new(d);
    assert_eq!(week.to_i64(), 20210228);
    let next_week = week.add(std::time::Duration::from_secs(7 * 86400));
    assert_eq!(next_week.to_i64(), 20210307);
    assert!(next_week.to_i64() > week.to_i64());
}

#[test]
fn a_key_decodes_to_the_first_instant_of_its_slot() {
    let start = DateTimeAsMicroseconds::from_str("2021-03-05T01:15:00Z").unwrap();
    let raw: IntervalKey<Minute15Key> = IntervalKey::from_i64(202103050117);
    assert_eq!(raw.try_to_date_time().unwrap(), start);
    let later = DateTimeAsMicroseconds::from_str("2021-03-05T01:29:59Z").unwrap();
    let key: IntervalKey<Minute15Key> = IntervalKey::new(later);
    assert_eq!(key.try_to_date_time().unwrap(), start);
    let before: IntervalKey<Minute15Key> =
        IntervalKey::new(DateTimeAsMicroseconds::new(start.unix_microseconds - 1));
    assert!(before.to_i64() < key.to_i64());
}
