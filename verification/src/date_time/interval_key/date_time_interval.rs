//! An interval key whose kind is chosen at run time.
use super::interval_utils::{year, month, day, hour, hour2, hour4, minute, min5, min15, min30, week_monday, week_sunday};
use crate::date_time::as_microseconds::DateTimeAsMicroseconds;
use crate::date_time::format::int_text;
use vstd::prelude::*;

verus! {

/// A key together with its kind.
#[derive(Clone, Copy, PartialEq, Eq, Structural, Hash, Debug)]
pub enum DateTimeInterval {
    Minute(i64),
    Min5(i64),
    Min15(i64),
    Min30(i64),
    Hour(i64),
    Hour2(i64),
    Hour4(i64),
    Day(i64),
    WeekMonday(i64),
    WeekSunday(i64),
    Month(i64),
    Year(i64),
}

impl DateTimeInterval {
    /// The key.
    pub open spec fn value(self) -> i64 {
        match self {
            DateTimeInterval::Minute(v) => v,
            DateTimeInterval::Min5(v) => v,
            DateTimeInterval::Min15(v) => v,
            DateTimeInterval::Min30(v) => v,
            DateTimeInterval::Hour(v) => v,
            DateTimeInterval::Hour2(v) => v,
            DateTimeInterval::Hour4(v) => v,
            DateTimeInterval::Day(v) => v,
            DateTimeInterval::WeekMonday(v) => v,
            DateTimeInterval::WeekSunday(v) => v,
            DateTimeInterval::Month(v) => v,
            DateTimeInterval::Year(v) => v,
        }
    }

    /// The start of the slot the key names, when it names one.
    pub open spec fn slot_start(self) -> Option<DateTimeAsMicroseconds> {
        match self {
            DateTimeInterval::Minute(v) => minute::slot_start(v as int),
            DateTimeInterval::Min5(v) => min5::slot_start(v as int),
            DateTimeInterval::Min15(v) => min15::slot_start(v as int),
            DateTimeInterval::Min30(v) => min30::slot_start(v as int),
            DateTimeInterval::Hour(v) => hour::slot_start(v as int),
            DateTimeInterval::Hour2(v) => hour2::slot_start(v as int),
            DateTimeInterval::Hour4(v) => hour4::slot_start(v as int),
            DateTimeInterval::Day(v) => day::slot_start(v as int),
            DateTimeInterval::WeekMonday(v) => week_monday::slot_start(v as int),
            DateTimeInterval::WeekSunday(v) => week_sunday::slot_start(v as int),
            DateTimeInterval::Month(v) => month::slot_start(v as int),
            DateTimeInterval::Year(v) => year::slot_start(v as int),
        }
    }

    /// Keys that decode without a fault.
    pub open spec fn decodable(self) -> bool {
        match self {
            DateTimeInterval::WeekMonday(v) => week_monday::decodable(v as int),
            DateTimeInterval::WeekSunday(v) => week_sunday::decodable(v as int),
            _ => true,
        }
    }

    /// What the error of a key that names no slot says after the key.
    pub open spec fn error_text(self) -> Seq<char> {
        match self {
            DateTimeInterval::Minute(_) => " is not a valid year+month+day+hour+minute key"@,
            DateTimeInterval::Min5(_) => " is not a valid 5-minute interval key"@,
            DateTimeInterval::Min15(_) => " is not a valid 15-minute interval key"@,
            DateTimeInterval::Min30(_) => " is not a valid 30-minute interval key"@,
            DateTimeInterval::Hour(_) => " is not a valid year+month+day+hour key"@,
            DateTimeInterval::Hour2(_) => " is not a valid 2-hour interval key"@,
            DateTimeInterval::Hour4(_) => " is not a valid 4-hour interval key"@,
            DateTimeInterval::Day(_) => " is not a valid year+month+day key"@,
            DateTimeInterval::WeekMonday(_) => " is not a valid year+month+day key"@,
            DateTimeInterval::WeekSunday(_) => " is not a valid year+month+day key"@,
            DateTimeInterval::Month(_) => " is not a valid year+month key"@,
            DateTimeInterval::Year(_) => " is not a valid year"@,
        }
    }

    pub fn from_dt_to_minute(dt: DateTimeAsMicroseconds) -> (r: Self)
        ensures
            r == DateTimeInterval::Minute(minute::minute_value(dt.unix_microseconds as int) as i64),
    {
        let value = minute::to_value(dt);
        Self::Minute(value)
    }

    pub fn from_dt_to_min5(dt: DateTimeAsMicroseconds) -> (r: Self)
        ensures
            r == DateTimeInterval::Min5(min5::min5_value(dt.unix_microseconds as int) as i64),
    {
        let value = min5::to_value(dt);
        Self::Min5(value)
    }

    pub fn from_dt_to_min15(dt: DateTimeAsMicroseconds) -> (r: Self)
        ensures
            r == DateTimeInterval::Min15(min15::min15_value(dt.unix_microseconds as int) as i64),
    {
        let value = min15::to_value(dt);
        Self::Min15(value)
    }

    pub fn from_dt_to_min30(dt: DateTimeAsMicroseconds) -> (r: Self)
        ensures
            r == DateTimeInterval::Min30(min30::min30_value(dt.unix_microseconds as int) as i64),
    {
        let value = min30::to_value(dt);
        Self::Min30(value)
    }

    pub fn from_dt_to_hour(dt: DateTimeAsMicroseconds) -> (r: Self)
        ensures
            r == DateTimeInterval::Hour(hour::hour_value(dt.unix_microseconds as int) as i64),
    {
        let value = hour::to_value(dt);
        Self::Hour(value)
    }

    pub fn from_dt_to_hour2(dt: DateTimeAsMicroseconds) -> (r: Self)
        ensures
            r == DateTimeInterval::Hour2(hour2::hour2_value(dt.unix_microseconds as int) as i64),
    {
        let value = hour2::to_value(dt);
        Self::Hour2(value)
    }

    pub fn from_dt_to_hour4(dt: DateTimeAsMicroseconds) -> (r: Self)
        ensures
            r == DateTimeInterval::Hour4(hour4::hour4_value(dt.unix_microseconds as int) as i64),
    {
        let value = hour4::to_value(dt);
        Self::Hour4(value)
    }

    pub fn from_dt_to_day(dt: DateTimeAsMicroseconds) -> (r: Self)
        ensures
            r == DateTimeInterval::Day(day::day_value(dt.unix_microseconds as int) as i64),
    {
        let value = day::to_value(dt);
        Self::Day(value)
    }

    pub fn from_dt_to_week_monday(dt: DateTimeAsMicroseconds) -> (r: Self)
        requires
            week_monday::has_week_monday_key(dt.unix_microseconds as int),
        ensures
            r == DateTimeInterval::WeekMonday(week_monday::week_monday_value(dt.unix_microseconds as int) as i64),
    {
        let value = week_monday::to_value(dt);
        Self::WeekMonday(value)
    }

    pub fn from_dt_to_week_sunday(dt: DateTimeAsMicroseconds) -> (r: Self)
        requires
            week_sunday::has_week_sunday_key(dt.unix_microseconds as int),
        ensures
            r == DateTimeInterval::WeekSunday(week_sunday::week_sunday_value(dt.unix_microseconds as int) as i64),
    {
        let value = week_sunday::to_value(dt);
        Self::WeekSunday(value)
    }

    pub fn from_dt_to_month(dt: DateTimeAsMicroseconds) -> (r: Self)
        ensures
            r == DateTimeInterval::Month(month::month_value(dt.unix_microseconds as int) as i64),
    {
        let value = month::to_value(dt);
        Self::Month(value)
    }

    pub fn from_dt_to_year(dt: DateTimeAsMicroseconds) -> (r: Self)
        ensures
            r == DateTimeInterval::Year(year::year_value(dt.unix_microseconds as int) as i64),
    {
        let value = year::to_value(dt);
        Self::Year(value)
    }

    /// The start of the slot the key names, or the error that says it names none.
    pub fn to_date_time(&self) -> (r: Result<DateTimeAsMicroseconds, String>)
        requires
            self.decodable(),
        ensures
            match r {
                Ok(d) => self.slot_start() == Some(d),
                Err(e) => self.slot_start() is None && e@ == int_text(self.value() as int)
                    + self.error_text(),
            },
    {
        match self {
            Self::Minute(value) => minute::to_date_time(*value),
            Self::Min5(value) => min5::to_date_time(*value),
            Self::Min15(value) => min15::to_date_time(*value),
            Self::Min30(value) => min30::to_date_time(*value),
            Self::Hour(value) => hour::to_date_time(*value),
            Self::Hour2(value) => hour2::to_date_time(*value),
            Self::Hour4(value) => hour4::to_date_time(*value),
            Self::Day(value) => day::to_date_time(*value),
            Self::WeekMonday(value) => week_monday::to_date_time(*value),
            Self::WeekSunday(value) => week_sunday::to_date_time(*value),
            Self::Month(value) => month::to_date_time(*value),
            Self::Year(value) => year::to_date_time(*value),
        }
    }

    pub fn to_i64(&self) -> (r: i64)
        ensures
            r == self.value(),
    {
        match self {
            Self::Minute(value) => *value,
            Self::Min5(value) => *value,
            Self::Min15(value) => *value,
            Self::Min30(value) => *value,
            Self::Hour(value) => *value,
            Self::Hour2(value) => *value,
            Self::Hour4(value) => *value,
            Self::Day(value) => *value,
            Self::WeekMonday(value) => *value,
            Self::WeekSunday(value) => *value,
            Self::Month(value) => *value,
            Self::Year(value) => *value,
        }
    }
}

} // verus!
