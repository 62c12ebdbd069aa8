//! The kinds of interval keys, one type each, and what each key kind does.
use super::date_time_interval::DateTimeInterval;
use super::laws::{law_day_key_round_trip, law_day_key_order, law_hour2_key_round_trip, law_hour2_key_order, law_hour4_key_round_trip, law_hour4_key_order, law_hour_key_round_trip, law_hour_key_order, law_min15_key_round_trip, law_min15_key_order, law_min30_key_round_trip, law_min30_key_order, law_min5_key_round_trip, law_min5_key_order, law_minute_key_round_trip, law_minute_key_order, law_month_key_round_trip, law_month_key_order, law_week_monday_key_round_trip, law_week_monday_key_order, law_week_sunday_key_round_trip, law_week_sunday_key_order, law_year_key_round_trip, law_year_key_order};
use crate::date_time::date_time_struct::date_time_struct_of;
use super::interval_utils::{year, month, day, hour, hour2, hour4, minute, min5, min15, min30, week_monday, week_sunday};
use crate::date_time::as_microseconds::DateTimeAsMicroseconds;
use vstd::prelude::*;

verus! {

/// A kind of calendar slot, with its way to key an instant and to decode a key.
pub trait IntervalKeyOption: Copy {
    /// The instants that have a key of this kind.
    spec fn has_key(t: int) -> bool;

    /// The key of an instant.
    spec fn key_value(t: int) -> int;

    /// The keys that decode without a fault.
    spec fn decodable(value: int) -> bool;

    /// The start of the slot a key names, when it names one.
    spec fn slot_start(value: int) -> Option<DateTimeAsMicroseconds>;

    /// The runtime interval of a key of this kind.
    spec fn interval_of(value: i64) -> DateTimeInterval;

    /// The width of a slot in microseconds, for the kinds whose slots all have one width;
    /// 0 for years and months.
    spec fn slot_width() -> int;

    /// Where the grid of slots starts, in microseconds after the epoch: slot starts lie a
    /// whole number of slot widths from it.
    spec fn slot_phase() -> int;

    /// The key of an instant of a year that is not negative decodes to the start of its slot,
    /// no later than the instant; that start has a key, the same one.
    proof fn lemma_key_round_trip(t: i64)
        requires
            Self::has_key(t as int),
            date_time_struct_of(t as int).year >= 0,
        ensures
            Self::decodable(Self::key_value(t as int)),
            Self::slot_start(Self::key_value(t as int)) matches Some(d) && d.unix_microseconds <= t
                && Self::has_key(d.unix_microseconds as int) && Self::key_value(
                d.unix_microseconds as int,
            ) == Self::key_value(t as int),
            Self::slot_width() > 0 ==> (Self::slot_start(Self::key_value(t as int)) matches Some(d)
                && t < d.unix_microseconds + Self::slot_width() && (d.unix_microseconds
                - Self::slot_phase()) % Self::slot_width() == 0),
    ;

    /// A key of this kind, taken as a `DateTimeInterval` of its kind, decodes to the same slot
    /// and is decodable alike.
    proof fn lemma_interval_decodes_alike(value: i64)
        ensures
            Self::interval_of(value).slot_start() == Self::slot_start(value as int),
            Self::interval_of(value).decodable() == Self::decodable(value as int),
    ;

    /// Keys keep the order of time.
    proof fn lemma_key_order(t1: i64, t2: i64)
        requires
            Self::has_key(t1 as int),
            t1 <= t2,
        ensures
            Self::key_value(t1 as int) <= Self::key_value(t2 as int),
    ;

    fn to_value(src: DateTimeAsMicroseconds) -> (r: i64)
        requires
            Self::has_key(src.unix_microseconds as int),
        ensures
            r == Self::key_value(src.unix_microseconds as int),
    ;

    fn to_date_time(value: i64) -> (r: Result<DateTimeAsMicroseconds, String>)
        requires
            Self::decodable(value as int),
        ensures
            match r {
                Ok(d) => Self::slot_start(value as int) == Some(d),
                Err(_) => Self::slot_start(value as int) is None,
            },
    ;

    fn to_dt_interval(value: i64) -> (r: DateTimeInterval)
        ensures
            r == Self::interval_of(value),
    ;
}

/// Keys of a year.
#[derive(Clone, Copy, Debug, PartialEq, Eq, PartialOrd, Ord, Hash)]
pub struct YearKey;

impl IntervalKeyOption for YearKey {
    open spec fn has_key(t: int) -> bool {
        true
    }

    open spec fn key_value(t: int) -> int {
        year::year_value(t)
    }

    open spec fn decodable(value: int) -> bool {
        true
    }

    open spec fn slot_start(value: int) -> Option<DateTimeAsMicroseconds> {
        year::slot_start(value)
    }

    open spec fn interval_of(value: i64) -> DateTimeInterval {
        DateTimeInterval::Year(value)
    }

    open spec fn slot_width() -> int {
        0
    }

    open spec fn slot_phase() -> int {
        0
    }

    proof fn lemma_key_round_trip(t: i64) {
        law_year_key_round_trip(t);
    }

    proof fn lemma_interval_decodes_alike(value: i64) {
    }

    proof fn lemma_key_order(t1: i64, t2: i64) {
        law_year_key_order(t1, t2);
    }

    fn to_value(src: DateTimeAsMicroseconds) -> (r: i64) {
        year::to_value(src)
    }

    fn to_date_time(value: i64) -> (r: Result<DateTimeAsMicroseconds, String>) {
        year::to_date_time(value)
    }

    fn to_dt_interval(value: i64) -> (r: DateTimeInterval) {
        DateTimeInterval::Year(value)
    }
}

/// Keys of a month.
#[derive(Clone, Copy, Debug, PartialEq, Eq, PartialOrd, Ord, Hash)]
pub struct MonthKey;

impl IntervalKeyOption for MonthKey {
    open spec fn has_key(t: int) -> bool {
        true
    }

    open spec fn key_value(t: int) -> int {
        month::month_value(t)
    }

    open spec fn decodable(value: int) -> bool {
        true
    }

    open spec fn slot_start(value: int) -> Option<DateTimeAsMicroseconds> {
        month::slot_start(value)
    }

    open spec fn interval_of(value: i64) -> DateTimeInterval {
        DateTimeInterval::Month(value)
    }

    open spec fn slot_width() -> int {
        0
    }

    open spec fn slot_phase() -> int {
        0
    }

    proof fn lemma_key_round_trip(t: i64) {
        law_month_key_round_trip(t);
    }

    proof fn lemma_interval_decodes_alike(value: i64) {
    }

    proof fn lemma_key_order(t1: i64, t2: i64) {
        law_month_key_order(t1, t2);
    }

    fn to_value(src: DateTimeAsMicroseconds) -> (r: i64) {
        month::to_value(src)
    }

    fn to_date_time(value: i64) -> (r: Result<DateTimeAsMicroseconds, String>) {
        month::to_date_time(value)
    }

    fn to_dt_interval(value: i64) -> (r: DateTimeInterval) {
        DateTimeInterval::Month(value)
    }
}

/// Keys of a day.
#[derive(Clone, Copy, Debug, PartialEq, Eq, PartialOrd, Ord, Hash)]
pub struct DayKey;

impl IntervalKeyOption for DayKey {
    open spec fn has_key(t: int) -> bool {
        true
    }

    open spec fn key_value(t: int) -> int {
        day::day_value(t)
    }

    open spec fn decodable(value: int) -> bool {
        true
    }

    open spec fn slot_start(value: int) -> Option<DateTimeAsMicroseconds> {
        day::slot_start(value)
    }

    open spec fn interval_of(value: i64) -> DateTimeInterval {
        DateTimeInterval::Day(value)
    }

    open spec fn slot_width() -> int {
        86_400_000_000
    }

    open spec fn slot_phase() -> int {
        0
    }

    proof fn lemma_key_round_trip(t: i64) {
        law_day_key_round_trip(t);
    }

    proof fn lemma_interval_decodes_alike(value: i64) {
    }

    proof fn lemma_key_order(t1: i64, t2: i64) {
        law_day_key_order(t1, t2);
    }

    fn to_value(src: DateTimeAsMicroseconds) -> (r: i64) {
        day::to_value(src)
    }

    fn to_date_time(value: i64) -> (r: Result<DateTimeAsMicroseconds, String>) {
        day::to_date_time(value)
    }

    fn to_dt_interval(value: i64) -> (r: DateTimeInterval) {
        DateTimeInterval::Day(value)
    }
}

/// Keys of an hour.
#[derive(Clone, Copy, Debug, PartialEq, Eq, PartialOrd, Ord, Hash)]
pub struct HourKey;

impl IntervalKeyOption for HourKey {
    open spec fn has_key(t: int) -> bool {
        true
    }

    open spec fn key_value(t: int) -> int {
        hour::hour_value(t)
    }

    open spec fn decodable(value: int) -> bool {
        true
    }

    open spec fn slot_start(value: int) -> Option<DateTimeAsMicroseconds> {
        hour::slot_start(value)
    }

    open spec fn interval_of(value: i64) -> DateTimeInterval {
        DateTimeInterval::Hour(value)
    }

    open spec fn slot_width() -> int {
        3_600_000_000
    }

    open spec fn slot_phase() -> int {
        0
    }

    proof fn lemma_key_round_trip(t: i64) {
        law_hour_key_round_trip(t);
    }

    proof fn lemma_interval_decodes_alike(value: i64) {
    }

    proof fn lemma_key_order(t1: i64, t2: i64) {
        law_hour_key_order(t1, t2);
    }

    fn to_value(src: DateTimeAsMicroseconds) -> (r: i64) {
        hour::to_value(src)
    }

    fn to_date_time(value: i64) -> (r: Result<DateTimeAsMicroseconds, String>) {
        hour::to_date_time(value)
    }

    fn to_dt_interval(value: i64) -> (r: DateTimeInterval) {
        DateTimeInterval::Hour(value)
    }
}

/// Keys of two hours.
#[derive(Clone, Copy, Debug, PartialEq, Eq, PartialOrd, Ord, Hash)]
pub struct Hour2Key;

impl IntervalKeyOption for Hour2Key {
    open spec fn has_key(t: int) -> bool {
        true
    }

    open spec fn key_value(t: int) -> int {
        hour2::hour2_value(t)
    }

    open spec fn decodable(value: int) -> bool {
        true
    }

    open spec fn slot_start(value: int) -> Option<DateTimeAsMicroseconds> {
        hour2::slot_start(value)
    }

    open spec fn interval_of(value: i64) -> DateTimeInterval {
        DateTimeInterval::Hour2(value)
    }

    open spec fn slot_width() -> int {
        7_200_000_000
    }

    open spec fn slot_phase() -> int {
        0
    }

    proof fn lemma_key_round_trip(t: i64) {
        law_hour2_key_round_trip(t);
    }

    proof fn lemma_interval_decodes_alike(value: i64) {
    }

    proof fn lemma_key_order(t1: i64, t2: i64) {
        law_hour2_key_order(t1, t2);
    }

    fn to_value(src: DateTimeAsMicroseconds) -> (r: i64) {
        hour2::to_value(src)
    }

    fn to_date_time(value: i64) -> (r: Result<DateTimeAsMicroseconds, String>) {
        hour2::to_date_time(value)
    }

    fn to_dt_interval(value: i64) -> (r: DateTimeInterval) {
        DateTimeInterval::Hour2(value)
    }
}

/// Keys of four hours.
#[derive(Clone, Copy, Debug, PartialEq, Eq, PartialOrd, Ord, Hash)]
pub struct Hour4Key;

impl IntervalKeyOption for Hour4Key {
    open spec fn has_key(t: int) -> bool {
        true
    }

    open spec fn key_value(t: int) -> int {
        hour4::hour4_value(t)
    }

    open spec fn decodable(value: int) -> bool {
        true
    }

    open spec fn slot_start(value: int) -> Option<DateTimeAsMicroseconds> {
        hour4::slot_start(value)
    }

    open spec fn interval_of(value: i64) -> DateTimeInterval {
        DateTimeInterval::Hour4(value)
    }

    open spec fn slot_width() -> int {
        14_400_000_000
    }

    open spec fn slot_phase() -> int {
        0
    }

    proof fn lemma_key_round_trip(t: i64) {
        law_hour4_key_round_trip(t);
    }

    proof fn lemma_interval_decodes_alike(value: i64) {
    }

    proof fn lemma_key_order(t1: i64, t2: i64) {
        law_hour4_key_order(t1, t2);
    }

    fn to_value(src: DateTimeAsMicroseconds) -> (r: i64) {
        hour4::to_value(src)
    }

    fn to_date_time(value: i64) -> (r: Result<DateTimeAsMicroseconds, String>) {
        hour4::to_date_time(value)
    }

    fn to_dt_interval(value: i64) -> (r: DateTimeInterval) {
        DateTimeInterval::Hour4(value)
    }
}

/// Keys of a minute.
#[derive(Clone, Copy, Debug, PartialEq, Eq, PartialOrd, Ord, Hash)]
pub struct MinuteKey;

impl IntervalKeyOption for MinuteKey {
    open spec fn has_key(t: int) -> bool {
        true
    }

    open spec fn key_value(t: int) -> int {
        minute::minute_value(t)
    }

    open spec fn decodable(value: int) -> bool {
        true
    }

    open spec fn slot_start(value: int) -> Option<DateTimeAsMicroseconds> {
        minute::slot_start(value)
    }

    open spec fn interval_of(value: i64) -> DateTimeInterval {
        DateTimeInterval::Minute(value)
    }

    open spec fn slot_width() -> int {
        60_000_000
    }

    open spec fn slot_phase() -> int {
        0
    }

    proof fn lemma_key_round_trip(t: i64) {
        law_minute_key_round_trip(t);
    }

    proof fn lemma_interval_decodes_alike(value: i64) {
    }

    proof fn lemma_key_order(t1: i64, t2: i64) {
        law_minute_key_order(t1, t2);
    }

    fn to_value(src: DateTimeAsMicroseconds) -> (r: i64) {
        minute::to_value(src)
    }

    fn to_date_time(value: i64) -> (r: Result<DateTimeAsMicroseconds, String>) {
        minute::to_date_time(value)
    }

    fn to_dt_interval(value: i64) -> (r: DateTimeInterval) {
        DateTimeInterval::Minute(value)
    }
}

/// Keys of five minutes.
#[derive(Clone, Copy, Debug, PartialEq, Eq, PartialOrd, Ord, Hash)]
pub struct Minute5Key;

impl IntervalKeyOption for Minute5Key {
    open spec fn has_key(t: int) -> bool {
        true
    }

    open spec fn key_value(t: int) -> int {
        min5::min5_value(t)
    }

    open spec fn decodable(value: int) -> bool {
        true
    }

    open spec fn slot_start(value: int) -> Option<DateTimeAsMicroseconds> {
        min5::slot_start(value)
    }

    open spec fn interval_of(value: i64) -> DateTimeInterval {
        DateTimeInterval::Min5(value)
    }

    open spec fn slot_width() -> int {
        300_000_000
    }

    open spec fn slot_phase() -> int {
        0
    }

    proof fn lemma_key_round_trip(t: i64) {
        law_min5_key_round_trip(t);
    }

    proof fn lemma_interval_decodes_alike(value: i64) {
    }

    proof fn lemma_key_order(t1: i64, t2: i64) {
        law_min5_key_order(t1, t2);
    }

    fn to_value(src: DateTimeAsMicroseconds) -> (r: i64) {
        min5::to_value(src)
    }

    fn to_date_time(value: i64) -> (r: Result<DateTimeAsMicroseconds, String>) {
        min5::to_date_time(value)
    }

    fn to_dt_interval(value: i64) -> (r: DateTimeInterval) {
        DateTimeInterval::Min5(value)
    }
}

/// Keys of fifteen minutes.
#[derive(Clone, Copy, Debug, PartialEq, Eq, PartialOrd, Ord, Hash)]
pub struct Minute15Key;

impl IntervalKeyOption for Minute15Key {
    open spec fn has_key(t: int) -> bool {
        true
    }

    open spec fn key_value(t: int) -> int {
        min15::min15_value(t)
    }

    open spec fn decodable(value: int) -> bool {
        true
    }

    open spec fn slot_start(value: int) -> Option<DateTimeAsMicroseconds> {
        min15::slot_start(value)
    }

    open spec fn interval_of(value: i64) -> DateTimeInterval {
        DateTimeInterval::Min15(value)
    }

    open spec fn slot_width() -> int {
        900_000_000
    }

    open spec fn slot_phase() -> int {
        0
    }

    proof fn lemma_key_round_trip(t: i64) {
        law_min15_key_round_trip(t);
    }

    proof fn lemma_interval_decodes_alike(value: i64) {
    }

    proof fn lemma_key_order(t1: i64, t2: i64) {
        law_min15_key_order(t1, t2);
    }

    fn to_value(src: DateTimeAsMicroseconds) -> (r: i64) {
        min15::to_value(src)
    }

    fn to_date_time(value: i64) -> (r: Result<DateTimeAsMicroseconds, String>) {
        min15::to_date_time(value)
    }

    fn to_dt_interval(value: i64) -> (r: DateTimeInterval) {
        DateTimeInterval::Min15(value)
    }
}

/// Keys of thirty minutes.
#[derive(Clone, Copy, Debug, PartialEq, Eq, PartialOrd, Ord, Hash)]
pub struct Minute30Key;

impl IntervalKeyOption for Minute30Key {
    open spec fn has_key(t: int) -> bool {
        true
    }

    open spec fn key_value(t: int) -> int {
        min30::min30_value(t)
    }

    open spec fn decodable(value: int) -> bool {
        true
    }

    open spec fn slot_start(value: int) -> Option<DateTimeAsMicroseconds> {
        min30::slot_start(value)
    }

    open spec fn interval_of(value: i64) -> DateTimeInterval {
        DateTimeInterval::Min30(value)
    }

    open spec fn slot_width() -> int {
        1_800_000_000
    }

    open spec fn slot_phase() -> int {
        0
    }

    proof fn lemma_key_round_trip(t: i64) {
        law_min30_key_round_trip(t);
    }

    proof fn lemma_interval_decodes_alike(value: i64) {
    }

    proof fn lemma_key_order(t1: i64, t2: i64) {
        law_min30_key_order(t1, t2);
    }

    fn to_value(src: DateTimeAsMicroseconds) -> (r: i64) {
        min30::to_value(src)
    }

    fn to_date_time(value: i64) -> (r: Result<DateTimeAsMicroseconds, String>) {
        min30::to_date_time(value)
    }

    fn to_dt_interval(value: i64) -> (r: DateTimeInterval) {
        DateTimeInterval::Min30(value)
    }
}

/// Keys of a week that starts on Monday.
#[derive(Clone, Copy, Debug, PartialEq, Eq, PartialOrd, Ord, Hash)]
pub struct WeekMondayKey;

impl IntervalKeyOption for WeekMondayKey {
    open spec fn has_key(t: int) -> bool {
        week_monday::has_week_monday_key(t)
    }

    open spec fn key_value(t: int) -> int {
        week_monday::week_monday_value(t)
    }

    open spec fn decodable(value: int) -> bool {
        week_monday::decodable(value)
    }

    open spec fn slot_start(value: int) -> Option<DateTimeAsMicroseconds> {
        week_monday::slot_start(value)
    }

    open spec fn interval_of(value: i64) -> DateTimeInterval {
        DateTimeInterval::WeekMonday(value)
    }

    open spec fn slot_width() -> int {
        7 * 86_400_000_000int
    }

    open spec fn slot_phase() -> int {
        4 * 86_400_000_000int
    }

    proof fn lemma_key_round_trip(t: i64) {
        law_week_monday_key_round_trip(t);
    }

    proof fn lemma_interval_decodes_alike(value: i64) {
    }

    proof fn lemma_key_order(t1: i64, t2: i64) {
        law_week_monday_key_order(t1, t2);
    }

    fn to_value(src: DateTimeAsMicroseconds) -> (r: i64) {
        week_monday::to_value(src)
    }

    fn to_date_time(value: i64) -> (r: Result<DateTimeAsMicroseconds, String>) {
        week_monday::to_date_time(value)
    }

    fn to_dt_interval(value: i64) -> (r: DateTimeInterval) {
        DateTimeInterval::WeekMonday(value)
    }
}

/// Keys of a week that starts on Sunday.
#[derive(Clone, Copy, Debug, PartialEq, Eq, PartialOrd, Ord, Hash)]
pub struct WeekSundayKey;

impl IntervalKeyOption for WeekSundayKey {
    open spec fn has_key(t: int) -> bool {
        week_sunday::has_week_sunday_key(t)
    }

    open spec fn key_value(t: int) -> int {
        week_sunday::week_sunday_value(t)
    }

    open spec fn decodable(value: int) -> bool {
        week_sunday::decodable(value)
    }

    open spec fn slot_start(value: int) -> Option<DateTimeAsMicroseconds> {
        week_sunday::slot_start(value)
    }

    open spec fn interval_of(value: i64) -> DateTimeInterval {
        DateTimeInterval::WeekSunday(value)
    }

    open spec fn slot_width() -> int {
        7 * 86_400_000_000int
    }

    open spec fn slot_phase() -> int {
        3 * 86_400_000_000int
    }

    proof fn lemma_key_round_trip(t: i64) {
        law_week_sunday_key_round_trip(t);
    }

    proof fn lemma_interval_decodes_alike(value: i64) {
    }

    proof fn lemma_key_order(t1: i64, t2: i64) {
        law_week_sunday_key_order(t1, t2);
    }

    fn to_value(src: DateTimeAsMicroseconds) -> (r: i64) {
        week_sunday::to_value(src)
    }

    fn to_date_time(value: i64) -> (r: Result<DateTimeAsMicroseconds, String>) {
        week_sunday::to_date_time(value)
    }

    fn to_dt_interval(value: i64) -> (r: DateTimeInterval) {
        DateTimeInterval::WeekSunday(value)
    }
}

} // verus!
