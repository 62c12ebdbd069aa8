//! Integer keys of calendar slots (a year, a month, a day, an hour, a few minutes, a week):
//! the decimal digits of the slot start's fields, most significant first, so that the
//! numeric order of keys is the order of time.
pub mod year;
pub mod month;
pub mod day;
pub mod hour;
pub mod hour2;
pub mod hour4;
pub mod minute;
pub mod min5;
pub mod min15;
pub mod min30;
pub mod week_monday;
pub mod week_sunday;

use crate::date_time::as_microseconds::{truncating_div, DateTimeAsMicroseconds};
use crate::date_time::calendar::{
    days_from_civil, is_valid_date, lemma_civil_order, weekday_from_days,
};
use crate::date_time::date_time_struct::{day_number_of, DateTimeStruct, TimeStruct};
use vstd::arithmetic::div_mod::lemma_fundamental_div_mod_converse;
use crate::date_time::format::{int_text, push_int, push_str};
use vstd::prelude::*;

verus! {

/// Rust's `%` on integers: the remainder takes the sign of the dividend.
pub open spec fn truncating_rem(a: int, b: int) -> int {
    a - b * truncating_div(a, b)
}

/// The struct a key decodes to: the given fields, each cast to its field's type as Rust's
/// `as` casts an `i64`; seconds and microseconds zero, no weekday.
pub open spec fn key_struct(year: int, month: int, day: int, hour: int, min: int) -> DateTimeStruct {
    DateTimeStruct {
        year: year as i32,
        month: month as u32,
        day: day as u32,
        time: TimeStruct { hour: hour as u32, min: min as u32, sec: 0, micros: 0 },
        dow: None,
    }
}

/// The instant a struct names, when its fields are a valid date and time that fits an `i64`.
pub open spec fn instant_of(s: DateTimeStruct) -> Option<DateTimeAsMicroseconds> {
    if s.is_valid() && i64::MIN <= s.unix_micros() <= i64::MAX {
        Some(DateTimeAsMicroseconds { unix_microseconds: s.unix_micros() as i64 })
    } else {
        None
    }
}

/// `r` is what decoding `value` to the struct `s` gives: the instant of `s`, or, where `s`
/// names none, the key followed by `what`.
pub open spec fn decoded(
    r: Result<DateTimeAsMicroseconds, String>,
    s: DateTimeStruct,
    value: i64,
    what: Seq<char>,
) -> bool {
    match r {
        Ok(d) => instant_of(s) == Some(d),
        Err(e) => instant_of(s) is None && e@ == int_text(value as int) + what,
    }
}

/// The instant of a decoded struct, or the error that names the key.
pub fn decode_struct(s: DateTimeStruct, value: i64, what: &str) -> (r: Result<
    DateTimeAsMicroseconds,
    String,
>)
    ensures
        decoded(r, s, value, what@),
{
    match s.to_date_time_as_microseconds() {
        Some(d) => Ok(d),
        None => {
            let mut e = String::new();
            push_int(&mut e, value);
            push_str(&mut e, what);
            Err(e)
        },
    }
}

/// The key of a day: `YYYYMMDD`.
pub open spec fn day_key(s: DateTimeStruct) -> int {
    s.year * 10_000 + s.month * 100 + s.day
}

/// The key of an hour slot that starts at `hour`: `YYYYMMDDHH`.
pub open spec fn hour_key(s: DateTimeStruct, hour: int) -> int {
    s.year * 1_000_000 + s.month * 10_000 + s.day * 100 + hour
}

/// The key of a minute slot that starts at `min`: `YYYYMMDDHHmm`.
pub open spec fn minute_key(s: DateTimeStruct, min: int) -> int {
    s.year * 100_000_000 + s.month * 1_000_000 + s.day * 10_000 + s.time.hour * 100 + min
}

/// The struct of a day key.
pub open spec fn day_struct(v: int) -> DateTimeStruct {
    key_struct(
        truncating_div(v, 10_000),
        truncating_div(truncating_rem(v, 10_000), 100),
        truncating_rem(v, 100),
        0,
        0,
    )
}

/// The struct of an hour key, its hour given.
pub open spec fn hour_fields(v: int, hour: int) -> DateTimeStruct {
    key_struct(
        truncating_div(v, 1_000_000),
        truncating_div(truncating_rem(v, 1_000_000), 10_000),
        truncating_div(truncating_rem(v, 10_000), 100),
        hour,
        0,
    )
}

/// The struct of a minute key, its minute given.
pub open spec fn minute_fields(v: int, min: int) -> DateTimeStruct {
    key_struct(
        truncating_div(v, 100_000_000),
        truncating_div(truncating_rem(v, 100_000_000), 1_000_000),
        truncating_div(truncating_rem(v, 1_000_000), 10_000),
        truncating_div(truncating_rem(v, 10_000), 100),
        min,
    )
}

/// The day number of the first day that keys can name: 0000-01-01 (a key holds no sign,
/// so earlier dates do not decode back).
pub open spec fn first_key_day() -> int {
    days_from_civil(0, 1, 1)
}

/// The day number of the Monday that starts the week an instant falls in.
pub open spec fn monday_week_start(t: int) -> int {
    day_number_of(t) - weekday_from_days(day_number_of(t))
}

/// The day number of the Sunday that starts the week an instant falls in.
pub open spec fn sunday_week_start(t: int) -> int {
    day_number_of(t) - (weekday_from_days(day_number_of(t)) + 1) % 7
}

/// The fields of an instant name the day `day_number_of` counts.
pub proof fn lemma_day_number_of(s: DateTimeStruct, t: int)
    requires
        s.is_valid(),
        s.unix_micros() == t,
    ensures
        s.day_number() == day_number_of(t),
{
    lemma_fundamental_div_mod_converse(
        t,
        86_400_000_000,
        s.day_number(),
        s.time.micros_of_day(),
    );
}

/// A valid date on or after 0000-01-01 has a year that is not negative.
pub proof fn lemma_year_not_negative(s: DateTimeStruct)
    requires
        s.is_valid(),
        s.day_number() >= first_key_day(),
    ensures
        s.year >= 0,
{
    if s.year < 0 {
        lemma_civil_order(s.year as int, s.month as int, s.day as int, 0, 1, 1);
    }
}

/// The day key of a date of a year that is not negative decodes to that date.
pub proof fn lemma_day_key_decodes(s: DateTimeStruct)
    requires
        s.is_valid(),
        s.year >= 0,
    ensures
        day_struct(day_key(s)) == key_struct(s.year as int, s.month as int, s.day as int, 0, 0),
{
    let v = day_key(s);
    let md = s.month * 100 + s.day;
    lemma_fundamental_div_mod_converse(v, 10_000, s.year as int, md);
    lemma_fundamental_div_mod_converse(md, 100, s.month as int, s.day as int);
    lemma_fundamental_div_mod_converse(v, 100, s.year * 100 + s.month, s.day as int);
}

/// The start of a day of a year that is not negative: the instant its day key decodes to.
pub proof fn lemma_day_start_decodes(s: DateTimeStruct)
    requires
        s.is_valid(),
        s.year >= 0,
        i64::MIN <= s.day_number() * 86_400_000_000 <= i64::MAX,
    ensures
        instant_of(day_struct(day_key(s))) == Some(
            DateTimeAsMicroseconds { unix_microseconds: (s.day_number() * 86_400_000_000) as i64 },
        ),
{
    lemma_day_key_decodes(s);
}

} // verus!
