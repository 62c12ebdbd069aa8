//! Four-hour keys: `YYYYMMDDHH`, the hour cut to a multiple of 4.
use super::{decode_struct, decoded, instant_of, hour_fields, hour_key, truncating_rem};
use crate::date_time::as_microseconds::{truncating_div, DateTimeAsMicroseconds};
use crate::date_time::date_time_struct::{date_time_struct_of, DateTimeStruct, TimeStruct};
use vstd::prelude::*;

verus! {

/// The key of the four-hour slot an instant falls in.
pub open spec fn hour4_value(t: int) -> int {
    let s = date_time_struct_of(t);
    hour_key(s, s.time.hour / 4 * 4)
}

/// The struct of a four-hour slot key: an hour off the slot is cut to the slot start.
pub open spec fn hour4_struct(v: int) -> DateTimeStruct {
    hour_fields(v, truncating_div(truncating_rem(v, 100), 4) * 4)
}

/// The start of the slot a key names, when it names one.
pub open spec fn slot_start(v: int) -> Option<DateTimeAsMicroseconds> {
    instant_of(hour4_struct(v))
}

pub fn to_date_time_struct(value: i64) -> (r: DateTimeStruct)
    ensures
        r == hour4_struct(value as int),
{
    let year = value / 1000000;
    let month = (value % 1000000) / 10000;
    let day = (value % 10000) / 100;
    let hour = (value % 100) / 4 * 4;
    DateTimeStruct {
        year: year as i32,
        month: month as u32,
        day: day as u32,
        time: TimeStruct { hour: hour as u32, min: 0, sec: 0, micros: 0 },
        dow: None,
    }
}

/// The start of the four-hour slot of the key.
pub fn to_date_time(value: i64) -> (r: Result<DateTimeAsMicroseconds, String>)
    ensures
        decoded(r, hour4_struct(value as int), value, " is not a valid 4-hour interval key"@),
{
    decode_struct(to_date_time_struct(value), value, " is not a valid 4-hour interval key")
}

pub fn to_value(src: DateTimeAsMicroseconds) -> (r: i64)
    ensures
        r == hour4_value(src.unix_microseconds as int),
{
    let date_time_struct = DateTimeStruct::from_date_time(&src);
    let hour_slot = date_time_struct.time.hour as i64 / 4;
    (date_time_struct.year as i64) * 1000000 + date_time_struct.month as i64 * 10000
        + date_time_struct.day as i64 * 100 + hour_slot * 4
}

} // verus!
