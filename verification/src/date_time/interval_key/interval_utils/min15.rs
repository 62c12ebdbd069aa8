//! Fifteen-minute keys: `YYYYMMDDHHmm`, the minute cut to a multiple of 15.
use super::{decode_struct, decoded, instant_of, minute_fields, minute_key, truncating_rem};
use crate::date_time::as_microseconds::{truncating_div, DateTimeAsMicroseconds};
use crate::date_time::date_time_struct::{date_time_struct_of, DateTimeStruct, TimeStruct};
use vstd::prelude::*;

verus! {

/// The key of the fifteen-minute slot an instant falls in.
pub open spec fn min15_value(t: int) -> int {
    let s = date_time_struct_of(t);
    minute_key(s, s.time.min / 15 * 15)
}

/// The struct of a fifteen-minute slot key: a minute off the slot is cut to the slot start.
pub open spec fn min15_struct(v: int) -> DateTimeStruct {
    minute_fields(v, truncating_div(truncating_rem(v, 100), 15) * 15)
}

/// The start of the slot a key names, when it names one.
pub open spec fn slot_start(v: int) -> Option<DateTimeAsMicroseconds> {
    instant_of(min15_struct(v))
}

pub fn to_date_time_struct(value: i64) -> (r: DateTimeStruct)
    ensures
        r == min15_struct(value as int),
{
    let year = value / 100000000;
    let month = (value % 100000000) / 1000000;
    let day = (value % 1000000) / 10000;
    let hour = (value % 10000) / 100;
    let min = (value % 100) / 15 * 15;
    DateTimeStruct {
        year: year as i32,
        month: month as u32,
        day: day as u32,
        time: TimeStruct { hour: hour as u32, min: min as u32, sec: 0, micros: 0 },
        dow: None,
    }
}

/// The start of the fifteen-minute slot of the key.
pub fn to_date_time(value: i64) -> (r: Result<DateTimeAsMicroseconds, String>)
    ensures
        decoded(r, min15_struct(value as int), value, " is not a valid 15-minute interval key"@),
{
    decode_struct(to_date_time_struct(value), value, " is not a valid 15-minute interval key")
}

pub fn to_value(src: DateTimeAsMicroseconds) -> (r: i64)
    ensures
        r == min15_value(src.unix_microseconds as int),
{
    let date_time_struct = DateTimeStruct::from_date_time(&src);
    let minute_slot = date_time_struct.time.min as i64 / 15;
    (date_time_struct.year as i64) * 100000000 + date_time_struct.month as i64 * 1000000
        + date_time_struct.day as i64 * 10000 + date_time_struct.time.hour as i64 * 100
        + minute_slot * 15
}

} // verus!
