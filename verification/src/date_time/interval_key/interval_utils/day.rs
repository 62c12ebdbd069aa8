//! Day keys: `YYYYMMDD`.
use super::{day_key, day_struct, decode_struct, decoded, instant_of};
use crate::date_time::as_microseconds::DateTimeAsMicroseconds;
use crate::date_time::date_time_struct::{date_time_struct_of, DateTimeStruct, TimeStruct};
use vstd::prelude::*;

verus! {

/// The key of the day an instant falls in.
pub open spec fn day_value(t: int) -> int {
    day_key(date_time_struct_of(t))
}

/// The start of the slot a key names, when it names one.
pub open spec fn slot_start(v: int) -> Option<DateTimeAsMicroseconds> {
    instant_of(day_struct(v))
}

pub fn to_date_time_struct(value: i64) -> (r: DateTimeStruct)
    ensures
        r == day_struct(value as int),
{
    let year = value / 10000;
    let month = (value % 10000) / 100;
    let day = value % 100;
    DateTimeStruct {
        year: year as i32,
        month: month as u32,
        day: day as u32,
        time: TimeStruct { hour: 0, min: 0, sec: 0, micros: 0 },
        dow: None,
    }
}

/// 00:00 of the day of the key.
pub fn to_date_time(value: i64) -> (r: Result<DateTimeAsMicroseconds, String>)
    ensures
        decoded(r, day_struct(value as int), value, " is not a valid year+month+day key"@),
{
    decode_struct(to_date_time_struct(value), value, " is not a valid year+month+day key")
}

pub fn to_value(src: DateTimeAsMicroseconds) -> (r: i64)
    ensures
        r == day_value(src.unix_microseconds as int),
        date_time_struct_of(src.unix_microseconds as int).represents(src.unix_microseconds as int),
{
    let date_time_struct = DateTimeStruct::from_date_time(&src);
    date_time_struct.year as i64 * 10000 + date_time_struct.month as i64 * 100
        + date_time_struct.day as i64
}

} // verus!
