//! Minute keys: `YYYYMMDDHHmm`, the minute itself.
use super::{decode_struct, decoded, instant_of, minute_fields, minute_key, truncating_rem};
use crate::date_time::as_microseconds::{truncating_div, DateTimeAsMicroseconds};
use crate::date_time::date_time_struct::{date_time_struct_of, DateTimeStruct, TimeStruct};
use vstd::prelude::*;

verus! {

/// The key of the minute an instant falls in.
pub open spec fn minute_value(t: int) -> int {
    let s = date_time_struct_of(t);
    minute_key(s, s.time.min as int)
}

/// The struct of a minute key.
pub open spec fn minute_struct(v: int) -> DateTimeStruct {
    minute_fields(v, truncating_rem(v, 100))
}

/// The start of the slot a key names, when it names one.
pub open spec fn slot_start(v: int) -> Option<DateTimeAsMicroseconds> {
    instant_of(minute_struct(v))
}

pub fn to_date_time_struct(value: i64) -> (r: DateTimeStruct)
    ensures
        r == minute_struct(value as int),
{
    let year = value / 100000000;
    let month = (value % 100000000) / 1000000;
    let day = (value % 1000000) / 10000;
    let hour = (value % 10000) / 100;
    let min = value % 100;
    DateTimeStruct {
        year: year as i32,
        month: month as u32,
        day: day as u32,
        time: TimeStruct { hour: hour as u32, min: min as u32, sec: 0, micros: 0 },
        dow: None,
    }
}

/// The start of the minute of the key.
pub fn to_date_time(value: i64) -> (r: Result<DateTimeAsMicroseconds, String>)
    ensures
        decoded(r, minute_struct(value as int), value, " is not a valid year+month+day+hour+minute key"@),
{
    decode_struct(to_date_time_struct(value), value, " is not a valid year+month+day+hour+minute key")
}

pub fn to_value(src: DateTimeAsMicroseconds) -> (r: i64)
    ensures
        r == minute_value(src.unix_microseconds as int),
{
    let date_time_struct = DateTimeStruct::from_date_time(&src);
    (date_time_struct.year as i64) * 100000000 + date_time_struct.month as i64 * 1000000
        + date_time_struct.day as i64 * 10000 + date_time_struct.time.hour as i64 * 100
        + date_time_struct.time.min as i64
}

} // verus!
