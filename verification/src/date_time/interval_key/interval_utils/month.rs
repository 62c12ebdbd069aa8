//! Month keys: `YYYYMM`.
use super::{decode_struct, decoded, instant_of, key_struct, truncating_rem};
use crate::date_time::as_microseconds::{truncating_div, DateTimeAsMicroseconds};
use crate::date_time::date_time_struct::{date_time_struct_of, DateTimeStruct, TimeStruct};
use vstd::prelude::*;

verus! {

/// The key of the month an instant falls in.
pub open spec fn month_value(t: int) -> int {
    let s = date_time_struct_of(t);
    s.year * 100 + s.month
}

/// The struct of a month key.
pub open spec fn month_struct(v: int) -> DateTimeStruct {
    key_struct(truncating_div(v, 100), truncating_rem(v, 100), 1, 0, 0)
}

/// The start of the slot a key names, when it names one.
pub open spec fn slot_start(v: int) -> Option<DateTimeAsMicroseconds> {
    instant_of(month_struct(v))
}

pub fn to_date_time_struct(value: i64) -> (r: DateTimeStruct)
    ensures
        r == month_struct(value as int),
{
    let year = value / 100;
    let month = value % 100;
    DateTimeStruct {
        year: year as i32,
        month: month as u32,
        day: 1,
        time: TimeStruct { hour: 0, min: 0, sec: 0, micros: 0 },
        dow: None,
    }
}

/// The first day, 00:00, of the month of the key.
pub fn to_date_time(value: i64) -> (r: Result<DateTimeAsMicroseconds, String>)
    ensures
        decoded(r, month_struct(value as int), value, " is not a valid year+month key"@),
{
    decode_struct(to_date_time_struct(value), value, " is not a valid year+month key")
}

pub fn to_value(src: DateTimeAsMicroseconds) -> (r: i64)
    ensures
        r == month_value(src.unix_microseconds as int),
{
    let date_time_struct = DateTimeStruct::from_date_time(&src);
    date_time_struct.year as i64 * 100 + date_time_struct.month as i64
}

} // verus!
