//! Year keys: `YYYY`.
use super::{decode_struct, decoded, instant_of, key_struct};
use crate::date_time::as_microseconds::DateTimeAsMicroseconds;
use crate::date_time::date_time_struct::{date_time_struct_of, DateTimeStruct, TimeStruct};
use vstd::prelude::*;

verus! {

/// The key of the year an instant falls in.
pub open spec fn year_value(t: int) -> int {
    date_time_struct_of(t).year as int
}

/// The start of the slot a key names, when it names one.
pub open spec fn slot_start(v: int) -> Option<DateTimeAsMicroseconds> {
    instant_of(key_struct(v, 1, 1, 0, 0))
}

pub fn to_date_time_struct(value: i64) -> (r: DateTimeStruct)
    ensures
        r == key_struct(value as int, 1, 1, 0, 0),
{
    DateTimeStruct {
        year: value as i32,
        month: 1,
        day: 1,
        time: TimeStruct { hour: 0, min: 0, sec: 0, micros: 0 },
        dow: None,
    }
}

/// January 1st, 00:00, of the year `value`.
pub fn to_date_time(value: i64) -> (r: Result<DateTimeAsMicroseconds, String>)
    ensures
        decoded(r, key_struct(value as int, 1, 1, 0, 0), value, " is not a valid year"@),
{
    decode_struct(to_date_time_struct(value), value, " is not a valid year")
}

pub fn to_value(src: DateTimeAsMicroseconds) -> (r: i64)
    ensures
        r == year_value(src.unix_microseconds as int),
{
    let date_time_struct = DateTimeStruct::from_date_time(&src);
    date_time_struct.year as i64
}

} // verus!
