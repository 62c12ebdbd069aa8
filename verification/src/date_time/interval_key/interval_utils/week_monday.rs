//! Week keys, weeks starting on Monday: the day key (`YYYYMMDD`) of the Monday that starts
//! the week, so that keys keep the order of time and decode to a real date.
use super::{day, day_key, day_struct, decoded, first_key_day, instant_of, lemma_day_key_decodes,
    lemma_day_number_of, lemma_day_start_decodes, lemma_year_not_negative, monday_week_start};
use crate::date_time::as_microseconds::DateTimeAsMicroseconds;
use crate::date_time::date_time_struct::{date_time_struct_of, DateTimeStruct};
use crate::date_time::duration_units::duration_from_secs;
use vstd::prelude::*;

verus! {

const DAY: u64 = 86_400;

/// The key of the week an instant falls in.
pub open spec fn week_monday_value(t: int) -> int {
    day_key(date_time_struct_of(monday_week_start(t) * 86_400_000_000))
}

/// Instants whose week starts on 0000-01-01 or later: those whose week has a key.
pub open spec fn has_week_monday_key(t: int) -> bool {
    monday_week_start(t) >= first_key_day()
}

/// The start of the week of the day a key names, when it names a day.
pub open spec fn slot_start(v: int) -> Option<DateTimeAsMicroseconds> {
    match instant_of(day_struct(v)) {
        Some(d) => Some(
            DateTimeAsMicroseconds {
                unix_microseconds: (monday_week_start(d.unix_microseconds as int) * 86_400_000_000) as i64,
            },
        ),
        None => None,
    }
}

/// Keys whose day's week has a key itself (decoding any other key is a fault).
pub open spec fn decodable(v: int) -> bool {
    instant_of(day_struct(v)) matches Some(d) ==> has_week_monday_key(d.unix_microseconds as int)
}

/// Cuts an instant back to 00:00 of the Monday that starts its week.
#[verifier::rlimit(30)]
pub fn to_week_start(src: DateTimeAsMicroseconds) -> (r: DateTimeAsMicroseconds)
    requires
        has_week_monday_key(src.unix_microseconds as int),
    ensures
        r.unix_microseconds == monday_week_start(src.unix_microseconds as int) * 86_400_000_000,
{
    let ghost t = src.unix_microseconds as int;
    let date_time_struct = DateTimeStruct::from_date_time(&src);
    proof {
        lemma_day_number_of(date_time_struct, t);
    }
    let days_back = date_time_struct.get_day_of_week().num_days_from_monday() as u64;
    let ghost ws = monday_week_start(t);
    assert(ws * 86_400_000_000 <= t < (ws + 7) * 86_400_000_000) by (nonlinear_arith)
        requires
            ws == date_time_struct.day_number() - days_back,
            date_time_struct.day_number() == t / 86_400_000_000,
            0 <= days_back < 7,
    ;
    let week_start = src.sub(duration_from_secs(days_back * DAY));
    assert(week_start.unix_microseconds == t - days_back * 86_400_000_000);
    let ghost s = date_time_struct_of(week_start.unix_microseconds as int);
    let key = day::to_value(week_start);
    proof {
        lemma_day_number_of(s, week_start.unix_microseconds as int);
        assert(s.day_number() == ws) by (nonlinear_arith)
            requires
                s.day_number() == week_start.unix_microseconds / 86_400_000_000,
                week_start.unix_microseconds == t - days_back * 86_400_000_000,
                ws == t / 86_400_000_000 - days_back,
        ;
        lemma_year_not_negative(s);
        lemma_day_start_decodes(s);
    }
    day::to_date_time(key).unwrap()
}

/// The start of the week of the day the key names: a key of a day that is no Monday is
/// cut back to the Monday before it.
pub fn to_date_time(value: i64) -> (r: Result<DateTimeAsMicroseconds, String>)
    requires
        decodable(value as int),
    ensures
        match r {
            Ok(w) => slot_start(value as int) == Some(w),
            Err(_) => decoded(r, day_struct(value as int), value, " is not a valid year+month+day key"@),
        },
{
    let dt = match day::to_date_time(value) {
        Ok(dt) => dt,
        Err(e) => return Err(e),
    };
    Ok(to_week_start(dt))
}

pub fn to_value(src: DateTimeAsMicroseconds) -> (r: i64)
    requires
        has_week_monday_key(src.unix_microseconds as int),
    ensures
        r == week_monday_value(src.unix_microseconds as int),
{
    day::to_value(to_week_start(src))
}

} // verus!
