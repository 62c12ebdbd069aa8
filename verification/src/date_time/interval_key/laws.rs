//! What interval keys promise, for instants of years that are not negative: the key of an
//! instant decodes to the start of its slot, no later than the instant and less than a slot
//! width before it; that start has the same key; and keys keep the order of time.
use super::interval_utils::day::day_value;
use super::interval_utils::hour::{hour_struct, hour_value};
use super::interval_utils::hour2::{hour2_struct, hour2_value};
use super::interval_utils::hour4::{hour4_struct, hour4_value};
use super::interval_utils::min15::{min15_struct, min15_value};
use super::interval_utils::min30::{min30_struct, min30_value};
use super::interval_utils::min5::{min5_struct, min5_value};
use super::interval_utils::minute::{minute_struct, minute_value};
use super::interval_utils::month::{month_struct, month_value};
use super::interval_utils::week_monday::{has_week_monday_key, week_monday_value};
use super::interval_utils::week_sunday::{has_week_sunday_key, week_sunday_value};
use super::interval_utils::year::year_value;
use super::interval_utils::{
    day, day_key, day_struct, hour, hour2, hour4, hour_fields, hour_key, instant_of, key_struct,
    min15, min30, min5, minute, minute_fields, minute_key, month, truncating_rem, week_monday,
    week_sunday, year, lemma_day_number_of, lemma_day_start_decodes, lemma_year_not_negative,
    monday_week_start, sunday_week_start,
};
use crate::date_time::as_microseconds::{truncating_div, DateTimeAsMicroseconds};
use crate::date_time::calendar::{
    days_before_year, days_from_civil, days_in_month, is_valid_date, lemma_civil_order,
    lemma_day_of_year_in_range, lemma_days_before_year_monotonic, lemma_month_table,
    lemma_next_year, weekday_from_days, year_in_range, lemma_days_back,
};
use crate::date_time::date_time_struct::{
    date_time_struct_of, day_number_of, day_of_week_from_monday, lemma_date_time_struct_of,
    lemma_struct_of_represents, lemma_year_in_range_of, DateTimeStruct, TimeStruct,
};
use vstd::arithmetic::div_mod::{
    lemma_div_is_ordered, lemma_div_multiples_vanish, lemma_fundamental_div_mod,
    lemma_fundamental_div_mod_converse,
};
use vstd::prelude::*;

verus! {

/// `a` comes no later than `b` in the order of calendar fields (the weekday aside).
pub open spec fn fields_le(a: DateTimeStruct, b: DateTimeStruct) -> bool {
    ||| a.year < b.year
    ||| a.year == b.year && a.month < b.month
    ||| a.year == b.year && a.month == b.month && a.day < b.day
    ||| a.year == b.year && a.month == b.month && a.day == b.day && a.time.micros_of_day()
        <= b.time.micros_of_day()
}

/// The order of calendar fields is the order of the instants they name.
proof fn lemma_fields_le_unix(a: DateTimeStruct, b: DateTimeStruct)
    requires
        a.is_valid(),
        b.is_valid(),
        fields_le(a, b),
    ensures
        a.unix_micros() <= b.unix_micros(),
{
    if !(a.year == b.year && a.month == b.month && a.day == b.day) {
        lemma_civil_order(
            a.year as int,
            a.month as int,
            a.day as int,
            b.year as int,
            b.month as int,
            b.day as int,
        );
    }
}

/// Fields of an earlier instant come no later.
proof fn lemma_fields_order(s1: DateTimeStruct, t1: int, s2: DateTimeStruct, t2: int)
    requires
        s1.represents(t1),
        s2.represents(t2),
        t1 <= t2,
    ensures
        fields_le(s1, s2),
{
    if !fields_le(s1, s2) {
        if !(s1.year == s2.year && s1.month == s2.month && s1.day == s2.day) {
            lemma_civil_order(
                s2.year as int,
                s2.month as int,
                s2.day as int,
                s1.year as int,
                s1.month as int,
                s1.day as int,
            );
        }
    }
}

/// On one day, an earlier time of day has an earlier hour, or the same hour and a minute
/// that is not later.
proof fn lemma_time_order(a: DateTimeStruct, b: DateTimeStruct)
    requires
        a.is_valid(),
        b.is_valid(),
        a.time.micros_of_day() <= b.time.micros_of_day(),
    ensures
        a.time.hour < b.time.hour || (a.time.hour == b.time.hour && a.time.min <= b.time.min),
{
}

/// Cutting to a multiple of `k` keeps the order, stays below and within `k`, and cutting
/// twice is cutting once.
proof fn lemma_cut(a: int, b: int, k: int)
    requires
        0 <= a <= b,
        0 < k,
    ensures
        a / k * k <= b / k * k,
        0 <= a / k * k <= a < a / k * k + k,
        (a / k * k) / k * k == a / k * k,
{
    lemma_div_is_ordered(a, b, k);
    lemma_fundamental_div_mod(a, k);
    lemma_div_multiples_vanish(a / k, k);
    assert(a / k * k <= b / k * k) by (nonlinear_arith)
        requires
            a / k <= b / k,
            0 < k,
    ;
    assert(0 <= a / k * k) by (nonlinear_arith)
        requires
            0 <= a,
            0 < k,
            0 <= a / k,
    ;
}

/// A minute key of fields of a year that is not negative decodes to those fields.
proof fn lemma_minute_layout(y: int, mo: int, d: int, h: int, mi: int)
    requires
        0 <= y,
        1 <= mo <= 12,
        1 <= d <= 31,
        0 <= h < 24,
        0 <= mi < 60,
    ensures
        ({
            let v = y * 100_000_000 + mo * 1_000_000 + d * 10_000 + h * 100 + mi;
            &&& truncating_rem(v, 100) == mi
            &&& minute_fields(v, mi) == key_struct(y, mo, d, h, mi)
        }),
{
    let v = y * 100_000_000 + mo * 1_000_000 + d * 10_000 + h * 100 + mi;
    let r8 = mo * 1_000_000 + d * 10_000 + h * 100 + mi;
    let r6 = d * 10_000 + h * 100 + mi;
    let r4 = h * 100 + mi;
    lemma_fundamental_div_mod_converse(v, 100_000_000, y, r8);
    lemma_fundamental_div_mod_converse(r8, 1_000_000, mo, r6);
    lemma_fundamental_div_mod_converse(v, 1_000_000, y * 100 + mo, r6);
    lemma_fundamental_div_mod_converse(r6, 10_000, d, r4);
    lemma_fundamental_div_mod_converse(v, 10_000, y * 10_000 + mo * 100 + d, r4);
    lemma_fundamental_div_mod_converse(r4, 100, h, mi);
    lemma_fundamental_div_mod_converse(v, 100, y * 1_000_000 + mo * 10_000 + d * 100 + h, mi);
}

/// An hour key of fields of a year that is not negative decodes to those fields.
proof fn lemma_hour_layout(y: int, mo: int, d: int, h: int)
    requires
        0 <= y,
        1 <= mo <= 12,
        1 <= d <= 31,
        0 <= h < 24,
    ensures
        ({
            let v = y * 1_000_000 + mo * 10_000 + d * 100 + h;
            &&& truncating_rem(v, 100) == h
            &&& hour_fields(v, h) == key_struct(y, mo, d, h, 0)
        }),
{
    let v = y * 1_000_000 + mo * 10_000 + d * 100 + h;
    let r6 = mo * 10_000 + d * 100 + h;
    let r4 = d * 100 + h;
    lemma_fundamental_div_mod_converse(v, 1_000_000, y, r6);
    lemma_fundamental_div_mod_converse(r6, 10_000, mo, r4);
    lemma_fundamental_div_mod_converse(v, 10_000, y * 100 + mo, r4);
    lemma_fundamental_div_mod_converse(r4, 100, d, h);
    lemma_fundamental_div_mod_converse(v, 100, y * 10_000 + mo * 100 + d, h);
}

/// Fields a whole number `q` of slots of width `w` into their day, where a day holds a whole
/// number `n` of such slots, name an instant on the grid of those slots.
proof fn lemma_on_grid(z: DateTimeStruct, w: int, n: int, q: int)
    requires
        w > 0,
        n * w == 86_400_000_000,
        q * w == z.time.micros_of_day(),
    ensures
        z.unix_micros() % w == 0,
{
    let dn = z.day_number();
    assert(z.unix_micros() == (dn * n + q) * w) by (nonlinear_arith)
        requires
            n * w == 86_400_000_000,
            q * w == z.time.micros_of_day(),
            z.unix_micros() == dn * 86_400_000_000 + z.time.micros_of_day(),
    ;
    lemma_fundamental_div_mod_converse(z.unix_micros(), w, dn * n + q, 0);
}

/// 00:00 of a day that is `phase` days after a Monday lies on the grid of weeks that starts
/// `(phase + 4) % 7` days after the epoch (day 0 is a Thursday).
proof fn lemma_week_grid(ws: int, phase: int)
    requires
        0 <= phase < 7,
        weekday_from_days(ws) == phase,
    ensures
        (ws * 86_400_000_000 - ((phase + 4) % 7) * 86_400_000_000) % (7 * 86_400_000_000int) == 0,
{
    lemma_fundamental_div_mod(ws + 3, 7);
    let k = (ws + 3) / 7;
    let x = ws * 86_400_000_000 - ((phase + 4) % 7) * 86_400_000_000;
    if phase + 4 < 7 {
        lemma_fundamental_div_mod_converse(phase + 4, 7, 0, phase + 4);
        assert(x == (k - 1) * (7 * 86_400_000_000)) by (nonlinear_arith)
            requires
                ws + 3 == 7 * k + phase,
                x == ws * 86_400_000_000 - (phase + 4) * 86_400_000_000,
        ;
        lemma_fundamental_div_mod_converse(x, 7 * 86_400_000_000int, k - 1, 0);
    } else {
        lemma_fundamental_div_mod_converse(phase + 4, 7, 1, phase - 3);
        assert(x == k * (7 * 86_400_000_000)) by (nonlinear_arith)
            requires
                ws + 3 == 7 * k + phase,
                x == ws * 86_400_000_000 - (phase - 3) * 86_400_000_000,
        ;
        lemma_fundamental_div_mod_converse(x, 7 * 86_400_000_000int, k, 0);
    }
}

/// A slot start `z` of the instant `t`: it names a valid date and time no later than `t`, it
/// decodes to its instant, and that instant splits into the fields of `z`.
proof fn lemma_slot(s: DateTimeStruct, t: int, z: DateTimeStruct)
    requires
        s.represents(t),
        t <= i64::MAX,
        z.is_valid(),
        z.year >= 0,
        fields_le(z, s),
    ensures
        instant_of(z) == Some(DateTimeAsMicroseconds { unix_microseconds: z.unix_micros() as i64 }),
        z.unix_micros() <= t,
        date_time_struct_of(z.unix_micros()).same_fields(z),
{
    lemma_fields_le_unix(z, s);
    lemma_day_of_year_in_range(z.year as int, z.month as int, z.day as int);
    lemma_days_before_year_monotonic(0, z.year as int);
    assert(days_before_year(0) == -719528);
    let w = DateTimeStruct {
        dow: Some(day_of_week_from_monday(weekday_from_days(z.day_number()))),
        ..z
    };
    assert(w.represents(z.unix_micros()));
    lemma_date_time_struct_of(w, z.unix_micros());
}

/// Keys of years: the key of an instant decodes to January 1st, 00:00, of its year, which
/// has the same key.
proof fn lemma_year_key_round_trip(t: i64, s: DateTimeStruct)
    requires
        s.represents(t as int),
        s.year >= 0,
    ensures
        year::slot_start(year_value(t as int)) matches Some(d) && d.unix_microseconds <= t
            && year_value(d.unix_microseconds as int) == year_value(t as int),
{
    lemma_date_time_struct_of(s, t as int);
    let z = key_struct(s.year as int, 1, 1, 0, 0);
    lemma_slot(s, t as int, z);
}

/// Keys of years keep the order of time.
proof fn lemma_year_key_order(t1: i64, s1: DateTimeStruct, t2: i64, s2: DateTimeStruct)
    requires
        s1.represents(t1 as int),
        s2.represents(t2 as int),
        t1 <= t2,
    ensures
        year_value(t1 as int) <= year_value(t2 as int),
{
    lemma_date_time_struct_of(s1, t1 as int);
    lemma_date_time_struct_of(s2, t2 as int);
    lemma_fields_order(s1, t1 as int, s2, t2 as int);
}

/// Keys of months: the key of an instant decodes to the first day, 00:00, of its month,
/// which has the same key.
proof fn lemma_month_key_round_trip(t: i64, s: DateTimeStruct)
    requires
        s.represents(t as int),
        s.year >= 0,
    ensures
        month::slot_start(month_value(t as int)) matches Some(d) && d.unix_microseconds <= t
            && month_value(d.unix_microseconds as int) == month_value(t as int),
{
    lemma_date_time_struct_of(s, t as int);
    let v = s.year * 100 + s.month;
    lemma_fundamental_div_mod_converse(v, 100, s.year as int, s.month as int);
    let z = key_struct(s.year as int, s.month as int, 1, 0, 0);
    assert(month_struct(v) == z);
    lemma_slot(s, t as int, z);
}

/// Keys of months keep the order of time.
proof fn lemma_month_key_order(t1: i64, s1: DateTimeStruct, t2: i64, s2: DateTimeStruct)
    requires
        s1.represents(t1 as int),
        s2.represents(t2 as int),
        t1 <= t2,
    ensures
        month_value(t1 as int) <= month_value(t2 as int),
{
    lemma_date_time_struct_of(s1, t1 as int);
    lemma_date_time_struct_of(s2, t2 as int);
    lemma_fields_order(s1, t1 as int, s2, t2 as int);
}

/// Keys of days: the key of an instant decodes to 00:00 of its day, which has the same key.
proof fn lemma_day_key_round_trip(t: i64, s: DateTimeStruct)
    requires
        s.represents(t as int),
        s.year >= 0,
    ensures
        day::slot_start(day_value(t as int)) matches Some(d) && d.unix_microseconds <= t < d.unix_microseconds
            + 86_400_000_000 && day_value(d.unix_microseconds as int) == day_value(t as int)
            && d.unix_microseconds % 86_400_000_000 == 0,
{
    lemma_date_time_struct_of(s, t as int);
    let z = key_struct(s.year as int, s.month as int, s.day as int, 0, 0);
    let v = day_key(s);
    let md = s.month * 100 + s.day;
    lemma_fundamental_div_mod_converse(v, 10_000, s.year as int, md);
    lemma_fundamental_div_mod_converse(md, 100, s.month as int, s.day as int);
    lemma_fundamental_div_mod_converse(v, 100, s.year * 100 + s.month, s.day as int);
    assert(day_struct(v) == z);
    lemma_slot(s, t as int, z);
    lemma_on_grid(z, 86_400_000_000, 1, 0);
}

/// Keys of days keep the order of time.
proof fn lemma_day_key_order(t1: i64, s1: DateTimeStruct, t2: i64, s2: DateTimeStruct)
    requires
        s1.represents(t1 as int),
        s2.represents(t2 as int),
        t1 <= t2,
    ensures
        day_value(t1 as int) <= day_value(t2 as int),
{
    lemma_date_time_struct_of(s1, t1 as int);
    lemma_date_time_struct_of(s2, t2 as int);
    lemma_fields_order(s1, t1 as int, s2, t2 as int);
}

/// Keys of an hour: the key of an instant decodes to the start of its slot, less than
/// an hour before it, and that start has the same key.
proof fn lemma_hour_key_round_trip(t: i64, s: DateTimeStruct)
    requires
        s.represents(t as int),
        s.year >= 0,
    ensures
        hour::slot_start(hour_value(t as int)) matches Some(d) && d.unix_microseconds <= t
            < d.unix_microseconds + 1 * 3_600_000_000 && hour_value(d.unix_microseconds as int)
            == hour_value(t as int)
            && d.unix_microseconds % 3_600_000_000 == 0,
{
    lemma_date_time_struct_of(s, t as int);
    let h = s.time.hour as int;
    lemma_hour_layout(s.year as int, s.month as int, s.day as int, h);
    let z = key_struct(s.year as int, s.month as int, s.day as int, h, 0);
    assert(hour_struct(hour_key(s, h)) == z);
    lemma_slot(s, t as int, z);
    lemma_on_grid(z, 3_600_000_000, 24, h);
}

/// Keys of an hour keep the order of time.
proof fn lemma_hour_key_order(t1: i64, s1: DateTimeStruct, t2: i64, s2: DateTimeStruct)
    requires
        s1.represents(t1 as int),
        s2.represents(t2 as int),
        t1 <= t2,
    ensures
        hour_value(t1 as int) <= hour_value(t2 as int),
{
    lemma_date_time_struct_of(s1, t1 as int);
    lemma_date_time_struct_of(s2, t2 as int);
    lemma_fields_order(s1, t1 as int, s2, t2 as int);
    if s1.year == s2.year && s1.month == s2.month && s1.day == s2.day {
        lemma_time_order(s1, s2);
    }
}

/// Keys of two hours: the key of an instant decodes to the start of its slot, less than
/// two hours before it, and that start has the same key.
proof fn lemma_hour2_key_round_trip(t: i64, s: DateTimeStruct)
    requires
        s.represents(t as int),
        s.year >= 0,
    ensures
        hour2::slot_start(hour2_value(t as int)) matches Some(d) && d.unix_microseconds <= t
            < d.unix_microseconds + 2 * 3_600_000_000 && hour2_value(d.unix_microseconds as int)
            == hour2_value(t as int)
            && d.unix_microseconds % 7_200_000_000 == 0,
{
    lemma_date_time_struct_of(s, t as int);
    lemma_cut(s.time.hour as int, s.time.hour as int, 2);
    let h = s.time.hour / 2 * 2;
    lemma_hour_layout(s.year as int, s.month as int, s.day as int, h);
    let z = key_struct(s.year as int, s.month as int, s.day as int, h, 0);
    assert(hour2_struct(hour_key(s, h)) == z);
    lemma_slot(s, t as int, z);
    lemma_on_grid(z, 7_200_000_000, 12, (s.time.hour / 2) as int);
}

/// Keys of two hours keep the order of time.
proof fn lemma_hour2_key_order(t1: i64, s1: DateTimeStruct, t2: i64, s2: DateTimeStruct)
    requires
        s1.represents(t1 as int),
        s2.represents(t2 as int),
        t1 <= t2,
    ensures
        hour2_value(t1 as int) <= hour2_value(t2 as int),
{
    lemma_date_time_struct_of(s1, t1 as int);
    lemma_date_time_struct_of(s2, t2 as int);
    lemma_fields_order(s1, t1 as int, s2, t2 as int);
    if s1.year == s2.year && s1.month == s2.month && s1.day == s2.day {
        lemma_time_order(s1, s2);
        lemma_cut(s1.time.hour as int, s2.time.hour as int, 2);
    } else {
        lemma_cut(s1.time.hour as int, s1.time.hour as int, 2);
        lemma_cut(s2.time.hour as int, s2.time.hour as int, 2);
    }
}

/// Keys of four hours: the key of an instant decodes to the start of its slot, less than
/// four hours before it, and that start has the same key.
proof fn lemma_hour4_key_round_trip(t: i64, s: DateTimeStruct)
    requires
        s.represents(t as int),
        s.year >= 0,
    ensures
        hour4::slot_start(hour4_value(t as int)) matches Some(d) && d.unix_microseconds <= t
            < d.unix_microseconds + 4 * 3_600_000_000 && hour4_value(d.unix_microseconds as int)
            == hour4_value(t as int)
            && d.unix_microseconds % 14_400_000_000 == 0,
{
    lemma_date_time_struct_of(s, t as int);
    lemma_cut(s.time.hour as int, s.time.hour as int, 4);
    let h = s.time.hour / 4 * 4;
    lemma_hour_layout(s.year as int, s.month as int, s.day as int, h);
    let z = key_struct(s.year as int, s.month as int, s.day as int, h, 0);
    assert(hour4_struct(hour_key(s, h)) == z);
    lemma_slot(s, t as int, z);
    lemma_on_grid(z, 14_400_000_000, 6, (s.time.hour / 4) as int);
}

/// Keys of four hours keep the order of time.
proof fn lemma_hour4_key_order(t1: i64, s1: DateTimeStruct, t2: i64, s2: DateTimeStruct)
    requires
        s1.represents(t1 as int),
        s2.represents(t2 as int),
        t1 <= t2,
    ensures
        hour4_value(t1 as int) <= hour4_value(t2 as int),
{
    lemma_date_time_struct_of(s1, t1 as int);
    lemma_date_time_struct_of(s2, t2 as int);
    lemma_fields_order(s1, t1 as int, s2, t2 as int);
    if s1.year == s2.year && s1.month == s2.month && s1.day == s2.day {
        lemma_time_order(s1, s2);
        lemma_cut(s1.time.hour as int, s2.time.hour as int, 4);
    } else {
        lemma_cut(s1.time.hour as int, s1.time.hour as int, 4);
        lemma_cut(s2.time.hour as int, s2.time.hour as int, 4);
    }
}

/// Keys of a minute: the key of an instant decodes to the start of its slot, less than
/// a minute before it, and that start has the same key.
proof fn lemma_minute_key_round_trip(t: i64, s: DateTimeStruct)
    requires
        s.represents(t as int),
        s.year >= 0,
    ensures
        minute::slot_start(minute_value(t as int)) matches Some(d) && d.unix_microseconds <= t
            < d.unix_microseconds + 1 * 60_000_000 && minute_value(d.unix_microseconds as int)
            == minute_value(t as int)
            && d.unix_microseconds % 60_000_000 == 0,
{
    lemma_date_time_struct_of(s, t as int);
    let m = s.time.min as int;
    lemma_minute_layout(s.year as int, s.month as int, s.day as int, s.time.hour as int, m);
    let z = key_struct(s.year as int, s.month as int, s.day as int, s.time.hour as int, m);
    assert(minute_struct(minute_key(s, m)) == z);
    lemma_slot(s, t as int, z);
    lemma_on_grid(z, 60_000_000, 1440, s.time.hour * 60 + m);
}

/// Keys of a minute keep the order of time.
proof fn lemma_minute_key_order(t1: i64, s1: DateTimeStruct, t2: i64, s2: DateTimeStruct)
    requires
        s1.represents(t1 as int),
        s2.represents(t2 as int),
        t1 <= t2,
    ensures
        minute_value(t1 as int) <= minute_value(t2 as int),
{
    lemma_date_time_struct_of(s1, t1 as int);
    lemma_date_time_struct_of(s2, t2 as int);
    lemma_fields_order(s1, t1 as int, s2, t2 as int);
    if s1.year == s2.year && s1.month == s2.month && s1.day == s2.day {
        lemma_time_order(s1, s2);
    }
}

/// Keys of five minutes: the key of an instant decodes to the start of its slot, less than
/// five minutes before it, and that start has the same key.
proof fn lemma_min5_key_round_trip(t: i64, s: DateTimeStruct)
    requires
        s.represents(t as int),
        s.year >= 0,
    ensures
        min5::slot_start(min5_value(t as int)) matches Some(d) && d.unix_microseconds <= t
            < d.unix_microseconds + 5 * 60_000_000 && min5_value(d.unix_microseconds as int)
            == min5_value(t as int)
            && d.unix_microseconds % 300_000_000 == 0,
{
    lemma_date_time_struct_of(s, t as int);
    lemma_cut(s.time.min as int, s.time.min as int, 5);
    let m = s.time.min / 5 * 5;
    lemma_minute_layout(s.year as int, s.month as int, s.day as int, s.time.hour as int, m);
    let z = key_struct(s.year as int, s.month as int, s.day as int, s.time.hour as int, m);
    assert(min5_struct(minute_key(s, m)) == z);
    lemma_slot(s, t as int, z);
    lemma_on_grid(z, 300_000_000, 288, s.time.hour * 12 + s.time.min / 5);
}

/// Keys of five minutes keep the order of time.
proof fn lemma_min5_key_order(t1: i64, s1: DateTimeStruct, t2: i64, s2: DateTimeStruct)
    requires
        s1.represents(t1 as int),
        s2.represents(t2 as int),
        t1 <= t2,
    ensures
        min5_value(t1 as int) <= min5_value(t2 as int),
{
    lemma_date_time_struct_of(s1, t1 as int);
    lemma_date_time_struct_of(s2, t2 as int);
    lemma_fields_order(s1, t1 as int, s2, t2 as int);
    lemma_cut(s1.time.min as int, s1.time.min as int, 5);
    lemma_cut(s2.time.min as int, s2.time.min as int, 5);
    if s1.year == s2.year && s1.month == s2.month && s1.day == s2.day {
        lemma_time_order(s1, s2);
        if s1.time.hour == s2.time.hour {
            lemma_cut(s1.time.min as int, s2.time.min as int, 5);
        }
    }
}

/// Keys of fifteen minutes: the key of an instant decodes to the start of its slot, less than
/// fifteen minutes before it, and that start has the same key.
proof fn lemma_min15_key_round_trip(t: i64, s: DateTimeStruct)
    requires
        s.represents(t as int),
        s.year >= 0,
    ensures
        min15::slot_start(min15_value(t as int)) matches Some(d) && d.unix_microseconds <= t
            < d.unix_microseconds + 15 * 60_000_000 && min15_value(d.unix_microseconds as int)
            == min15_value(t as int)
            && d.unix_microseconds % 900_000_000 == 0,
{
    lemma_date_time_struct_of(s, t as int);
    lemma_cut(s.time.min as int, s.time.min as int, 15);
    let m = s.time.min / 15 * 15;
    lemma_minute_layout(s.year as int, s.month as int, s.day as int, s.time.hour as int, m);
    let z = key_struct(s.year as int, s.month as int, s.day as int, s.time.hour as int, m);
    assert(min15_struct(minute_key(s, m)) == z);
    lemma_slot(s, t as int, z);
    lemma_on_grid(z, 900_000_000, 96, s.time.hour * 4 + s.time.min / 15);
}

/// Keys of fifteen minutes keep the order of time.
proof fn lemma_min15_key_order(t1: i64, s1: DateTimeStruct, t2: i64, s2: DateTimeStruct)
    requires
        s1.represents(t1 as int),
        s2.represents(t2 as int),
        t1 <= t2,
    ensures
        min15_value(t1 as int) <= min15_value(t2 as int),
{
    lemma_date_time_struct_of(s1, t1 as int);
    lemma_date_time_struct_of(s2, t2 as int);
    lemma_fields_order(s1, t1 as int, s2, t2 as int);
    lemma_cut(s1.time.min as int, s1.time.min as int, 15);
    lemma_cut(s2.time.min as int, s2.time.min as int, 15);
    if s1.year == s2.year && s1.month == s2.month && s1.day == s2.day {
        lemma_time_order(s1, s2);
        if s1.time.hour == s2.time.hour {
            lemma_cut(s1.time.min as int, s2.time.min as int, 15);
        }
    }
}

/// Keys of thirty minutes: the key of an instant decodes to the start of its slot, less than
/// thirty minutes before it, and that start has the same key.
proof fn lemma_min30_key_round_trip(t: i64, s: DateTimeStruct)
    requires
        s.represents(t as int),
        s.year >= 0,
    ensures
        min30::slot_start(min30_value(t as int)) matches Some(d) && d.unix_microseconds <= t
            < d.unix_microseconds + 30 * 60_000_000 && min30_value(d.unix_microseconds as int)
            == min30_value(t as int)
            && d.unix_microseconds % 1_800_000_000 == 0,
{
    lemma_date_time_struct_of(s, t as int);
    lemma_cut(s.time.min as int, s.time.min as int, 30);
    let m = s.time.min / 30 * 30;
    lemma_minute_layout(s.year as int, s.month as int, s.day as int, s.time.hour as int, m);
    let z = key_struct(s.year as int, s.month as int, s.day as int, s.time.hour as int, m);
    assert(min30_struct(minute_key(s, m)) == z);
    lemma_slot(s, t as int, z);
    lemma_on_grid(z, 1_800_000_000, 48, s.time.hour * 2 + s.time.min / 30);
}

/// Keys of thirty minutes keep the order of time.
proof fn lemma_min30_key_order(t1: i64, s1: DateTimeStruct, t2: i64, s2: DateTimeStruct)
    requires
        s1.represents(t1 as int),
        s2.represents(t2 as int),
        t1 <= t2,
    ensures
        min30_value(t1 as int) <= min30_value(t2 as int),
{
    lemma_date_time_struct_of(s1, t1 as int);
    lemma_date_time_struct_of(s2, t2 as int);
    lemma_fields_order(s1, t1 as int, s2, t2 as int);
    lemma_cut(s1.time.min as int, s1.time.min as int, 30);
    lemma_cut(s2.time.min as int, s2.time.min as int, 30);
    if s1.year == s2.year && s1.month == s2.month && s1.day == s2.day {
        lemma_time_order(s1, s2);
        if s1.time.hour == s2.time.hour {
            lemma_cut(s1.time.min as int, s2.time.min as int, 30);
        }
    }
}

/// The fields of 00:00 of the day `n` days before the day of `s`.
proof fn lemma_midnight_days_back(s: DateTimeStruct, n: nat) -> (w: DateTimeStruct)
    requires
        s.is_valid(),
        year_in_range(s.year as int),
        n <= 7,
    ensures
        w.represents((s.day_number() - n) * 86_400_000_000),
        w.day_number() == s.day_number() - n,
{
    let r = lemma_days_back(s.year as int, s.month as int, s.day as int, n);
    let dn = s.day_number() - n;
    let w = DateTimeStruct {
        year: r.0 as i32,
        month: r.1 as u32,
        day: r.2 as u32,
        time: TimeStruct { hour: 0, min: 0, sec: 0, micros: 0 },
        dow: Some(day_of_week_from_monday(weekday_from_days(dn))),
    };
    assert(w.day_number() == dn);
    w
}

/// The week of an instant starts at most six days before its day.
proof fn lemma_week_start_days(t: int)
    ensures
        day_number_of(t) - 6 <= monday_week_start(t) <= day_number_of(t),
        day_number_of(t) - 6 <= sunday_week_start(t) <= day_number_of(t),
        weekday_from_days(monday_week_start(t)) == 0,
        weekday_from_days(sunday_week_start(t)) == 6,
        monday_week_start(t) * 86_400_000_000 <= t < monday_week_start(t) * 86_400_000_000 + 7
            * 86_400_000_000,
        sunday_week_start(t) * 86_400_000_000 <= t < sunday_week_start(t) * 86_400_000_000 + 7
            * 86_400_000_000,
{
    let dn = day_number_of(t);
    lemma_fundamental_div_mod(t, 86_400_000_000);
    lemma_fundamental_div_mod(dn + 3, 7);
    let w = (dn + 3) % 7;
    lemma_fundamental_div_mod_converse(dn - w + 3, 7, (dn + 3) / 7, 0);
    let u = (w + 1) % 7;
    if w == 6 {
        lemma_fundamental_div_mod_converse(dn - u + 3, 7, (dn + 3) / 7, 6);
    } else {
        lemma_fundamental_div_mod_converse(dn - u + 3, 7, (dn + 3) / 7 - 1, 6);
    }
}

/// Day numbers of week starts keep the order of time.
proof fn lemma_week_start_order(t1: int, t2: int)
    requires
        t1 <= t2,
    ensures
        monday_week_start(t1) <= monday_week_start(t2),
        sunday_week_start(t1) <= sunday_week_start(t2),
{
    lemma_week_start_days(t1);
    lemma_week_start_days(t2);
    lemma_div_is_ordered(t1, t2, 86_400_000_000);
    let d1 = day_number_of(t1);
    let d2 = day_number_of(t2);
    lemma_div_is_ordered(d1 + 3, d2 + 3, 7);
    lemma_fundamental_div_mod(d1 + 3, 7);
    lemma_fundamental_div_mod(d2 + 3, 7);
    lemma_div_is_ordered(d1 + 4, d2 + 4, 7);
    lemma_fundamental_div_mod(d1 + 4, 7);
    lemma_fundamental_div_mod(d2 + 4, 7);
    assert(monday_week_start(t1) <= monday_week_start(t2)) by (nonlinear_arith)
        requires
            monday_week_start(t1) == d1 - (d1 + 3) % 7,
            monday_week_start(t2) == d2 - (d2 + 3) % 7,
            d1 + 3 == 7 * ((d1 + 3) / 7) + (d1 + 3) % 7,
            d2 + 3 == 7 * ((d2 + 3) / 7) + (d2 + 3) % 7,
            (d1 + 3) / 7 <= (d2 + 3) / 7,
    ;
    assert(sunday_week_start(t1) <= sunday_week_start(t2)) by (nonlinear_arith)
        requires
            sunday_week_start(t1) == d1 - ((d1 + 3) % 7 + 1) % 7,
            sunday_week_start(t2) == d2 - ((d2 + 3) % 7 + 1) % 7,
            ((d1 + 3) % 7 + 1) % 7 == (d1 + 4) % 7,
            ((d2 + 3) % 7 + 1) % 7 == (d2 + 4) % 7,
            d1 + 4 == 7 * ((d1 + 4) / 7) + (d1 + 4) % 7,
            d2 + 4 == 7 * ((d2 + 4) / 7) + (d2 + 4) % 7,
            (d1 + 4) / 7 <= (d2 + 4) / 7,
    ;
}

/// Keys of weeks that start on Monday: the key of an instant decodes to 00:00 of the Monday that
/// starts its week, less than a week before it, and that start has the same key.
#[verifier::spinoff_prover]
#[verifier::rlimit(40)]
proof fn lemma_week_monday_key_round_trip(t: i64, s: DateTimeStruct)
    requires
        s.represents(t as int),
        has_week_monday_key(t as int),
    ensures
        week_monday::slot_start(week_monday_value(t as int)) matches Some(d) && d.unix_microseconds
            <= t < d.unix_microseconds + 7 * 86_400_000_000 && week_monday_value(
            d.unix_microseconds as int,
        ) == week_monday_value(t as int) && has_week_monday_key(d.unix_microseconds as int),
        week_monday::decodable(week_monday_value(t as int)),
{
    let ws = monday_week_start(t as int);
    lemma_week_start_days(t as int);
    lemma_day_number_of(s, t as int);
    lemma_year_in_range_of(s);
    let w = lemma_midnight_days_back(s, (day_number_of(t as int) - ws) as nat);
    lemma_date_time_struct_of(w, ws * 86_400_000_000);
    lemma_year_not_negative(w);
    lemma_day_start_decodes(w);
    lemma_fundamental_div_mod_converse(ws * 86_400_000_000, 86_400_000_000, ws, 0);
    lemma_week_start_days(ws * 86_400_000_000);
}

/// Keys of weeks that start on Monday keep the order of time.
#[verifier::spinoff_prover]
#[verifier::rlimit(40)]
proof fn lemma_week_monday_key_order(t1: i64, s1: DateTimeStruct, t2: i64, s2: DateTimeStruct)
    requires
        s1.represents(t1 as int),
        s2.represents(t2 as int),
        has_week_monday_key(t1 as int),
        t1 <= t2,
    ensures
        week_monday_value(t1 as int) <= week_monday_value(t2 as int),
{
    let ws1 = monday_week_start(t1 as int);
    let ws2 = monday_week_start(t2 as int);
    lemma_week_start_days(t1 as int);
    lemma_week_start_days(t2 as int);
    lemma_week_start_order(t1 as int, t2 as int);
    lemma_day_number_of(s1, t1 as int);
    lemma_day_number_of(s2, t2 as int);
    lemma_year_in_range_of(s1);
    lemma_year_in_range_of(s2);
    let w1 = lemma_midnight_days_back(s1, (day_number_of(t1 as int) - ws1) as nat);
    let w2 = lemma_midnight_days_back(s2, (day_number_of(t2 as int) - ws2) as nat);
    lemma_date_time_struct_of(w1, ws1 * 86_400_000_000);
    lemma_date_time_struct_of(w2, ws2 * 86_400_000_000);
    lemma_fields_order(w1, ws1 * 86_400_000_000, w2, ws2 * 86_400_000_000);
}

/// Keys of weeks that start on Sunday: the key of an instant decodes to 00:00 of the Sunday that
/// starts its week, less than a week before it, and that start has the same key.
#[verifier::spinoff_prover]
#[verifier::rlimit(40)]
proof fn lemma_week_sunday_key_round_trip(t: i64, s: DateTimeStruct)
    requires
        s.represents(t as int),
        has_week_sunday_key(t as int),
    ensures
        week_sunday::slot_start(week_sunday_value(t as int)) matches Some(d) && d.unix_microseconds
            <= t < d.unix_microseconds + 7 * 86_400_000_000 && week_sunday_value(
            d.unix_microseconds as int,
        ) == week_sunday_value(t as int) && has_week_sunday_key(d.unix_microseconds as int),
        week_sunday::decodable(week_sunday_value(t as int)),
{
    let ws = sunday_week_start(t as int);
    lemma_week_start_days(t as int);
    lemma_day_number_of(s, t as int);
    lemma_year_in_range_of(s);
    let w = lemma_midnight_days_back(s, (day_number_of(t as int) - ws) as nat);
    lemma_date_time_struct_of(w, ws * 86_400_000_000);
    lemma_year_not_negative(w);
    lemma_day_start_decodes(w);
    lemma_fundamental_div_mod_converse(ws * 86_400_000_000, 86_400_000_000, ws, 0);
    lemma_week_start_days(ws * 86_400_000_000);
}

/// Keys of weeks that start on Sunday keep the order of time.
#[verifier::spinoff_prover]
#[verifier::rlimit(40)]
proof fn lemma_week_sunday_key_order(t1: i64, s1: DateTimeStruct, t2: i64, s2: DateTimeStruct)
    requires
        s1.represents(t1 as int),
        s2.represents(t2 as int),
        has_week_sunday_key(t1 as int),
        t1 <= t2,
    ensures
        week_sunday_value(t1 as int) <= week_sunday_value(t2 as int),
{
    let ws1 = sunday_week_start(t1 as int);
    let ws2 = sunday_week_start(t2 as int);
    lemma_week_start_days(t1 as int);
    lemma_week_start_days(t2 as int);
    lemma_week_start_order(t1 as int, t2 as int);
    lemma_day_number_of(s1, t1 as int);
    lemma_day_number_of(s2, t2 as int);
    lemma_year_in_range_of(s1);
    lemma_year_in_range_of(s2);
    let w1 = lemma_midnight_days_back(s1, (day_number_of(t1 as int) - ws1) as nat);
    let w2 = lemma_midnight_days_back(s2, (day_number_of(t2 as int) - ws2) as nat);
    lemma_date_time_struct_of(w1, ws1 * 86_400_000_000);
    lemma_date_time_struct_of(w2, ws2 * 86_400_000_000);
    lemma_fields_order(w1, ws1 * 86_400_000_000, w2, ws2 * 86_400_000_000);
}

/// Keys of years: the key of an instant decodes to January 1st, 00:00, of its year, which
/// has the same key.
pub proof fn law_year_key_round_trip(t: i64)
    requires
        date_time_struct_of(t as int).year >= 0,
    ensures
        year::slot_start(year_value(t as int)) matches Some(d) && d.unix_microseconds <= t
            && year_value(d.unix_microseconds as int) == year_value(t as int),
{
    lemma_struct_of_represents(t as int);
    lemma_year_key_round_trip(t, date_time_struct_of(t as int));
}

/// Keys of years keep the order of time.
pub proof fn law_year_key_order(t1: i64, t2: i64)
    requires
        t1 <= t2,
    ensures
        year_value(t1 as int) <= year_value(t2 as int),
{
    lemma_struct_of_represents(t1 as int);
    lemma_struct_of_represents(t2 as int);
    lemma_year_key_order(t1, date_time_struct_of(t1 as int), t2, date_time_struct_of(t2 as int));
}

/// Keys of months: the key of an instant decodes to the first day, 00:00, of its month,
/// which has the same key.
pub proof fn law_month_key_round_trip(t: i64)
    requires
        date_time_struct_of(t as int).year >= 0,
    ensures
        month::slot_start(month_value(t as int)) matches Some(d) && d.unix_microseconds <= t
            && month_value(d.unix_microseconds as int) == month_value(t as int),
{
    lemma_struct_of_represents(t as int);
    lemma_month_key_round_trip(t, date_time_struct_of(t as int));
}

/// Keys of months keep the order of time.
pub proof fn law_month_key_order(t1: i64, t2: i64)
    requires
        t1 <= t2,
    ensures
        month_value(t1 as int) <= month_value(t2 as int),
{
    lemma_struct_of_represents(t1 as int);
    lemma_struct_of_represents(t2 as int);
    lemma_month_key_order(t1, date_time_struct_of(t1 as int), t2, date_time_struct_of(t2 as int));
}

/// Keys of days: the key of an instant decodes to 00:00 of its day, which has the same key.
pub proof fn law_day_key_round_trip(t: i64)
    requires
        date_time_struct_of(t as int).year >= 0,
    ensures
        day::slot_start(day_value(t as int)) matches Some(d) && d.unix_microseconds <= t < d.unix_microseconds
            + 86_400_000_000 && day_value(d.unix_microseconds as int) == day_value(t as int)
            && d.unix_microseconds % 86_400_000_000 == 0,
{
    lemma_struct_of_represents(t as int);
    lemma_day_key_round_trip(t, date_time_struct_of(t as int));
}

/// Keys of days keep the order of time.
pub proof fn law_day_key_order(t1: i64, t2: i64)
    requires
        t1 <= t2,
    ensures
        day_value(t1 as int) <= day_value(t2 as int),
{
    lemma_struct_of_represents(t1 as int);
    lemma_struct_of_represents(t2 as int);
    lemma_day_key_order(t1, date_time_struct_of(t1 as int), t2, date_time_struct_of(t2 as int));
}

/// Keys of an hour: the key of an instant decodes to the start of its slot, less than
/// an hour before it, and that start has the same key.
pub proof fn law_hour_key_round_trip(t: i64)
    requires
        date_time_struct_of(t as int).year >= 0,
    ensures
        hour::slot_start(hour_value(t as int)) matches Some(d) && d.unix_microseconds <= t
            < d.unix_microseconds + 1 * 3_600_000_000 && hour_value(d.unix_microseconds as int)
            == hour_value(t as int)
            && d.unix_microseconds % 3_600_000_000 == 0,
{
    lemma_struct_of_represents(t as int);
    lemma_hour_key_round_trip(t, date_time_struct_of(t as int));
}

/// Keys of an hour keep the order of time.
pub proof fn law_hour_key_order(t1: i64, t2: i64)
    requires
        t1 <= t2,
    ensures
        hour_value(t1 as int) <= hour_value(t2 as int),
{
    lemma_struct_of_represents(t1 as int);
    lemma_struct_of_represents(t2 as int);
    lemma_hour_key_order(t1, date_time_struct_of(t1 as int), t2, date_time_struct_of(t2 as int));
}

/// Keys of two hours: the key of an instant decodes to the start of its slot, less than
/// two hours before it, and that start has the same key.
pub proof fn law_hour2_key_round_trip(t: i64)
    requires
        date_time_struct_of(t as int).year >= 0,
    ensures
        hour2::slot_start(hour2_value(t as int)) matches Some(d) && d.unix_microseconds <= t
            < d.unix_microseconds + 2 * 3_600_000_000 && hour2_value(d.unix_microseconds as int)
            == hour2_value(t as int)
            && d.unix_microseconds % 7_200_000_000 == 0,
{
    lemma_struct_of_represents(t as int);
    lemma_hour2_key_round_trip(t, date_time_struct_of(t as int));
}

/// Keys of two hours keep the order of time.
pub proof fn law_hour2_key_order(t1: i64, t2: i64)
    requires
        t1 <= t2,
    ensures
        hour2_value(t1 as int) <= hour2_value(t2 as int),
{
    lemma_struct_of_represents(t1 as int);
    lemma_struct_of_represents(t2 as int);
    lemma_hour2_key_order(t1, date_time_struct_of(t1 as int), t2, date_time_struct_of(t2 as int));
}

/// Keys of four hours: the key of an instant decodes to the start of its slot, less than
/// four hours before it, and that start has the same key.
pub proof fn law_hour4_key_round_trip(t: i64)
    requires
        date_time_struct_of(t as int).year >= 0,
    ensures
        hour4::slot_start(hour4_value(t as int)) matches Some(d) && d.unix_microseconds <= t
            < d.unix_microseconds + 4 * 3_600_000_000 && hour4_value(d.unix_microseconds as int)
            == hour4_value(t as int)
            && d.unix_microseconds % 14_400_000_000 == 0,
{
    lemma_struct_of_represents(t as int);
    lemma_hour4_key_round_trip(t, date_time_struct_of(t as int));
}

/// Keys of four hours keep the order of time.
pub proof fn law_hour4_key_order(t1: i64, t2: i64)
    requires
        t1 <= t2,
    ensures
        hour4_value(t1 as int) <= hour4_value(t2 as int),
{
    lemma_struct_of_represents(t1 as int);
    lemma_struct_of_represents(t2 as int);
    lemma_hour4_key_order(t1, date_time_struct_of(t1 as int), t2, date_time_struct_of(t2 as int));
}

/// Keys of a minute: the key of an instant decodes to the start of its slot, less than
/// a minute before it, and that start has the same key.
pub proof fn law_minute_key_round_trip(t: i64)
    requires
        date_time_struct_of(t as int).year >= 0,
    ensures
        minute::slot_start(minute_value(t as int)) matches Some(d) && d.unix_microseconds <= t
            < d.unix_microseconds + 1 * 60_000_000 && minute_value(d.unix_microseconds as int)
            == minute_value(t as int)
            && d.unix_microseconds % 60_000_000 == 0,
{
    lemma_struct_of_represents(t as int);
    lemma_minute_key_round_trip(t, date_time_struct_of(t as int));
}

/// Keys of a minute keep the order of time.
pub proof fn law_minute_key_order(t1: i64, t2: i64)
    requires
        t1 <= t2,
    ensures
        minute_value(t1 as int) <= minute_value(t2 as int),
{
    lemma_struct_of_represents(t1 as int);
    lemma_struct_of_represents(t2 as int);
    lemma_minute_key_order(t1, date_time_struct_of(t1 as int), t2, date_time_struct_of(t2 as int));
}

/// Keys of five minutes: the key of an instant decodes to the start of its slot, less than
/// five minutes before it, and that start has the same key.
pub proof fn law_min5_key_round_trip(t: i64)
    requires
        date_time_struct_of(t as int).year >= 0,
    ensures
        min5::slot_start(min5_value(t as int)) matches Some(d) && d.unix_microseconds <= t
            < d.unix_microseconds + 5 * 60_000_000 && min5_value(d.unix_microseconds as int)
            == min5_value(t as int)
            && d.unix_microseconds % 300_000_000 == 0,
{
    lemma_struct_of_represents(t as int);
    lemma_min5_key_round_trip(t, date_time_struct_of(t as int));
}

/// Keys of five minutes keep the order of time.
pub proof fn law_min5_key_order(t1: i64, t2: i64)
    requires
        t1 <= t2,
    ensures
        min5_value(t1 as int) <= min5_value(t2 as int),
{
    lemma_struct_of_represents(t1 as int);
    lemma_struct_of_represents(t2 as int);
    lemma_min5_key_order(t1, date_time_struct_of(t1 as int), t2, date_time_struct_of(t2 as int));
}

/// Keys of fifteen minutes: the key of an instant decodes to the start of its slot, less than
/// fifteen minutes before it, and that start has the same key.
pub proof fn law_min15_key_round_trip(t: i64)
    requires
        date_time_struct_of(t as int).year >= 0,
    ensures
        min15::slot_start(min15_value(t as int)) matches Some(d) && d.unix_microseconds <= t
            < d.unix_microseconds + 15 * 60_000_000 && min15_value(d.unix_microseconds as int)
            == min15_value(t as int)
            && d.unix_microseconds % 900_000_000 == 0,
{
    lemma_struct_of_represents(t as int);
    lemma_min15_key_round_trip(t, date_time_struct_of(t as int));
}

/// Keys of fifteen minutes keep the order of time.
pub proof fn law_min15_key_order(t1: i64, t2: i64)
    requires
        t1 <= t2,
    ensures
        min15_value(t1 as int) <= min15_value(t2 as int),
{
    lemma_struct_of_represents(t1 as int);
    lemma_struct_of_represents(t2 as int);
    lemma_min15_key_order(t1, date_time_struct_of(t1 as int), t2, date_time_struct_of(t2 as int));
}

/// Keys of thirty minutes: the key of an instant decodes to the start of its slot, less than
/// thirty minutes before it, and that start has the same key.
pub proof fn law_min30_key_round_trip(t: i64)
    requires
        date_time_struct_of(t as int).year >= 0,
    ensures
        min30::slot_start(min30_value(t as int)) matches Some(d) && d.unix_microseconds <= t
            < d.unix_microseconds + 30 * 60_000_000 && min30_value(d.unix_microseconds as int)
            == min30_value(t as int)
            && d.unix_microseconds % 1_800_000_000 == 0,
{
    lemma_struct_of_represents(t as int);
    lemma_min30_key_round_trip(t, date_time_struct_of(t as int));
}

/// Keys of thirty minutes keep the order of time.
pub proof fn law_min30_key_order(t1: i64, t2: i64)
    requires
        t1 <= t2,
    ensures
        min30_value(t1 as int) <= min30_value(t2 as int),
{
    lemma_struct_of_represents(t1 as int);
    lemma_struct_of_represents(t2 as int);
    lemma_min30_key_order(t1, date_time_struct_of(t1 as int), t2, date_time_struct_of(t2 as int));
}

/// Keys of weeks that start on Monday: the key of an instant decodes to 00:00 of the Monday that
/// starts its week, less than a week before it, and that start has the same key.
pub proof fn law_week_monday_key_round_trip(t: i64)
    requires
        has_week_monday_key(t as int),
    ensures
        week_monday::slot_start(week_monday_value(t as int)) matches Some(d) && d.unix_microseconds
            <= t < d.unix_microseconds + 7 * 86_400_000_000 && week_monday_value(
            d.unix_microseconds as int,
        ) == week_monday_value(t as int) && has_week_monday_key(d.unix_microseconds as int)
            && (d.unix_microseconds - 4 * 86_400_000_000int) % (7 * 86_400_000_000int) == 0,
        week_monday::decodable(week_monday_value(t as int)),
{
    lemma_struct_of_represents(t as int);
    lemma_week_monday_key_round_trip(t, date_time_struct_of(t as int));
    let x = instant_of(day_struct(week_monday_value(t as int)))->0.unix_microseconds as int;
    lemma_week_start_days(x);
    lemma_week_grid(monday_week_start(x), 0);
}

/// Keys of weeks that start on Monday keep the order of time.
pub proof fn law_week_monday_key_order(t1: i64, t2: i64)
    requires
        has_week_monday_key(t1 as int),
        t1 <= t2,
    ensures
        week_monday_value(t1 as int) <= week_monday_value(t2 as int),
{
    lemma_struct_of_represents(t1 as int);
    lemma_struct_of_represents(t2 as int);
    lemma_week_monday_key_order(t1, date_time_struct_of(t1 as int), t2, date_time_struct_of(t2 as int));
}

/// Keys of weeks that start on Sunday: the key of an instant decodes to 00:00 of the Sunday that
/// starts its week, less than a week before it, and that start has the same key.
pub proof fn law_week_sunday_key_round_trip(t: i64)
    requires
        has_week_sunday_key(t as int),
    ensures
        week_sunday::slot_start(week_sunday_value(t as int)) matches Some(d) && d.unix_microseconds
            <= t < d.unix_microseconds + 7 * 86_400_000_000 && week_sunday_value(
            d.unix_microseconds as int,
        ) == week_sunday_value(t as int) && has_week_sunday_key(d.unix_microseconds as int)
            && (d.unix_microseconds - 3 * 86_400_000_000int) % (7 * 86_400_000_000int) == 0,
        week_sunday::decodable(week_sunday_value(t as int)),
{
    lemma_struct_of_represents(t as int);
    lemma_week_sunday_key_round_trip(t, date_time_struct_of(t as int));
    let x = instant_of(day_struct(week_sunday_value(t as int)))->0.unix_microseconds as int;
    lemma_week_start_days(x);
    lemma_week_grid(sunday_week_start(x), 6);
}

/// Keys of weeks that start on Sunday keep the order of time.
pub proof fn law_week_sunday_key_order(t1: i64, t2: i64)
    requires
        has_week_sunday_key(t1 as int),
        t1 <= t2,
    ensures
        week_sunday_value(t1 as int) <= week_sunday_value(t2 as int),
{
    lemma_struct_of_represents(t1 as int);
    lemma_struct_of_represents(t2 as int);
    lemma_week_sunday_key_order(t1, date_time_struct_of(t1 as int), t2, date_time_struct_of(t2 as int));
}

} // verus!
