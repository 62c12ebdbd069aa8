//! A date and a time of day split into calendar fields, in UTC.
use super::calendar::{
    lemma_date_of_day, lemma_year_of_days,
    civil_from_days, days_from_civil, days_from_civil_exec, days_in_month_exec, days_in_range,
    floor_div, is_valid_date, lemma_civil_unique, lemma_day_of_year_in_range, lemma_next_year,
    lemma_years_span, weekday_from_days, year_in_range,
};
use vstd::prelude::*;

verus! {

pub const MICRO_SECONDS_IN_ONE_SECOND: i64 = 1_000_000;

pub const MICRO_SECONDS_IN_ONE_MINUTE: i64 = 60_000_000;

pub const MICRO_SECONDS_IN_ONE_HOUR: i64 = 3_600_000_000;

pub const MICRO_SECONDS_IN_ONE_DAY: i64 = 86_400_000_000;

/// A day of the week.
#[derive(Clone, Copy, Debug, PartialEq, Eq, Structural)]
pub enum DayOfWeek {
    Mon,
    Tue,
    Wed,
    Thu,
    Fri,
    Sat,
    Sun,
}

pub open spec fn day_of_week_from_monday(n: int) -> DayOfWeek {
    if n == 0 {
        DayOfWeek::Mon
    } else if n == 1 {
        DayOfWeek::Tue
    } else if n == 2 {
        DayOfWeek::Wed
    } else if n == 3 {
        DayOfWeek::Thu
    } else if n == 4 {
        DayOfWeek::Fri
    } else if n == 5 {
        DayOfWeek::Sat
    } else {
        DayOfWeek::Sun
    }
}

impl DayOfWeek {
    pub open spec fn days_from_monday(self) -> int {
        match self {
            DayOfWeek::Mon => 0,
            DayOfWeek::Tue => 1,
            DayOfWeek::Wed => 2,
            DayOfWeek::Thu => 3,
            DayOfWeek::Fri => 4,
            DayOfWeek::Sat => 5,
            DayOfWeek::Sun => 6,
        }
    }

    /// Days that passed since the Monday which starts the week (0..=6).
    pub fn num_days_from_monday(&self) -> (r: u32)
        ensures
            r == self.days_from_monday(),
    {
        match self {
            DayOfWeek::Mon => 0,
            DayOfWeek::Tue => 1,
            DayOfWeek::Wed => 2,
            DayOfWeek::Thu => 3,
            DayOfWeek::Fri => 4,
            DayOfWeek::Sat => 5,
            DayOfWeek::Sun => 6,
        }
    }

    /// Days that passed since the Sunday which starts the week (0..=6).
    pub fn num_days_from_sunday(&self) -> (r: u32)
        ensures
            r == (self.days_from_monday() + 1) % 7,
    {
        match self {
            DayOfWeek::Mon => 1,
            DayOfWeek::Tue => 2,
            DayOfWeek::Wed => 3,
            DayOfWeek::Thu => 4,
            DayOfWeek::Fri => 5,
            DayOfWeek::Sat => 6,
            DayOfWeek::Sun => 0,
        }
    }

    fn from_monday(n: i64) -> (r: DayOfWeek)
        requires
            0 <= n < 7,
        ensures
            r == day_of_week_from_monday(n as int),
            r.days_from_monday() == n,
    {
        if n == 0 {
            DayOfWeek::Mon
        } else if n == 1 {
            DayOfWeek::Tue
        } else if n == 2 {
            DayOfWeek::Wed
        } else if n == 3 {
            DayOfWeek::Thu
        } else if n == 4 {
            DayOfWeek::Fri
        } else if n == 5 {
            DayOfWeek::Sat
        } else {
            DayOfWeek::Sun
        }
    }
}

#[derive(Clone, Copy, Debug, PartialEq, Eq, Structural)]
pub struct TimeStruct {
    pub hour: u32,
    pub min: u32,
    pub sec: u32,
    pub micros: u32,
}

impl TimeStruct {
    pub open spec fn is_valid(self) -> bool {
        self.hour < 24 && self.min < 60 && self.sec < 60 && self.micros < 1_000_000
    }

    /// Microseconds since midnight.
    pub open spec fn micros_of_day(self) -> int {
        self.hour * 3_600_000_000 + self.min * 60_000_000 + self.sec * 1_000_000 + self.micros
    }
}

#[derive(Clone, Copy, Debug, PartialEq, Eq, Structural)]
pub struct DateTimeStruct {
    pub year: i32,
    pub month: u32,
    pub day: u32,
    pub time: TimeStruct,
    pub dow: Option<DayOfWeek>,
}

/// The day number of a point in time given in microseconds since the unix epoch.
pub open spec fn day_number_of(unix_microseconds: int) -> int {
    unix_microseconds / 86_400_000_000
}

impl DateTimeStruct {
    pub open spec fn is_valid(self) -> bool {
        is_valid_date(self.year as int, self.month as int, self.day as int) && self.time.is_valid()
    }

    /// The day number of the date (0 is 1970-01-01).
    pub open spec fn day_number(self) -> int {
        days_from_civil(self.year as int, self.month as int, self.day as int)
    }

    /// Microseconds since the unix epoch that the fields name.
    pub open spec fn unix_micros(self) -> int {
        self.day_number() * 86_400_000_000 + self.time.micros_of_day()
    }

    /// The fields describe the instant `unix_microseconds`, with the weekday filled in.
    pub open spec fn represents(self, unix_microseconds: int) -> bool {
        &&& self.is_valid()
        &&& self.unix_micros() == unix_microseconds
        &&& self.dow == Some(day_of_week_from_monday(weekday_from_days(self.day_number())))
    }

    /// The same calendar fields, the weekday aside.
    pub open spec fn same_fields(self, other: DateTimeStruct) -> bool {
        self.year == other.year && self.month == other.month && self.day == other.day
            && self.time == other.time
    }
}

/// The calendar fields of the instant `unix_microseconds` (in UTC).
pub open spec fn date_time_struct_of(unix_microseconds: int) -> DateTimeStruct {
    choose|s: DateTimeStruct| s.represents(unix_microseconds)
}

/// Two valid structs that name the same instant have the same fields.
#[verifier::spinoff_prover]
pub proof fn lemma_represents_unique(a: DateTimeStruct, b: DateTimeStruct)
    requires
        a.is_valid(),
        b.is_valid(),
        a.unix_micros() == b.unix_micros(),
    ensures
        a.same_fields(b),
        a.day_number() == b.day_number(),
{
    let da = a.day_number();
    let db = b.day_number();
    assert(0 <= a.time.micros_of_day() < 86_400_000_000);
    assert(0 <= b.time.micros_of_day() < 86_400_000_000);
    assert(da == db) by (nonlinear_arith)
        requires
            da * 86_400_000_000 + a.time.micros_of_day() == db * 86_400_000_000
                + b.time.micros_of_day(),
            0 <= a.time.micros_of_day() < 86_400_000_000,
            0 <= b.time.micros_of_day() < 86_400_000_000,
    ;
    lemma_civil_unique(
        a.year as int,
        a.month as int,
        a.day as int,
        b.year as int,
        b.month as int,
        b.day as int,
    );
}

/// `date_time_struct_of` names the one struct that represents the instant, whenever one does.
pub proof fn lemma_date_time_struct_of(s: DateTimeStruct, unix_microseconds: int)
    requires
        s.represents(unix_microseconds),
    ensures
        date_time_struct_of(unix_microseconds) == s,
{
    let c = date_time_struct_of(unix_microseconds);
    assert(c.represents(unix_microseconds));
    lemma_represents_unique(s, c);
}

impl DateTimeStruct {
    /// Splits an instant given in microseconds since the unix epoch into calendar fields.
    pub fn from_unix_microseconds(unix_microseconds: i64) -> (r: DateTimeStruct)
        ensures
            r.represents(unix_microseconds as int),
            r == date_time_struct_of(unix_microseconds as int),
            year_in_range(r.year as int),
    {
        let days = floor_div(unix_microseconds, MICRO_SECONDS_IN_ONE_DAY);
        let rest = (unix_microseconds as i128 - days as i128 * 86_400_000_000i128) as i64;
        assert(0 <= rest < 86_400_000_000) by (nonlinear_arith)
            requires
                days == unix_microseconds as int / 86_400_000_000,
                rest == unix_microseconds - days * 86_400_000_000,
        ;
        assert(days_in_range(days as int)) by (nonlinear_arith)
            requires
                days == unix_microseconds as int / 86_400_000_000,
                i64::MIN <= unix_microseconds <= i64::MAX,
        ;
        let (year, month, day) = civil_from_days(days);
        let hour = (rest / MICRO_SECONDS_IN_ONE_HOUR) as u32;
        let min = ((rest % MICRO_SECONDS_IN_ONE_HOUR) / MICRO_SECONDS_IN_ONE_MINUTE) as u32;
        let sec = ((rest % MICRO_SECONDS_IN_ONE_MINUTE) / MICRO_SECONDS_IN_ONE_SECOND) as u32;
        let micros = (rest % MICRO_SECONDS_IN_ONE_SECOND) as u32;
        let weekday = DayOfWeek::from_monday(floor_mod7(days + 3));
        let result = DateTimeStruct {
            year: year as i32,
            month,
            day,
            time: TimeStruct { hour, min, sec, micros },
            dow: Some(weekday),
        };
        assert(result.time.micros_of_day() == rest) by (nonlinear_arith)
            requires
                0 <= rest < 86_400_000_000,
                hour == rest / 3_600_000_000,
                min == (rest % 3_600_000_000) / 60_000_000,
                sec == (rest % 60_000_000) / 1_000_000,
                micros == rest % 1_000_000,
                result.time == (TimeStruct { hour, min, sec, micros }),
        ;
        proof {
            lemma_date_time_struct_of(result, unix_microseconds as int);
        }
        result
    }

    /// The instant the fields name, in microseconds since the unix epoch; `None` when the
    /// fields are no valid date and time, or the instant does not fit into an `i64`.
    pub fn to_unix_microseconds(&self) -> (r: Option<i64>)
        ensures
            r == (if self.is_valid() && i64::MIN <= self.unix_micros() <= i64::MAX {
                Some(self.unix_micros() as i64)
            } else {
                None::<i64>
            }),
    {
        if !self.is_valid_exec() {
            return None;
        }
        if self.year < -1_000_000 || self.year > 1_000_000 {
            proof {
                lemma_year_bound(*self);
            }
            return None;
        }
        let days = days_from_civil_exec(self.year as i64, self.month, self.day);
        let total = days as i128 * 86_400_000_000i128 + self.time.hour as i128 * 3_600_000_000i128
            + self.time.min as i128 * 60_000_000i128 + self.time.sec as i128 * 1_000_000i128
            + self.time.micros as i128;
        if total < i64::MIN as i128 || total > i64::MAX as i128 {
            None
        } else {
            Some(total as i64)
        }
    }

    pub fn is_valid_exec(&self) -> (r: bool)
        ensures
            r == self.is_valid(),
    {
        self.month >= 1 && self.month <= 12 && self.day >= 1 && self.day <= days_in_month_exec(
            self.year as i64,
            self.month,
        ) && self.time.hour < 24 && self.time.min < 60 && self.time.sec < 60 && self.time.micros
            < 1_000_000
    }

    /// The day of the week of the date.
    pub fn get_day_of_week(&self) -> (r: DayOfWeek)
        requires
            self.is_valid(),
            year_in_range(self.year as int),
        ensures
            r == day_of_week_from_monday(weekday_from_days(self.day_number())),
    {
        let days = days_from_civil_exec(self.year as i64, self.month, self.day);
        proof {
            lemma_day_number_range(*self);
        }
        DayOfWeek::from_monday(floor_mod7(days + 3))
    }
}

/// Every instant that fits an `i64` splits into calendar fields: `date_time_struct_of`
/// names them.
pub proof fn lemma_struct_of_represents(t: int)
    requires
        i64::MIN <= t <= i64::MAX,
    ensures
        date_time_struct_of(t).represents(t),
        year_in_range(date_time_struct_of(t).year as int),
{
    let days = t / 86_400_000_000;
    let rest = t % 86_400_000_000;
    assert(days_in_range(days)) by (nonlinear_arith)
        requires
            days == t / 86_400_000_000,
            i64::MIN <= t <= i64::MAX,
    ;
    let date = lemma_date_of_day(days);
    lemma_year_of_days(date.0, date.1, date.2);
    let time = TimeStruct {
        hour: (rest / 3_600_000_000) as u32,
        min: ((rest % 3_600_000_000) / 60_000_000) as u32,
        sec: ((rest % 60_000_000) / 1_000_000) as u32,
        micros: (rest % 1_000_000) as u32,
    };
    assert(time.micros_of_day() == rest && time.is_valid()) by (nonlinear_arith)
        requires
            0 <= rest < 86_400_000_000,
            time.hour == rest / 3_600_000_000,
            time.min == (rest % 3_600_000_000) / 60_000_000,
            time.sec == (rest % 60_000_000) / 1_000_000,
            time.micros == rest % 1_000_000,
    ;
    let s = DateTimeStruct {
        year: date.0 as i32,
        month: date.1 as u32,
        day: date.2 as u32,
        time,
        dow: Some(day_of_week_from_monday(weekday_from_days(days))),
    };
    assert(s.unix_micros() == t) by (nonlinear_arith)
        requires
            s.day_number() == days,
            s.time.micros_of_day() == rest,
            days == t / 86_400_000_000,
            rest == t % 86_400_000_000,
    ;
    lemma_date_time_struct_of(s, t);
}

/// The fields of an instant that fits an `i64` have a year the executable conversions handle.
pub proof fn lemma_year_in_range_of(s: DateTimeStruct)
    requires
        s.is_valid(),
        i64::MIN <= s.unix_micros() <= i64::MAX,
    ensures
        year_in_range(s.year as int),
{
    if !year_in_range(s.year as int) {
        lemma_year_bound(s);
    }
}

/// A date far outside of the years the executable conversions handle can not name an
/// instant that fits into an `i64`.
proof fn lemma_year_bound(s: DateTimeStruct)
    requires
        s.is_valid(),
        !year_in_range(s.year as int),
    ensures
        !(i64::MIN <= s.unix_micros() <= i64::MAX),
{
    let y = s.year as int;
    lemma_day_of_year_in_range(y, s.month as int, s.day as int);
    if y > 1_000_000 {
        lemma_years_span(1970, (y - 1970) as nat);
    } else {
        lemma_years_span(y, (1970 - y) as nat);
    }
    assert(0 <= s.time.micros_of_day() < 86_400_000_000);
}

proof fn lemma_day_number_range(s: DateTimeStruct)
    requires
        s.is_valid(),
        year_in_range(s.year as int),
    ensures
        -1_000_000_000 < s.day_number() < 1_000_000_000,
{
    let y = s.year as int;
    lemma_day_of_year_in_range(y, s.month as int, s.day as int);
    lemma_next_year(y);
    if y >= 1970 {
        lemma_years_span(1970, (y - 1970) as nat);
    } else {
        lemma_years_span(y, (1970 - y) as nat);
    }
}

/// `n` modulo 7, in 0..7 also for negative `n`.
fn floor_mod7(n: i64) -> (r: i64)
    requires
        -1_000_000_001 < n < 1_000_000_001,
    ensures
        r == n % 7,
        0 <= r < 7,
{
    let q = floor_div(n, 7);
    n - q * 7
}

} // verus!
