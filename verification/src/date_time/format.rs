//! Rendering dates and times as text.
use super::calendar::{weekday_from_days, year_in_range};
use super::date_time_struct::{day_of_week_from_monday, DateTimeStruct, DayOfWeek, TimeStruct};
use super::utils::{lemma_pow10_bound, pow10};
use vstd::prelude::*;

verus! {

/// `String::push`: appends one character.
#[verifier::external_body]
pub(crate) fn push_char(s: &mut String, c: char)
    ensures
        final(s)@ == old(s)@.push(c),
{
    s.push(c);
}

/// `String::push_str`: appends the characters of `t`.
#[verifier::external_body]
pub(crate) fn push_str(s: &mut String, t: &str)
    ensures
        final(s)@ == old(s)@ + t@,
{
    s.push_str(t);
}

pub open spec fn digit_char(d: int) -> char {
    ((d + 48) as u8) as char
}

/// The decimal digits of a natural number, without leading zeros.
pub open spec fn nat_digits(n: nat) -> Seq<char>
    decreases n,
{
    if n < 10 {
        seq![digit_char(n as int)]
    } else {
        nat_digits(n / 10).push(digit_char((n % 10) as int))
    }
}

/// An integer as `to_string` renders it.
pub open spec fn int_text(n: int) -> Seq<char> {
    if n < 0 {
        seq!['-'].add(nat_digits((-n) as nat))
    } else {
        nat_digits(n as nat)
    }
}

/// A natural number with a leading zero when it has a single digit.
pub open spec fn two_digit_text(n: nat) -> Seq<char> {
    if n < 10 {
        seq!['0', digit_char(n as int)]
    } else {
        nat_digits(n)
    }
}

/// A year as `{:04}` renders it: zero padded to four characters, the sign included.
pub open spec fn year_text(y: int) -> Seq<char> {
    if y < 0 {
        seq!['-'].add(padded_digits((-y) as nat, 3))
    } else {
        padded_digits(y as nat, 4)
    }
}

/// Decimal digits, zero padded on the left to at least `width` characters.
pub open spec fn padded_digits(n: nat, width: nat) -> Seq<char>
    decreases width,
{
    if width <= 1 {
        nat_digits(n)
    } else if n < pow10((width - 1) as nat) {
        seq!['0'].add(padded_digits(n, (width - 1) as nat))
    } else {
        nat_digits(n)
    }
}

pub open spec fn month_name(month: int) -> Seq<char> {
    if month == 1 {
        seq!['J', 'a', 'n']
    } else if month == 2 {
        seq!['F', 'e', 'b']
    } else if month == 3 {
        seq!['M', 'a', 'r']
    } else if month == 4 {
        seq!['A', 'p', 'r']
    } else if month == 5 {
        seq!['M', 'a', 'y']
    } else if month == 6 {
        seq!['J', 'u', 'n']
    } else if month == 7 {
        seq!['J', 'u', 'l']
    } else if month == 8 {
        seq!['A', 'u', 'g']
    } else if month == 9 {
        seq!['S', 'e', 'p']
    } else if month == 10 {
        seq!['O', 'c', 't']
    } else if month == 11 {
        seq!['N', 'o', 'v']
    } else {
        seq!['D', 'e', 'c']
    }
}

pub open spec fn day_of_week_name(d: DayOfWeek) -> Seq<char> {
    match d {
        DayOfWeek::Mon => seq!['M', 'o', 'n'],
        DayOfWeek::Tue => seq!['T', 'u', 'e'],
        DayOfWeek::Wed => seq!['W', 'e', 'd'],
        DayOfWeek::Thu => seq!['T', 'h', 'u'],
        DayOfWeek::Fri => seq!['F', 'r', 'i'],
        DayOfWeek::Sat => seq!['S', 'a', 't'],
        DayOfWeek::Sun => seq!['S', 'u', 'n'],
    }
}

/// `hh:mm:ss`.
pub open spec fn time_text(t: TimeStruct) -> Seq<char> {
    two_digit_text(t.hour as nat).push(':').add(two_digit_text(t.min as nat)).push(':').add(
        two_digit_text(t.sec as nat),
    )
}

/// `Sep  8 18:41:54 2032 GMT`
pub open spec fn rfc5322_text(s: DateTimeStruct) -> Seq<char> {
    month_name(s.month as int).push(' ').add(
        if s.day < 10 {
            seq![' ']
        } else {
            seq![]
        },
    ).add(nat_digits(s.day as nat)).push(' ').add(time_text(s.time)).push(' ').add(
        int_text(s.year as int),
    ).add(seq![' ', 'G', 'M', 'T'])
}

/// The weekday of the date of a valid struct.
pub open spec fn weekday_of(s: DateTimeStruct) -> DayOfWeek {
    day_of_week_from_monday(weekday_from_days(s.day_number()))
}

/// `Thu, 04 Jan 2024 14:45:39 +0000`
pub open spec fn rfc2822_text(s: DateTimeStruct) -> Seq<char> {
    day_of_week_name(weekday_of(s)).add(seq![',', ' ']).add(two_digit_text(s.day as nat)).push(
        ' ',
    ).add(month_name(s.month as int)).push(' ').add(int_text(s.year as int)).push(' ').add(
        time_text(s.time),
    ).add(seq![' ', '+', '0', '0', '0', '0'])
}

/// `Thu, 04 Jan 2024 14:45:39 GMT`
pub open spec fn rfc7231_text(s: DateTimeStruct) -> Seq<char> {
    day_of_week_name(weekday_of(s)).add(seq![',', ' ']).add(two_digit_text(s.day as nat)).push(
        ' ',
    ).add(month_name(s.month as int)).push(' ').add(year_text(s.year as int)).push(' ').add(
        time_text(s.time),
    ).add(seq![' ', 'G', 'M', 'T'])
}

/// `2024-01-04 14:45:39`
pub open spec fn compact_text(s: DateTimeStruct) -> Seq<char> {
    year_text(s.year as int).push('-').add(two_digit_text(s.month as nat)).push('-').add(
        two_digit_text(s.day as nat),
    ).push(' ').add(time_text(s.time))
}

pub fn push_nat(s: &mut String, n: u64)
    ensures
        final(s)@ == old(s)@.add(nat_digits(n as nat)),
    decreases n,
{
    if n >= 10 {
        push_nat(s, n / 10);
    }
    push_char(s, ((n % 10) as u8 + 48) as char);
    proof {
        assert(old(s)@.add(nat_digits(n as nat)) =~= s@);
    }
}

pub fn push_int(s: &mut String, n: i64)
    ensures
        final(s)@ == old(s)@.add(int_text(n as int)),
{
    if n < 0 {
        push_char(s, '-');
        push_nat(s, (-(n + 1)) as u64 + 1);
        proof {
            assert(s@ =~= old(s)@.add(int_text(n as int)));
        }
    } else {
        push_nat(s, n as u64);
    }
}

pub fn push_two_digits(s: &mut String, n: u32)
    ensures
        final(s)@ == old(s)@.add(two_digit_text(n as nat)),
{
    if n < 10 {
        push_char(s, '0');
        push_char(s, (n as u8 + 48) as char);
        proof {
            assert(s@ =~= old(s)@.add(two_digit_text(n as nat)));
        }
    } else {
        push_nat(s, n as u64);
    }
}

pub fn push_padded(s: &mut String, n: u64, width: u32)
    requires
        width <= 18,
    ensures
        final(s)@ == old(s)@.add(padded_digits(n as nat, width as nat)),
    decreases width,
{
    if width <= 1 {
        push_nat(s, n);
    } else if (n as u128) < pow10_exec(width - 1) {
        push_char(s, '0');
        push_padded(s, n, width - 1);
        proof {
            assert(s@ =~= old(s)@.add(padded_digits(n as nat, width as nat)));
        }
    } else {
        push_nat(s, n);
    }
}

fn pow10_exec(n: u32) -> (r: u128)
    requires
        n <= 18,
    ensures
        r == pow10(n as nat),
    decreases n,
{
    if n == 0 {
        1
    } else {
        let p = pow10_exec(n - 1);
        proof {
            lemma_pow10_bound((n - 1) as nat);
        }
        10 * p
    }
}

pub fn push_year(s: &mut String, y: i32)
    ensures
        final(s)@ == old(s)@.add(year_text(y as int)),
{
    if y < 0 {
        push_char(s, '-');
        push_padded(s, (-(y as i64)) as u64, 3);
        proof {
            assert(s@ =~= old(s)@.add(year_text(y as int)));
        }
    } else {
        push_padded(s, y as u64, 4);
    }
}

fn push3(s: &mut String, a: char, b: char, c: char)
    ensures
        final(s)@ == old(s)@.add(seq![a, b, c]),
{
    push_char(s, a);
    push_char(s, b);
    push_char(s, c);
    proof {
        assert(s@ =~= old(s)@.add(seq![a, b, c]));
    }
}

pub fn push_month_name(s: &mut String, month: u32)
    ensures
        final(s)@ == old(s)@.add(month_name(month as int)),
{
    if month == 1 {
        push3(s, 'J', 'a', 'n')
    } else if month == 2 {
        push3(s, 'F', 'e', 'b')
    } else if month == 3 {
        push3(s, 'M', 'a', 'r')
    } else if month == 4 {
        push3(s, 'A', 'p', 'r')
    } else if month == 5 {
        push3(s, 'M', 'a', 'y')
    } else if month == 6 {
        push3(s, 'J', 'u', 'n')
    } else if month == 7 {
        push3(s, 'J', 'u', 'l')
    } else if month == 8 {
        push3(s, 'A', 'u', 'g')
    } else if month == 9 {
        push3(s, 'S', 'e', 'p')
    } else if month == 10 {
        push3(s, 'O', 'c', 't')
    } else if month == 11 {
        push3(s, 'N', 'o', 'v')
    } else {
        push3(s, 'D', 'e', 'c')
    }
}

pub fn push_day_of_week_name(s: &mut String, d: DayOfWeek)
    ensures
        final(s)@ == old(s)@.add(day_of_week_name(d)),
{
    match d {
        DayOfWeek::Mon => push3(s, 'M', 'o', 'n'),
        DayOfWeek::Tue => push3(s, 'T', 'u', 'e'),
        DayOfWeek::Wed => push3(s, 'W', 'e', 'd'),
        DayOfWeek::Thu => push3(s, 'T', 'h', 'u'),
        DayOfWeek::Fri => push3(s, 'F', 'r', 'i'),
        DayOfWeek::Sat => push3(s, 'S', 'a', 't'),
        DayOfWeek::Sun => push3(s, 'S', 'u', 'n'),
    }
}

impl DayOfWeek {
    /// The three-letter English name.
    pub fn as_str(&self) -> (r: String)
        ensures
            r@ == day_of_week_name(*self),
    {
        let mut s = String::new();
        push_day_of_week_name(&mut s, *self);
        proof {
            assert(s@ =~= day_of_week_name(*self));
        }
        s
    }
}

impl TimeStruct {
    /// Appends `hh:mm:ss`.
    pub fn push_time_no_micros_to_str(&self, s: &mut String)
        ensures
            final(s)@ == old(s)@.add(time_text(*self)),
    {
        push_two_digits(s, self.hour);
        push_char(s, ':');
        push_two_digits(s, self.min);
        push_char(s, ':');
        push_two_digits(s, self.sec);
        proof {
            assert(s@ =~= old(s)@.add(time_text(*self)));
        }
    }
}

impl DateTimeStruct {
    /// The English three-letter name of the weekday of the date.
    pub fn get_day_of_week_as_str(&self) -> (r: String)
        requires
            self.is_valid(),
            year_in_range(self.year as int),
        ensures
            r@ == day_of_week_name(weekday_of(*self)),
    {
        self.get_day_of_week().as_str()
    }

    /// `Sep  8 18:41:54 2032 GMT`
    pub fn to_rfc5322(&self) -> (r: String)
        requires
            1 <= self.month <= 12,
        ensures
            r@ == rfc5322_text(*self),
    {
        let mut result = String::new();
        push_month_name(&mut result, self.month);
        push_char(&mut result, ' ');
        if self.day < 10 {
            push_char(&mut result, ' ');
        }
        push_nat(&mut result, self.day as u64);
        push_char(&mut result, ' ');
        self.time.push_time_no_micros_to_str(&mut result);
        push_char(&mut result, ' ');
        push_int(&mut result, self.year as i64);
        push_char(&mut result, ' ');
        push3(&mut result, 'G', 'M', 'T');
        proof {
            assert(result@ =~= rfc5322_text(*self));
        }
        result
    }

    /// `Thu, 04 Jan 2024 14:45:39 +0000`
    pub fn to_rfc2822(&self) -> (r: String)
        requires
            self.is_valid(),
            year_in_range(self.year as int),
        ensures
            r@ == rfc2822_text(*self),
    {
        let mut result = String::new();
        push_day_of_week_name(&mut result, self.get_day_of_week());
        push_char(&mut result, ',');
        push_char(&mut result, ' ');
        push_two_digits(&mut result, self.day);
        push_char(&mut result, ' ');
        push_month_name(&mut result, self.month);
        push_char(&mut result, ' ');
        push_int(&mut result, self.year as i64);
        push_char(&mut result, ' ');
        self.time.push_time_no_micros_to_str(&mut result);
        push_char(&mut result, ' ');
        push_char(&mut result, '+');
        push_char(&mut result, '0');
        push3(&mut result, '0', '0', '0');
        proof {
            assert(result@ =~= rfc2822_text(*self));
        }
        result
    }

    /// `Thu, 04 Jan 2024 14:45:39 GMT`, the HTTP date format.
    pub fn to_rfc7231(&self) -> (r: String)
        requires
            self.is_valid(),
            year_in_range(self.year as int),
        ensures
            r@ == rfc7231_text(*self),
    {
        let mut result = String::new();
        push_day_of_week_name(&mut result, self.get_day_of_week());
        push_char(&mut result, ',');
        push_char(&mut result, ' ');
        push_two_digits(&mut result, self.day);
        push_char(&mut result, ' ');
        push_month_name(&mut result, self.month);
        push_char(&mut result, ' ');
        push_year(&mut result, self.year);
        push_char(&mut result, ' ');
        self.time.push_time_no_micros_to_str(&mut result);
        push_char(&mut result, ' ');
        push3(&mut result, 'G', 'M', 'T');
        proof {
            assert(result@ =~= rfc7231_text(*self));
        }
        result
    }

    /// `2024-01-04 14:45:39`
    pub fn to_compact_date_time_string(&self) -> (r: String)
        ensures
            r@ == compact_text(*self),
    {
        let mut result = String::new();
        push_year(&mut result, self.year);
        push_char(&mut result, '-');
        push_two_digits(&mut result, self.month);
        push_char(&mut result, '-');
        push_two_digits(&mut result, self.day);
        push_char(&mut result, ' ');
        self.time.push_time_no_micros_to_str(&mut result);
        proof {
            assert(result@ =~= compact_text(*self));
        }
        result
    }
}

} // verus!
