//! Reading an RFC 3339 / ISO 8601 date-time: `YYYY-MM-DD`, optionally followed by `T` (or a
//! space) and `hh:mm`, `:ss`, a fraction of a second and a zone designator. The zone is
//! checked for its form and otherwise ignored: the fields are read as they are written.
use super::date_time_struct::{DateTimeStruct, TimeStruct};
use super::utils::{
    all_digits, digits_at, digits_value, is_digit, lemma_pow10_monotonic, number_at, pow10,
    read_digits,
};
use vstd::prelude::*;
use vstd::string::StringSliceAdditionalSpecFns;

verus! {

/// The index of the first byte at or after `i` that is no digit.
pub open spec fn digit_run_end(s: Seq<u8>, i: int) -> int
    decreases s.len() - i,
{
    if 0 <= i < s.len() && is_digit(s[i]) {
        digit_run_end(s, i + 1)
    } else {
        i
    }
}

/// Microseconds spelled by the digits of a fraction of a second: the first six digits count,
/// a shorter fraction is padded with zeros.
pub open spec fn fraction_micros(digits: Seq<u8>) -> int {
    let k = if digits.len() < 6 {
        digits.len()
    } else {
        6
    };
    (digits_value(digits.take(k as int)) * pow10((6 - k) as nat)) as int
}

/// What may follow the time: nothing, `Z`, or a numeric offset (`+hh:mm`, `+hhmm`, `+hh`).
pub open spec fn zone_ok(s: Seq<u8>, i: int) -> bool {
    ||| i == s.len()
    ||| (i + 1 == s.len() && (s[i] == ('Z' as u8) || s[i] == ('z' as u8)))
    ||| (0 <= i < s.len() && (s[i] == ('+' as u8) || s[i] == ('-' as u8)) && (
        (s.len() - i == 6 && digits_at(s, i + 1, 2) && s[i + 3] == (':' as u8) && digits_at(s, i + 4, 2))
        || (s.len() - i == 5 && digits_at(s, i + 1, 4))
        || (s.len() - i == 3 && digits_at(s, i + 1, 2))))
}

pub open spec fn time_of(hour: int, min: int, sec: int, micros: int) -> TimeStruct {
    TimeStruct { hour: hour as u32, min: min as u32, sec: sec as u32, micros: micros as u32 }
}

/// The time that follows the date in `s`, if it is well formed.
pub open spec fn time_part_spec(s: Seq<u8>) -> Option<TimeStruct> {
    if s.len() == 10 {
        Some(time_of(0, 0, 0, 0))
    } else if (s[10] != ('T' as u8) && s[10] != (' ' as u8)) || s.len() < 16 || !digits_at(s, 11, 2) || s[13]
        != (':' as u8) || !digits_at(s, 14, 2) {
        None
    } else {
        let hour = number_at(s, 11, 2) as int;
        let min = number_at(s, 14, 2) as int;
        if s.len() == 16 {
            Some(time_of(hour, min, 0, 0))
        } else if s[16] == (':' as u8) {
            if s.len() < 19 || !digits_at(s, 17, 2) {
                None
            } else {
                let sec = number_at(s, 17, 2) as int;
                if s.len() > 19 && s[19] == ('.' as u8) {
                    let e = digit_run_end(s, 20);
                    if e > 20 && zone_ok(s, e) {
                        Some(time_of(hour, min, sec, fraction_micros(s.subrange(20, e))))
                    } else {
                        None
                    }
                } else if zone_ok(s, 19) {
                    Some(time_of(hour, min, sec, 0))
                } else {
                    None
                }
            }
        } else if zone_ok(s, 16) {
            Some(time_of(hour, min, 0, 0))
        } else {
            None
        }
    }
}

/// The date-time written in `s`, if it is well formed. The numbers are not checked for
/// being a real date or time of day here.
pub open spec fn parse_rfc3339_spec(s: Seq<u8>) -> Option<DateTimeStruct> {
    if s.len() < 10 || !digits_at(s, 0, 4) || s[4] != ('-' as u8) || !digits_at(s, 5, 2) || s[7] != ('-' as u8)
        || !digits_at(s, 8, 2) {
        None
    } else {
        match time_part_spec(s) {
            Some(time) => Some(
                DateTimeStruct {
                    year: number_at(s, 0, 4) as i32,
                    month: number_at(s, 5, 2) as u32,
                    day: number_at(s, 8, 2) as u32,
                    time,
                    dow: None,
                },
            ),
            None => None,
        }
    }
}

pub(crate) fn two_digits(src: &[u8], start: usize) -> (r: Option<u32>)
    requires
        start + 2 <= src.len(),
    ensures
        r == (if digits_at(src@, start as int, 2) {
            Some(number_at(src@, start as int, 2) as u32)
        } else {
            None::<u32>
        }),
        r is Some ==> r.unwrap() < 100,
{
    let r = read_digits(src, start, 2);
    proof {
        reveal_with_fuel(pow10, 3);
    }
    match r {
        Some(v) => Some(v as u32),
        None => None,
    }
}

fn zone_ok_exec(src: &[u8], i: usize) -> (r: bool)
    requires
        i <= src.len(),
    ensures
        r == zone_ok(src@, i as int),
{
    let len = src.len();
    if i == len {
        return true;
    }
    if i + 1 == len && (src[i] == ('Z' as u8) || src[i] == ('z' as u8)) {
        return true;
    }
    if src[i] != ('+' as u8) && src[i] != ('-' as u8) {
        return false;
    }
    if len - i == 6 {
        two_digits(src, i + 1).is_some() && src[i + 3] == (':' as u8) && two_digits(src, i + 4).is_some()
    } else if len - i == 5 {
        read_digits(src, i + 1, 4).is_some()
    } else if len - i == 3 {
        two_digits(src, i + 1).is_some()
    } else {
        false
    }
}

/// Reads the digits of a fraction of a second starting at `start`: returns where they end
/// and the microseconds they spell.
fn read_fraction(src: &[u8], start: usize) -> (r: (usize, u32))
    requires
        start <= src.len(),
    ensures
        r.0 == digit_run_end(src@, start as int),
        start <= r.0 <= src.len(),
        r.1 == fraction_micros(src@.subrange(start as int, r.0 as int)),
        r.1 < 1_000_000,
{
    let mut i = start;
    let mut acc: u32 = 0;
    while i < src.len() && src[i] >= 48 && src[i] <= 57
        invariant
            start <= i <= src.len(),
            digit_run_end(src@, i as int) == digit_run_end(src@, start as int),
            all_digits(src@.subrange(start as int, i as int)),
            acc == digits_value(src@.subrange(start as int, i as int).take(
                if i - start < 6 { (i - start) as int } else { 6 },
            )),
            acc < pow10(if i - start < 6 { (i - start) as nat } else { 6 }),
        decreases src.len() - i,
    {
        let ghost old_i = i;
        let ghost sub = src@.subrange(start as int, i as int);
        let ghost sub2 = src@.subrange(start as int, i + 1);
        proof {
            assert(sub2.drop_last() =~= sub);
            reveal_with_fuel(pow10, 7);
        }
        if i - start < 6 {
            proof {
                assert(sub2.take((i + 1 - start) as int) =~= sub2);
                assert(sub.take((i - start) as int) =~= sub);
            }
            acc = acc * 10 + (src[i] - 48) as u32;
        } else {
            proof {
                assert(sub2.take(6) =~= sub.take(6));
            }
        }
        i = i + 1;
        proof {
            assert(all_digits(src@.subrange(start as int, i as int)));
        }
    }
    let n = i - start;
    let ghost digits = src@.subrange(start as int, i as int);
    let mut micros = acc;
    let mut k = if n < 6 {
        n
    } else {
        6
    };
    proof {
        reveal_with_fuel(pow10, 7);
    }
    while k < 6
        invariant
            k <= 6,
            micros * pow10((6 - k) as nat) == acc * pow10((6 - if n < 6 { n } else { 6 }) as nat),
            micros < pow10(k as nat),
        decreases 6 - k,
    {
        proof {
            reveal_with_fuel(pow10, 7);
            assert(pow10((6 - k) as nat) == 10 * pow10((6 - k - 1) as nat));
            assert(pow10((k + 1) as nat) == 10 * pow10(k as nat));
        }
        micros = micros * 10;
        k = k + 1;
        proof {
            assert(micros * pow10((6 - k) as nat) == acc * pow10((6 - if n < 6 { n } else { 6 }) as nat)) by (nonlinear_arith)
                requires
                    micros == (micros / 10) * 10,
                    (micros / 10) * pow10((6 - k + 1) as nat) == acc * pow10((6 - if n < 6 { n } else { 6 }) as nat),
                    pow10((6 - k + 1) as nat) == 10 * pow10((6 - k) as nat),
            ;
        }
    }
    proof {
        reveal_with_fuel(pow10, 7);
        let k0: int = if n < 6 { n as int } else { 6 };
        assert(k == 6);
        assert(pow10((6 - k) as nat) == 1);
        let p = pow10((6 - k) as nat);
        assert(micros * p == micros) by (nonlinear_arith)
            requires
                p == 1,
        ;
        assert(k0 == (if n < 6 { n } else { 6 }));
        assert(micros == acc * pow10((6 - k0) as nat));
        assert(acc == digits_value(digits.take(k0)));
        assert(fraction_micros(digits) == digits_value(digits.take(k0)) * pow10((6 - k0) as nat));
    }
    (i, micros)
}


fn parse_time_part(src: &[u8]) -> (r: Option<TimeStruct>)
    requires
        src.len() >= 10,
    ensures
        r == time_part_spec(src@),
{
    let len = src.len();
    if len == 10 {
        return Some(TimeStruct { hour: 0, min: 0, sec: 0, micros: 0 });
    }
    if (src[10] != ('T' as u8) && src[10] != (' ' as u8)) || len < 16 {
        return None;
    }
    let hour = match two_digits(src, 11) {
        Some(v) => v,
        None => return None,
    };
    if src[13] != (':' as u8) {
        return None;
    }
    let min = match two_digits(src, 14) {
        Some(v) => v,
        None => return None,
    };
    if len == 16 {
        return Some(TimeStruct { hour, min, sec: 0, micros: 0 });
    }
    if src[16] == (':' as u8) {
        if len < 19 {
            return None;
        }
        let sec = match two_digits(src, 17) {
            Some(v) => v,
            None => return None,
        };
        if len > 19 && src[19] == ('.' as u8) {
            let (end, micros) = read_fraction(src, 20);
            if end > 20 && zone_ok_exec(src, end) {
                Some(TimeStruct { hour, min, sec, micros })
            } else {
                None
            }
        } else if zone_ok_exec(src, 19) {
            Some(TimeStruct { hour, min, sec, micros: 0 })
        } else {
            None
        }
    } else if zone_ok_exec(src, 16) {
        Some(TimeStruct { hour, min, sec: 0, micros: 0 })
    } else {
        None
    }
}

impl DateTimeStruct {
    /// Reads an RFC 3339 / ISO 8601 date-time from its bytes. The fields are not checked for
    /// naming a real date here.
    pub fn parse_rfc3339_str(src: &[u8]) -> (r: Option<DateTimeStruct>)
        ensures
            r == parse_rfc3339_spec(src@),
    {
        if src.len() < 10 {
            return None;
        }
        let year = match read_digits(src, 0, 4) {
            Some(v) => v,
            None => return None,
        };
        proof {
            reveal_with_fuel(pow10, 5);
        }
        if src[4] != ('-' as u8) || src[7] != ('-' as u8) {
            return None;
        }
        let month = match two_digits(src, 5) {
            Some(v) => v,
            None => return None,
        };
        let day = match two_digits(src, 8) {
            Some(v) => v,
            None => return None,
        };
        match parse_time_part(src) {
            Some(time) => Some(
                DateTimeStruct { year: year as i32, month, day, time, dow: None },
            ),
            None => None,
        }
    }

    /// Reads an RFC 3339 / ISO 8601 date-time from a string.
    pub fn from_str(src: &str) -> (r: Option<DateTimeStruct>)
        ensures
            r == parse_rfc3339_spec(src.spec_bytes()),
    {
        Self::parse_rfc3339_str(src.as_bytes())
    }
}

} // verus!
