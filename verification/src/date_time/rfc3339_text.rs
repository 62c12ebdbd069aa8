//! The RFC 3339 text with a `Z` and six digits of fraction, `2021-04-25T17:30:03.000000Z`,
//! written for the years 0 to 9999.
use super::date_time_struct::DateTimeStruct;
use super::format::digit_char;
use super::date_time_struct::TimeStruct;
use super::parse_rfc3339::{digit_run_end, fraction_micros, parse_rfc3339_spec, time_part_spec, zone_ok};
use super::utils::{all_digits, digits_at, digits_value, lemma_pow10_monotonic, number_at, pow10};
use vstd::utf8::{encode_utf8, is_ascii_chars, is_ascii_chars_encode_utf8};
use vstd::prelude::*;

verus! {

/// The last `width` decimal digits of `n`, zero padded on the left.
pub open spec fn fixed_digits(n: nat, width: nat) -> Seq<char>
    decreases width,
{
    if width == 0 {
        seq![]
    } else {
        fixed_digits(n / 10, (width - 1) as nat).push(digit_char((n % 10) as int))
    }
}

/// `YYYY-MM-DDThh:mm:ss.ffffffZ` for the fields.
pub open spec fn rfc3339_utc_text(s: DateTimeStruct) -> Seq<char> {
    fixed_digits(s.year as nat, 4) + seq!['-'] + fixed_digits(s.month as nat, 2) + seq!['-']
        + fixed_digits(s.day as nat, 2) + seq!['T'] + fixed_digits(s.time.hour as nat, 2) + seq![
        ':'] + fixed_digits(s.time.min as nat, 2) + seq![':'] + fixed_digits(
        s.time.sec as nat,
        2,
    ) + seq!['.'] + fixed_digits(s.time.micros as nat, 6) + seq!['Z']
}

/// `YYYY-MM-DDThh:mm:ss` for the fields.
pub open spec fn rfc3339_seconds_text(s: DateTimeStruct) -> Seq<char> {
    fixed_digits(s.year as nat, 4) + seq!['-'] + fixed_digits(s.month as nat, 2) + seq!['-']
        + fixed_digits(s.day as nat, 2) + seq!['T'] + fixed_digits(s.time.hour as nat, 2) + seq![
        ':'] + fixed_digits(s.time.min as nat, 2) + seq![':'] + fixed_digits(s.time.sec as nat, 2)
}

/// The shortest fraction of a second that holds the microseconds: none, three digits of
/// milliseconds or six digits of microseconds.
pub open spec fn auto_fraction_text(micros: nat) -> Seq<char> {
    if micros == 0 {
        seq![]
    } else if micros % 1000 == 0 {
        seq!['.'] + fixed_digits(micros / 1000, 3)
    } else {
        seq!['.'] + fixed_digits(micros, 6)
    }
}

/// An offset of `offset_seconds` east of UTC as `+hh:mm` or `-hh:mm`, rounded to the
/// nearest minute.
pub open spec fn offset_text(offset_seconds: int) -> Seq<char> {
    let magnitude = if offset_seconds < 0 {
        -offset_seconds
    } else {
        offset_seconds
    };
    let minutes = (magnitude + 30) / 60;
    seq![
        if offset_seconds < 0 {
            '-'
        } else {
            '+'
        },
    ] + fixed_digits((minutes / 60) as nat, 2) + seq![':'] + fixed_digits((minutes % 60) as nat, 2)
}

/// The bytes of characters that are all ASCII.
pub open spec fn ascii_bytes(cs: Seq<char>) -> Seq<u8> {
    cs.map_values(|c: char| c as u8)
}

pub proof fn lemma_fixed_digits(n: nat, width: nat)
    ensures
        fixed_digits(n, width).len() == width,
        forall|i: int|
            0 <= i < width ==> '0' <= #[trigger] fixed_digits(n, width)[i] <= '9',
        all_digits(ascii_bytes(fixed_digits(n, width))),
        digits_value(ascii_bytes(fixed_digits(n, width))) == n % pow10(width),
    decreases width,
{
    if width > 0 {
        let w1 = (width - 1) as nat;
        lemma_fixed_digits(n / 10, w1);
        let s = fixed_digits(n, width);
        let b = ascii_bytes(s);
        let d = (n % 10) as int;
        assert(digit_char(d) as u8 == d + 48);
        assert(b.drop_last() =~= ascii_bytes(fixed_digits(n / 10, w1)));
        assert forall|i: int| 0 <= i < width implies '0' <= #[trigger] s[i] <= '9' by {
            if i < w1 {
                assert(s[i] == fixed_digits(n / 10, w1)[i]);
            }
        }
        assert forall|i: int| 0 <= i < b.len() implies 48 <= #[trigger] b[i] <= 57 by {
            if i < w1 {
                assert(b[i] == b.drop_last()[i]);
            }
        }
        lemma_pow10_monotonic(0, w1);
        vstd::arithmetic::div_mod::lemma_mod_breakdown(n as int, 10, pow10(w1) as int);
        assert(pow10(width) == 10 * pow10(w1));
    }
}

/// The text is ASCII, so its UTF-8 bytes are its characters one for one, and it reads back
/// as the fields it was written from (with no weekday).
pub proof fn lemma_rfc3339_utc_text_parses(s: DateTimeStruct)
    requires
        s.is_valid(),
        0 <= s.year <= 9999,
    ensures
        encode_utf8(rfc3339_utc_text(s)) == ascii_bytes(rfc3339_utc_text(s)),
        parse_rfc3339_spec(ascii_bytes(rfc3339_utc_text(s))) == Some(
            DateTimeStruct { dow: None, ..s },
        ),
{
    let t = rfc3339_utc_text(s);
    let b = ascii_bytes(t);
    let year = fixed_digits(s.year as nat, 4);
    let month = fixed_digits(s.month as nat, 2);
    let day = fixed_digits(s.day as nat, 2);
    let hour = fixed_digits(s.time.hour as nat, 2);
    let min = fixed_digits(s.time.min as nat, 2);
    let sec = fixed_digits(s.time.sec as nat, 2);
    let micros = fixed_digits(s.time.micros as nat, 6);
    lemma_fixed_digits(s.year as nat, 4);
    lemma_fixed_digits(s.month as nat, 2);
    lemma_fixed_digits(s.day as nat, 2);
    lemma_fixed_digits(s.time.hour as nat, 2);
    lemma_fixed_digits(s.time.min as nat, 2);
    lemma_fixed_digits(s.time.sec as nat, 2);
    lemma_fixed_digits(s.time.micros as nat, 6);
    assert(t.len() == 27);
    assert(t.subrange(0, 4) =~= year);
    assert(t.subrange(5, 7) =~= month);
    assert(t.subrange(8, 10) =~= day);
    assert(t.subrange(11, 13) =~= hour);
    assert(t.subrange(14, 16) =~= min);
    assert(t.subrange(17, 19) =~= sec);
    assert(t.subrange(20, 26) =~= micros);
    assert(t[4] == '-' && t[7] == '-' && t[10] == 'T' && t[13] == ':' && t[16] == ':' && t[19]
        == '.' && t[26] == 'Z');
    assert forall|i: int| 0 <= i < t.len() implies '\0' <= #[trigger] t[i] <= '\u{7f}' by {
        if 0 <= i < 4 {
            assert(t[i] == year[i]);
        } else if 5 <= i < 7 {
            assert(t[i] == month[i - 5]);
        } else if 8 <= i < 10 {
            assert(t[i] == day[i - 8]);
        } else if 11 <= i < 13 {
            assert(t[i] == hour[i - 11]);
        } else if 14 <= i < 16 {
            assert(t[i] == min[i - 14]);
        } else if 17 <= i < 19 {
            assert(t[i] == sec[i - 17]);
        } else if 20 <= i < 26 {
            assert(t[i] == micros[i - 20]);
        }
    }
    assert(is_ascii_chars(t));
    is_ascii_chars_encode_utf8(t);
    assert(encode_utf8(t) =~= b);
    assert(b.subrange(0, 4) =~= ascii_bytes(year));
    assert(b.subrange(5, 7) =~= ascii_bytes(month));
    assert(b.subrange(8, 10) =~= ascii_bytes(day));
    assert(b.subrange(11, 13) =~= ascii_bytes(hour));
    assert(b.subrange(14, 16) =~= ascii_bytes(min));
    assert(b.subrange(17, 19) =~= ascii_bytes(sec));
    assert(b.subrange(20, 26) =~= ascii_bytes(micros));
    reveal_with_fuel(pow10, 7);
    assert(s.month <= 12 && s.day <= 31);
    lemma_field(b, 0, s.year as nat, 4);
    lemma_field(b, 5, s.month as nat, 2);
    lemma_field(b, 8, s.day as nat, 2);
    lemma_field(b, 11, s.time.hour as nat, 2);
    lemma_field(b, 14, s.time.min as nat, 2);
    lemma_field(b, 17, s.time.sec as nat, 2);
    lemma_field(b, 20, s.time.micros as nat, 6);
    assert(b[26] == ('Z' as u8));
    assert(digit_run_end(b, 26) == 26);
    assert forall|k: int| 20 <= k <= 26 implies digit_run_end(b, k) == 26 by {
        lemma_run_end_from(b, k);
    }
    assert(zone_ok(b, 26));
    assert(b.subrange(20, 26).take(6) =~= b.subrange(20, 26));
    assert(pow10(0) == 1);
    let fraction = b.subrange(20, 26);
    assert(fraction.len() == 6);
    assert(digits_value(fraction.take(6)) == s.time.micros);
    let whole = digits_value(fraction.take(6));
    let scale = pow10(0);
    assert(whole * scale == whole) by (nonlinear_arith)
        requires
            scale == 1,
    ;
    assert(fraction_micros(b.subrange(20, 26)) == s.time.micros);
    assert(time_part_spec(b) == Some(
        TimeStruct {
            hour: s.time.hour,
            min: s.time.min,
            sec: s.time.sec,
            micros: s.time.micros,
        },
    ));
}

/// Digits written for a value that fits their width read back as the value.
pub proof fn lemma_field(b: Seq<u8>, start: int, value: nat, width: nat)
    requires
        0 <= start,
        start + width <= b.len(),
        b.subrange(start, start + width) == ascii_bytes(fixed_digits(value, width)),
        value < pow10(width),
    ensures
        digits_at(b, start, width as int),
        number_at(b, start, width as int) == value,
{
    lemma_fixed_digits(value, width);
    vstd::arithmetic::div_mod::lemma_small_mod(value, pow10(width));
}

/// From any index among the six fraction digits, the digits run up to the `Z`.
proof fn lemma_run_end_from(b: Seq<u8>, k: int)
    requires
        b.len() == 27,
        20 <= k <= 26,
        all_digits(b.subrange(20, 26)),
        b[26] == ('Z' as u8),
    ensures
        digit_run_end(b, k) == 26,
    decreases 26 - k,
{
    if k < 26 {
        assert(b[k] == b.subrange(20, 26)[k - 20]);
        lemma_run_end_from(b, k + 1);
    }
}

/// `a` comes before `b` in text order: at the first character where they differ, `a` has the
/// lesser one, or `a` is a proper prefix of `b`.
pub open spec fn text_before(a: Seq<char>, b: Seq<char>) -> bool {
    ||| exists|k: int|
        0 <= k < a.len() && k < b.len() && a.take(k) == b.take(k) && (a[k] as u32) < (
        b[k] as u32)
    ||| (a.len() < b.len() && a == b.take(a.len() as int))
}

/// The fields of `a` name an earlier moment than those of `b`, compared field by field from
/// the year down to the microseconds.
pub open spec fn fields_before(a: DateTimeStruct, b: DateTimeStruct) -> bool {
    ||| a.year < b.year
    ||| (a.year == b.year && a.month < b.month)
    ||| (a.year == b.year && a.month == b.month && a.day < b.day)
    ||| (a.year == b.year && a.month == b.month && a.day == b.day && a.time.hour < b.time.hour)
    ||| (a.year == b.year && a.month == b.month && a.day == b.day && a.time.hour == b.time.hour
        && a.time.min < b.time.min)
    ||| (a.year == b.year && a.month == b.month && a.day == b.day && a.time.hour == b.time.hour
        && a.time.min == b.time.min && a.time.sec < b.time.sec)
    ||| (a.year == b.year && a.month == b.month && a.day == b.day && a.time.hour == b.time.hour
        && a.time.min == b.time.min && a.time.sec == b.time.sec && a.time.micros < b.time.micros)
}

/// Where the fields and the separators stand in the text.
pub proof fn lemma_layout(s: DateTimeStruct)
    ensures
        rfc3339_utc_text(s).len() == 27,
        rfc3339_utc_text(s).subrange(0, 4) == fixed_digits(s.year as nat, 4),
        rfc3339_utc_text(s).subrange(5, 7) == fixed_digits(s.month as nat, 2),
        rfc3339_utc_text(s).subrange(8, 10) == fixed_digits(s.day as nat, 2),
        rfc3339_utc_text(s).subrange(11, 13) == fixed_digits(s.time.hour as nat, 2),
        rfc3339_utc_text(s).subrange(14, 16) == fixed_digits(s.time.min as nat, 2),
        rfc3339_utc_text(s).subrange(17, 19) == fixed_digits(s.time.sec as nat, 2),
        rfc3339_utc_text(s).subrange(20, 26) == fixed_digits(s.time.micros as nat, 6),
        rfc3339_utc_text(s)[4] == '-' && rfc3339_utc_text(s)[7] == '-' && rfc3339_utc_text(s)[10]
            == 'T' && rfc3339_utc_text(s)[13] == ':' && rfc3339_utc_text(s)[16] == ':'
            && rfc3339_utc_text(s)[19] == '.' && rfc3339_utc_text(s)[26] == 'Z',
{
    let t = rfc3339_utc_text(s);
    lemma_fixed_digits(s.year as nat, 4);
    lemma_fixed_digits(s.month as nat, 2);
    lemma_fixed_digits(s.day as nat, 2);
    lemma_fixed_digits(s.time.hour as nat, 2);
    lemma_fixed_digits(s.time.min as nat, 2);
    lemma_fixed_digits(s.time.sec as nat, 2);
    lemma_fixed_digits(s.time.micros as nat, 6);
    assert(t.subrange(0, 4) =~= fixed_digits(s.year as nat, 4));
    assert(t.subrange(5, 7) =~= fixed_digits(s.month as nat, 2));
    assert(t.subrange(8, 10) =~= fixed_digits(s.day as nat, 2));
    assert(t.subrange(11, 13) =~= fixed_digits(s.time.hour as nat, 2));
    assert(t.subrange(14, 16) =~= fixed_digits(s.time.min as nat, 2));
    assert(t.subrange(17, 19) =~= fixed_digits(s.time.sec as nat, 2));
    assert(t.subrange(20, 26) =~= fixed_digits(s.time.micros as nat, 6));
}

/// Of two numbers that fit the width, the lesser one's digits come first: the returned index
/// is the first digit where they differ.
proof fn lemma_fixed_order(a: nat, b: nat, width: nat) -> (k: int)
    requires
        a < b < pow10(width),
    ensures
        0 <= k < width,
        fixed_digits(a, width).take(k) == fixed_digits(b, width).take(k),
        (fixed_digits(a, width)[k] as u32) < (fixed_digits(b, width)[k] as u32),
    decreases width,
{
    let w1 = (width - 1) as nat;
    lemma_fixed_digits(a / 10, w1);
    lemma_fixed_digits(b / 10, w1);
    lemma_pow10_monotonic(0, w1);
    assert(width > 0);
    assert(pow10(width) == 10 * pow10(w1));
    assert(b / 10 < pow10(w1));
    let fa = fixed_digits(a, width);
    let fb = fixed_digits(b, width);
    if a / 10 < b / 10 {
        let k = lemma_fixed_order(a / 10, b / 10, w1);
        assert(fa.take(k) =~= fixed_digits(a / 10, w1).take(k));
        assert(fb.take(k) =~= fixed_digits(b / 10, w1).take(k));
        assert(fa[k] == fixed_digits(a / 10, w1)[k]);
        assert(fb[k] == fixed_digits(b / 10, w1)[k]);
        k
    } else {
        let da = (a % 10) as int;
        let db = (b % 10) as int;
        assert(da < db);
        assert(digit_char(da) as u32 == da + 48);
        assert(digit_char(db) as u32 == db + 48);
        assert(fa.take(w1 as int) =~= fixed_digits(a / 10, w1));
        assert(fb.take(w1 as int) =~= fixed_digits(b / 10, w1));
        w1 as int
    }
}

/// Two texts that agree before `o` and whose digits of the same width at `o` spell a lesser
/// and a greater number are in text order.
proof fn lemma_segment_decides(t1: Seq<char>, t2: Seq<char>, o: int, w: nat, a: nat, b: nat)
    requires
        t1.len() == t2.len(),
        0 <= o,
        o + w <= t1.len(),
        t1.subrange(o, o + w) == fixed_digits(a, w),
        t2.subrange(o, o + w) == fixed_digits(b, w),
        forall|i: int| 0 <= i < o ==> t1[i] == t2[i],
        a < b < pow10(w),
    ensures
        text_before(t1, t2),
{
    let k = lemma_fixed_order(a, b, w);
    let fa = fixed_digits(a, w);
    let fb = fixed_digits(b, w);
    let at = o + k;
    assert forall|i: int| 0 <= i < at implies t1[i] == t2[i] by {
        if i >= o {
            assert(t1[i] == t1.subrange(o, o + w)[i - o]);
            assert(t2[i] == t2.subrange(o, o + w)[i - o]);
            assert(fa.take(k)[i - o] == fb.take(k)[i - o]);
        }
    }
    assert(t1.take(at) =~= t2.take(at));
    assert(t1[at] == t1.subrange(o, o + w)[k]);
    assert(t2[at] == t2.subrange(o, o + w)[k]);
}

/// The texts of fields that agree up to the field at `o` agree before `o`.
proof fn lemma_same_prefix(s1: DateTimeStruct, s2: DateTimeStruct, o: int)
    requires
        o == 0 || o == 5 || o == 8 || o == 11 || o == 14 || o == 17 || o == 20,
        o >= 5 ==> s1.year == s2.year,
        o >= 8 ==> s1.month == s2.month,
        o >= 11 ==> s1.day == s2.day,
        o >= 14 ==> s1.time.hour == s2.time.hour,
        o >= 17 ==> s1.time.min == s2.time.min,
        o >= 20 ==> s1.time.sec == s2.time.sec,
    ensures
        forall|i: int| 0 <= i < o ==> rfc3339_utc_text(s1)[i] == rfc3339_utc_text(s2)[i],
{
    let t1 = rfc3339_utc_text(s1);
    let t2 = rfc3339_utc_text(s2);
    lemma_layout(s1);
    lemma_layout(s2);
    assert forall|i: int| 0 <= i < o implies t1[i] == t2[i] by {
        if i < 4 {
            assert(t1[i] == t1.subrange(0, 4)[i] && t2[i] == t2.subrange(0, 4)[i]);
        } else if 5 <= i < 7 {
            assert(t1[i] == t1.subrange(5, 7)[i - 5] && t2[i] == t2.subrange(5, 7)[i - 5]);
        } else if 8 <= i < 10 {
            assert(t1[i] == t1.subrange(8, 10)[i - 8] && t2[i] == t2.subrange(8, 10)[i - 8]);
        } else if 11 <= i < 13 {
            assert(t1[i] == t1.subrange(11, 13)[i - 11] && t2[i] == t2.subrange(11, 13)[i - 11]);
        } else if 14 <= i < 16 {
            assert(t1[i] == t1.subrange(14, 16)[i - 14] && t2[i] == t2.subrange(14, 16)[i - 14]);
        } else if 17 <= i < 19 {
            assert(t1[i] == t1.subrange(17, 19)[i - 17] && t2[i] == t2.subrange(17, 19)[i - 17]);
        }
    }
}

/// The texts of valid fields of the years 0 to 9999 are in the order of the fields.
pub proof fn lemma_text_order(s1: DateTimeStruct, s2: DateTimeStruct)
    requires
        s1.is_valid(),
        s2.is_valid(),
        0 <= s1.year <= 9999,
        0 <= s2.year <= 9999,
        fields_before(s1, s2),
    ensures
        text_before(rfc3339_utc_text(s1), rfc3339_utc_text(s2)),
{
    let t1 = rfc3339_utc_text(s1);
    let t2 = rfc3339_utc_text(s2);
    lemma_layout(s1);
    lemma_layout(s2);
    reveal_with_fuel(pow10, 7);
    assert(s1.month <= 12 && s2.month <= 12 && s1.day <= 31 && s2.day <= 31);
    if s1.year < s2.year {
        lemma_same_prefix(s1, s2, 0);
        lemma_segment_decides(t1, t2, 0, 4, s1.year as nat, s2.year as nat);
    } else if s1.month < s2.month {
        lemma_same_prefix(s1, s2, 5);
        lemma_segment_decides(t1, t2, 5, 2, s1.month as nat, s2.month as nat);
    } else if s1.day < s2.day {
        lemma_same_prefix(s1, s2, 8);
        lemma_segment_decides(t1, t2, 8, 2, s1.day as nat, s2.day as nat);
    } else if s1.time.hour < s2.time.hour {
        lemma_same_prefix(s1, s2, 11);
        lemma_segment_decides(t1, t2, 11, 2, s1.time.hour as nat, s2.time.hour as nat);
    } else if s1.time.min < s2.time.min {
        lemma_same_prefix(s1, s2, 14);
        lemma_segment_decides(t1, t2, 14, 2, s1.time.min as nat, s2.time.min as nat);
    } else if s1.time.sec < s2.time.sec {
        lemma_same_prefix(s1, s2, 17);
        lemma_segment_decides(t1, t2, 17, 2, s1.time.sec as nat, s2.time.sec as nat);
    } else {
        lemma_same_prefix(s1, s2, 20);
        lemma_segment_decides(t1, t2, 20, 6, s1.time.micros as nat, s2.time.micros as nat);
    }
}

} // verus!
