//! Reading and writing dates in the style of RFC 5322 / `asctime`: `Sep  8 18:41:54 2032 GMT`.
use super::date_time_struct::{DateTimeStruct, TimeStruct};
use super::parse_rfc3339::two_digits;
use super::format::{digit_char, int_text, month_name, nat_digits, rfc5322_text, time_text, two_digit_text};
use super::rfc3339_text::{ascii_bytes, fixed_digits, lemma_field, lemma_fixed_digits};
use super::utils::{all_digits, digits_at, digits_value, number_at, parse_decimal, parse_decimal_spec, pow10};
use vstd::prelude::*;
use vstd::string::StringSliceAdditionalSpecFns;
use vstd::utf8::{encode_utf8, is_ascii_chars, is_ascii_chars_encode_utf8};

verus! {

/// The number of a month by its English three-letter name.
pub open spec fn month_of_word(w: Seq<u8>) -> Option<u32> {
    if w == seq!['J' as u8, 'a' as u8, 'n' as u8] {
        Some(1u32)
    } else 
    if w == seq!['F' as u8, 'e' as u8, 'b' as u8] {
        Some(2u32)
    } else 
    if w == seq!['M' as u8, 'a' as u8, 'r' as u8] {
        Some(3u32)
    } else 
    if w == seq!['A' as u8, 'p' as u8, 'r' as u8] {
        Some(4u32)
    } else 
    if w == seq!['M' as u8, 'a' as u8, 'y' as u8] {
        Some(5u32)
    } else 
    if w == seq!['J' as u8, 'u' as u8, 'n' as u8] {
        Some(6u32)
    } else 
    if w == seq!['J' as u8, 'u' as u8, 'l' as u8] {
        Some(7u32)
    } else 
    if w == seq!['A' as u8, 'u' as u8, 'g' as u8] {
        Some(8u32)
    } else 
    if w == seq!['S' as u8, 'e' as u8, 'p' as u8] {
        Some(9u32)
    } else 
    if w == seq!['O' as u8, 'c' as u8, 't' as u8] {
        Some(10u32)
    } else 
    if w == seq!['N' as u8, 'o' as u8, 'v' as u8] {
        Some(11u32)
    } else 
    if w == seq!['D' as u8, 'e' as u8, 'c' as u8] {
        Some(12u32)
    } else {
        None
    }
}

/// An English three-letter name of a weekday.
pub open spec fn is_week_word(w: Seq<u8>) -> bool {
    w == seq!['M' as u8, 'o' as u8, 'n' as u8] || w == seq!['T' as u8, 'u' as u8, 'e' as u8] || w == seq!['W' as u8, 'e' as u8, 'd' as u8] || w == seq!['T' as u8, 'h' as u8, 'u' as u8] || w == seq!['F' as u8, 'r' as u8, 'i' as u8] || w == seq!['S' as u8, 'a' as u8, 't' as u8] || w == seq!['S' as u8, 'u' as u8, 'n' as u8]
}

/// The first index at or after `i` that holds a space, or the end.
pub open spec fn word_end(s: Seq<u8>, i: int) -> int
    decreases s.len() - i,
{
    if i < 0 || i >= s.len() || s[i] == (' ' as u8) {
        i
    } else {
        word_end(s, i + 1)
    }
}

/// The words of `s` from `i` on: the runs of bytes between spaces that are not empty.
pub open spec fn words_from(s: Seq<u8>, i: int) -> Seq<Seq<u8>>
    decreases s.len() - i, 1int,
{
    if i < 0 || i >= s.len() {
        seq![]
    } else if s[i] == (' ' as u8) {
        words_from(s, i + 1)
    } else {
        let e = word_end(s, i);
        proof {
            lemma_word_end(s, i);
        }
        seq![s.subrange(i, e)] + words_from(s, e)
    }
}

pub proof fn lemma_word_end(s: Seq<u8>, i: int)
    requires
        0 <= i < s.len(),
        s[i] != (' ' as u8),
    ensures
        i < word_end(s, i) <= s.len(),
        word_end(s, i) == s.len() || s[word_end(s, i)] == (' ' as u8),
        forall|k: int| i <= k < word_end(s, i) ==> s[k] != (' ' as u8),
    decreases s.len() - i,
{
    assert(word_end(s, i) == word_end(s, i + 1));
    if i + 1 < s.len() && s[i + 1] != (' ' as u8) {
        lemma_word_end(s, i + 1);
    } else {
        assert(word_end(s, i + 1) == i + 1);
    }
}

/// `hh:mm:ss`.
pub open spec fn time_word_spec(w: Seq<u8>) -> Option<TimeStruct> {
    if w.len() == 8 && digits_at(w, 0, 2) && w[2] == (':' as u8) && digits_at(w, 3, 2) && w[5]
        == (':' as u8) && digits_at(w, 6, 2) {
        Some(
            TimeStruct {
                hour: number_at(w, 0, 2) as u32,
                min: number_at(w, 3, 2) as u32,
                sec: number_at(w, 6, 2) as u32,
                micros: 0,
            },
        )
    } else {
        None
    }
}

/// The fields read so far: year, month, day and time.
pub struct Rfc5322Fields {
    pub year: i32,
    pub month: u32,
    pub day: u32,
    pub time: Option<TimeStruct>,
}

/// Reads the words in turn, the word number `no` next: a month (weekday names before it
/// are skipped), the day, the time and the year; words after the year are ignored. `None`
/// when a month, day or year word does not read.
pub open spec fn read_words(words: Seq<Seq<u8>>, no: int, f: Rfc5322Fields) -> Option<Rfc5322Fields>
    decreases words.len(),
{
    if words.len() == 0 || no >= 4 {
        Some(f)
    } else {
        let w = words[0];
        let rest = words.drop_first();
        if no == 0 {
            match month_of_word(w) {
                Some(month) => read_words(rest, 1, Rfc5322Fields { month, ..f }),
                None => if is_week_word(w) {
                    read_words(rest, 0, f)
                } else {
                    None
                },
            }
        } else if no == 1 {
            match parse_decimal_spec(w, false, 0, u32::MAX as int) {
                Some(day) => read_words(rest, 2, Rfc5322Fields { day: day as u32, ..f }),
                None => None,
            }
        } else if no == 2 {
            read_words(rest, 3, Rfc5322Fields { time: time_word_spec(w), ..f })
        } else {
            match parse_decimal_spec(w, true, i32::MIN as int, i32::MAX as int) {
                Some(year) => read_words(rest, 4, Rfc5322Fields { year: year as i32, ..f }),
                None => None,
            }
        }
    }
}

/// What `parse_rfc_5322` gives for the bytes `s`.
pub open spec fn parse_rfc_5322_spec(s: Seq<u8>) -> Option<DateTimeStruct> {
    match read_words(words_from(s, 0), 0, Rfc5322Fields { year: 0, month: 0, day: 0, time: None }) {
        Some(f) => match f.time {
            Some(time) => Some(DateTimeStruct { year: f.year, month: f.month, day: f.day, time, dow: None }),
            None => None,
        },
        None => None,
    }
}

fn is_word(src: &[u8], a: u8, b: u8, c: u8) -> (r: bool)
    ensures
        r == (src@ == seq![a, b, c]),
{
    if src.len() != 3 {
        return false;
    }
    let r = src[0] == a && src[1] == b && src[2] == c;
    assert(r ==> src@ =~= seq![a, b, c]);
    r
}

/// The number of a month by its English three-letter name.
pub fn is_month(src: &[u8]) -> (r: Option<u32>)
    ensures
        r == month_of_word(src@),
{
    if is_word(src, 'J' as u8, 'a' as u8, 'n' as u8) {
        return Some(1);
    }
    if is_word(src, 'F' as u8, 'e' as u8, 'b' as u8) {
        return Some(2);
    }
    if is_word(src, 'M' as u8, 'a' as u8, 'r' as u8) {
        return Some(3);
    }
    if is_word(src, 'A' as u8, 'p' as u8, 'r' as u8) {
        return Some(4);
    }
    if is_word(src, 'M' as u8, 'a' as u8, 'y' as u8) {
        return Some(5);
    }
    if is_word(src, 'J' as u8, 'u' as u8, 'n' as u8) {
        return Some(6);
    }
    if is_word(src, 'J' as u8, 'u' as u8, 'l' as u8) {
        return Some(7);
    }
    if is_word(src, 'A' as u8, 'u' as u8, 'g' as u8) {
        return Some(8);
    }
    if is_word(src, 'S' as u8, 'e' as u8, 'p' as u8) {
        return Some(9);
    }
    if is_word(src, 'O' as u8, 'c' as u8, 't' as u8) {
        return Some(10);
    }
    if is_word(src, 'N' as u8, 'o' as u8, 'v' as u8) {
        return Some(11);
    }
    if is_word(src, 'D' as u8, 'e' as u8, 'c' as u8) {
        return Some(12);
    }
    None
}

fn is_week(src: &[u8]) -> (r: bool)
    ensures
        r == is_week_word(src@),
{
    is_word(src, 'M' as u8, 'o' as u8, 'n' as u8) || is_word(src, 'T' as u8, 'u' as u8, 'e' as u8) || is_word(src, 'W' as u8, 'e' as u8, 'd' as u8) || is_word(src, 'T' as u8, 'h' as u8, 'u' as u8) || is_word(src, 'F' as u8, 'r' as u8, 'i' as u8) || is_word(src, 'S' as u8, 'a' as u8, 't' as u8) || is_word(src, 'S' as u8, 'u' as u8, 'n' as u8)
}

/// The end of the word that starts at `i`.
fn find_word_end(src: &[u8], i: usize) -> (r: usize)
    requires
        i < src@.len(),
        src@[i as int] != (' ' as u8),
    ensures
        r == word_end(src@, i as int),
{
    let mut j = i;
    while j < src.len() && src[j] != (' ' as u8)
        invariant
            i <= j <= src@.len(),
            word_end(src@, i as int) == word_end(src@, j as int),
            src@[i as int] != (' ' as u8),
        decreases src@.len() - j,
    {
        assert(word_end(src@, j as int) == word_end(src@, j + 1));
        j = j + 1;
    }
    j
}

impl DateTimeStruct {
    /// Reads `Mon DD hh:mm:ss YYYY`: words separated by spaces - the month name (weekday names
    /// before it are skipped), the day, the time and the year. A missing day or year reads as
    /// zero; the fields are not checked for a real date here.
    pub fn parse_rfc_5322(src: &str) -> (r: Option<Self>)
        ensures
            r == parse_rfc_5322_spec(src.spec_bytes()),
    {
        let bytes = src.as_bytes();
        let len = bytes.len();
        let mut no: u32 = 0;
        let mut f = Rfc5322Fields { year: 0, month: 0, day: 0, time: None };
        let ghost init = f;
        let mut i: usize = 0;
        let mut done = false;
        while i < len && !done
            invariant
                len == bytes@.len(),
                bytes@ == src.spec_bytes(),
                i <= len,
                no <= 4,
                !done ==> no < 4,
                init == (Rfc5322Fields { year: 0, month: 0, day: 0, time: None }),
                read_words(words_from(bytes@, 0), 0, init) == (if done {
                    Some(f)
                } else {
                    read_words(words_from(bytes@, i as int), no as int, f)
                }),
            decreases len - i, if done { 0int } else { 1int },
        {
            if bytes[i] == (' ' as u8) {
                i = i + 1;
            } else {
                let e = find_word_end(bytes, i);
                proof {
                    lemma_word_end(bytes@, i as int);
                }
                let word = vstd::slice::slice_subrange(bytes, i, e);
                let ghost rest = words_from(bytes@, e as int);
                let ghost ws = words_from(bytes@, i as int);
                proof {
                    assert(ws == seq![bytes@.subrange(i as int, e as int)] + rest);
                    assert(ws[0] == word@);
                    assert(ws.drop_first() =~= rest);
                }
                if no == 0 {
                    match is_month(word) {
                        Some(month) => {
                            f.month = month;
                            no = 1;
                        },
                        None => {
                            if !is_week(word) {
                                assert(read_words(ws, 0, f) is None);
                                return None;
                            }
                        },
                    }
                } else if no == 1 {
                    match parse_decimal(word, false, 0, u32::MAX as i64) {
                        Some(day) => {
                            f.day = day as u32;
                            no = 2;
                        },
                        None => {
                            assert(read_words(ws, 1, f) is None);
                            return None;
                        },
                    }
                } else if no == 2 {
                    f.time = TimeStruct::parse_from_bytes(word);
                    no = 3;
                } else {
                    match parse_decimal(word, true, i32::MIN as i64, i32::MAX as i64) {
                        Some(year) => {
                            f.year = year as i32;
                        },
                        None => {
                            assert(read_words(ws, 3, f) is None);
                            return None;
                        },
                    }
                    no = 4;
                    done = true;
                }
                i = e;
            }
        }
        proof {
            if !done {
                assert(words_from(bytes@, i as int) =~= Seq::<Seq<u8>>::empty());
            }
        }
        match f.time {
            Some(time) => Some(DateTimeStruct { year: f.year, month: f.month, day: f.day, time, dow: None }),
            None => None,
        }
    }
}

impl TimeStruct {
    /// Reads `hh:mm:ss` (the numbers are not checked for a real time of day).
    pub fn parse_from_str(src: &str) -> (r: Option<TimeStruct>)
        ensures
            r == time_word_spec(src.spec_bytes()),
    {
        Self::parse_from_bytes(src.as_bytes())
    }

    pub fn parse_from_bytes(src: &[u8]) -> (r: Option<TimeStruct>)
        ensures
            r == time_word_spec(src@),
    {
        if src.len() != 8 || src[2] != (':' as u8) || src[5] != (':' as u8) {
            return None;
        }
        let hour = match two_digits(src, 0) {
            Some(v) => v,
            None => return None,
        };
        let min = match two_digits(src, 3) {
            Some(v) => v,
            None => return None,
        };
        let sec = match two_digits(src, 6) {
            Some(v) => v,
            None => return None,
        };
        Some(TimeStruct { hour, min, sec, micros: 0 })
    }
}

/// The decimal digits of a number are one or more ASCII digits that spell it.
pub proof fn lemma_nat_digits(n: nat)
    ensures
        nat_digits(n).len() >= 1,
        forall|i: int| 0 <= i < nat_digits(n).len() ==> '0' <= #[trigger] nat_digits(n)[i] <= '9',
        all_digits(ascii_bytes(nat_digits(n))),
        digits_value(ascii_bytes(nat_digits(n))) == n,
    decreases n,
{
    let d = (n % 10) as int;
    assert(digit_char(d) as u8 == d + 48);
    let b = ascii_bytes(nat_digits(n));
    if n >= 10 {
        lemma_nat_digits(n / 10);
        let prefix = nat_digits(n / 10);
        assert(b.drop_last() =~= ascii_bytes(prefix));
        assert forall|i: int| 0 <= i < nat_digits(n).len() implies '0' <= #[trigger] nat_digits(
            n,
        )[i] <= '9' by {
            if i < prefix.len() {
                assert(nat_digits(n)[i] == prefix[i]);
            }
        }
        assert forall|i: int| 0 <= i < b.len() implies 48 <= #[trigger] b[i] <= 57 by {
            if i < prefix.len() {
                assert(b[i] == b.drop_last()[i]);
            }
        }
        assert(b.last() == d + 48);
        assert(digits_value(b.drop_last()) == n / 10);
        assert(digits_value(b) == digits_value(b.drop_last()) * 10 + (b.last() - 48));
        assert((n / 10) * 10 + n % 10 == n);
    } else {
        assert(b.drop_last() =~= Seq::<u8>::empty());
        assert(digits_value(b.drop_last()) == 0);
        assert(b.last() == d + 48);
        assert(digits_value(b) == digits_value(b.drop_last()) * 10 + (b.last() - 48));
    }
}

/// Two digits of a number below a hundred are its last two digits.
proof fn lemma_two_digits_fixed(n: nat)
    requires
        n < 100,
    ensures
        two_digit_text(n) == fixed_digits(n, 2),
{
    reveal_with_fuel(fixed_digits, 3);
    assert(digit_char(0) == '0') by {
        assert(((0int + 48) as u8) == 48u8);
    }
    if n >= 10 {
        assert(nat_digits(n / 10) == seq![digit_char((n / 10) as int)]);
        assert((n / 10) % 10 == n / 10);
        assert(two_digit_text(n) =~= fixed_digits(n, 2));
    } else {
        assert(n / 10 == 0);
        assert(two_digit_text(n) =~= fixed_digits(n, 2));
    }
}

/// A run of bytes without spaces that ends at a space (or the end) is the next word.
proof fn lemma_word_at(s: Seq<u8>, i: int, j: int)
    requires
        0 <= i < j <= s.len(),
        forall|k: int| i <= k < j ==> s[k] != (' ' as u8),
        j == s.len() || s[j] == (' ' as u8),
    ensures
        words_from(s, i) == seq![s.subrange(i, j)] + words_from(s, j),
{
    lemma_word_end(s, i);
    let e = word_end(s, i);
    if e < j {
        assert(s[e] != (' ' as u8));
    }
    if e > j {
        assert(s[j] != (' ' as u8));
    }
}

/// The month a month name is read as.
proof fn lemma_month_word(month: u32)
    requires
        1 <= month <= 12,
    ensures
        month_of_word(ascii_bytes(month_name(month as int))) == Some(month),
{
    let w = ascii_bytes(month_name(month as int));
    if month == 1 {
        assert(w =~= seq!['J' as u8, 'a' as u8, 'n' as u8]);
    } else if month == 2 {
        assert(w =~= seq!['F' as u8, 'e' as u8, 'b' as u8]);
    } else if month == 3 {
        assert(w =~= seq!['M' as u8, 'a' as u8, 'r' as u8]);
    } else if month == 4 {
        assert(w =~= seq!['A' as u8, 'p' as u8, 'r' as u8]);
    } else if month == 5 {
        assert(w =~= seq!['M' as u8, 'a' as u8, 'y' as u8]);
    } else if month == 6 {
        assert(w =~= seq!['J' as u8, 'u' as u8, 'n' as u8]);
    } else if month == 7 {
        assert(w =~= seq!['J' as u8, 'u' as u8, 'l' as u8]);
    } else if month == 8 {
        assert(w =~= seq!['A' as u8, 'u' as u8, 'g' as u8]);
    } else if month == 9 {
        assert(w =~= seq!['S' as u8, 'e' as u8, 'p' as u8]);
    } else if month == 10 {
        assert(w =~= seq!['O' as u8, 'c' as u8, 't' as u8]);
    } else if month == 11 {
        assert(w =~= seq!['N' as u8, 'o' as u8, 'v' as u8]);
    } else {
        assert(w =~= seq!['D' as u8, 'e' as u8, 'c' as u8]);
    }
}

/// A month name is three letters.
proof fn lemma_month_name_letters(month: int)
    ensures
        month_name(month).len() == 3,
        forall|i: int| 0 <= i < 3 ==> 'A' <= #[trigger] month_name(month)[i] <= 'z',
{
}

/// The bytes of a number's decimal digits read back as the number.
proof fn lemma_digits_parse(n: nat, signed: bool, min: int, max: int)
    requires
        min <= n <= max,
    ensures
        parse_decimal_spec(ascii_bytes(nat_digits(n)), signed, min, max) == Some(n as int),
{
    lemma_nat_digits(n);
    let b = ascii_bytes(nat_digits(n));
    assert(48 <= b[0] <= 57);
    assert(b.subrange(0, b.len() as int) =~= b);
}

/// The bytes of an integer as `to_string` writes it read back as the integer.
proof fn lemma_int_parse(y: int, min: int, max: int)
    requires
        min <= y <= max,
    ensures
        parse_decimal_spec(ascii_bytes(int_text(y)), true, min, max) == Some(y),
{
    if y >= 0 {
        lemma_digits_parse(y as nat, true, min, max);
    } else {
        let n = (-y) as nat;
        lemma_nat_digits(n);
        let b = ascii_bytes(int_text(y));
        let digits = ascii_bytes(nat_digits(n));
        assert(b[0] == ('-' as u8));
        assert(b.subrange(1, b.len() as int) =~= digits);
    }
}

/// Where the day starts in the text `to_rfc5322` writes: after the month, a space and, for a
/// day of one digit, another space.
spec fn day_start(s: DateTimeStruct) -> int {
    if s.day < 10 {
        5
    } else {
        4
    }
}

/// The digits of the year, without the sign.
spec fn year_digits(s: DateTimeStruct) -> Seq<char> {
    nat_digits((if s.year < 0 {
        -s.year
    } else {
        s.year as int
    }) as nat)
}

spec fn day_end(s: DateTimeStruct) -> int {
    day_start(s) + nat_digits(s.day as nat).len()
}

spec fn year_end(s: DateTimeStruct) -> int {
    day_end(s) + 10 + int_text(s.year as int).len()
}

/// Where the words and the spaces stand in the text, and that it is ASCII.
proof fn lemma_rfc5322_layout(s: DateTimeStruct)
    requires
        s.is_valid(),
    ensures
        ({
            let text = rfc5322_text(s);
            &&& text.len() == year_end(s) + 4
            &&& text.subrange(0, 3) == month_name(s.month as int)
            &&& text.subrange(day_start(s), day_end(s)) == nat_digits(s.day as nat)
            &&& text.subrange(day_end(s) + 1, day_end(s) + 9) == time_text(s.time)
            &&& text.subrange(day_end(s) + 10, year_end(s)) == int_text(s.year as int)
            &&& text.subrange(year_end(s) + 1, year_end(s) + 4) == seq!['G', 'M', 'T']
            &&& text[3] == ' ' && text[day_end(s)] == ' ' && text[day_end(s) + 9] == ' '
                && text[year_end(s)] == ' '
            &&& s.day < 10 ==> text[4] == ' '
            &&& forall|k: int|
                (0 <= k < 3 || day_start(s) <= k < day_end(s) || day_end(s) + 1 <= k < day_end(
                    s,
                ) + 9 || day_end(s) + 10 <= k < year_end(s) || year_end(s) + 1 <= k < year_end(s)
                    + 4) ==> #[trigger] text[k] != ' '
            &&& is_ascii_chars(text)
        }),
{
    let m = month_name(s.month as int);
    let pad: Seq<char> = if s.day < 10 {
        seq![' ']
    } else {
        seq![]
    };
    let d = nat_digits(s.day as nat);
    let t = time_text(s.time);
    let y = int_text(s.year as int);
    let g = seq![' ', 'G', 'M', 'T'];
    let text = rfc5322_text(s);
    lemma_month_name_letters(s.month as int);
    lemma_nat_digits(s.day as nat);
    lemma_two_digits_fixed(s.time.hour as nat);
    lemma_two_digits_fixed(s.time.min as nat);
    lemma_two_digits_fixed(s.time.sec as nat);
    lemma_fixed_digits(s.time.hour as nat, 2);
    lemma_fixed_digits(s.time.min as nat, 2);
    lemma_fixed_digits(s.time.sec as nat, 2);
    let yd = year_digits(s);
    lemma_nat_digits((if s.year < 0 {
        -s.year
    } else {
        s.year as int
    }) as nat);
    assert(y == (if s.year < 0 {
        seq!['-'].add(yd)
    } else {
        yd
    }));
    let d0 = day_start(s);
    let e1 = day_end(s);
    let e2 = year_end(s);
    assert(t.len() == 8);
    assert(text.len() == e2 + 4);
    assert(text.subrange(0, 3) =~= m);
    assert(text.subrange(d0, e1) =~= d);
    assert(text.subrange(e1 + 1, e1 + 9) =~= t);
    assert(text.subrange(e1 + 10, e2) =~= y);
    assert(text.subrange(e2, e2 + 4) =~= g);
    assert(text.subrange(e2 + 1, e2 + 4) =~= seq!['G', 'M', 'T']);
    assert forall|i: int| 0 <= i < text.len() implies '\0' <= #[trigger] text[i] <= '\u{7f}'
        && ((0 <= i < 3 || d0 <= i < e1 || e1 + 1 <= i < e1 + 9 || e1 + 10 <= i < e2 || e2 + 1
        <= i < e2 + 4) ==> text[i] != ' ') by {
        if i < 3 {
            assert(text[i] == m[i]);
        } else if d0 <= i < e1 {
            assert(text[i] == d[i - d0]);
        } else if e1 + 1 <= i < e1 + 9 {
            assert(text[i] == t[i - e1 - 1]);
            let k = i - e1 - 1;
            if k < 2 {
                assert(t[k] == fixed_digits(s.time.hour as nat, 2)[k]);
            } else if 3 <= k < 5 {
                assert(t[k] == fixed_digits(s.time.min as nat, 2)[k - 3]);
            } else if 6 <= k {
                assert(t[k] == fixed_digits(s.time.sec as nat, 2)[k - 6]);
            }
        } else if e1 + 10 <= i < e2 {
            assert(text[i] == y[i - e1 - 10]);
            if s.year < 0 && i > e1 + 10 {
                assert(y[i - e1 - 10] == yd[i - e1 - 11]);
            } else if s.year >= 0 {
                assert(y[i - e1 - 10] == yd[i - e1 - 10]);
            }
        } else if e2 <= i {
            assert(text[i] == g[i - e2]);
        }
    }
}

/// The words of the text `to_rfc5322` writes: the month, the day, the time, the year and
/// `GMT`.
proof fn lemma_rfc5322_words(s: DateTimeStruct)
    requires
        s.is_valid(),
    ensures
        encode_utf8(rfc5322_text(s)) == ascii_bytes(rfc5322_text(s)),
        words_from(ascii_bytes(rfc5322_text(s)), 0) == seq![
            ascii_bytes(month_name(s.month as int)),
            ascii_bytes(nat_digits(s.day as nat)),
            ascii_bytes(time_text(s.time)),
            ascii_bytes(int_text(s.year as int)),
            ascii_bytes(seq!['G', 'M', 'T']),
        ],
{
    let text = rfc5322_text(s);
    lemma_rfc5322_layout(s);
    is_ascii_chars_encode_utf8(text);
    let b = ascii_bytes(text);
    assert(encode_utf8(text) =~= b);
    let d0 = day_start(s);
    let e1 = day_end(s);
    let e2 = year_end(s);
    assert forall|k: int|
        (0 <= k < 3 || d0 <= k < e1 || e1 + 1 <= k < e1 + 9 || e1 + 10 <= k < e2 || e2 + 1 <= k
            < e2 + 4) implies #[trigger] b[k] != (' ' as u8) by {
        assert(b[k] == text[k] as u8);
        assert(text[k] != ' ');
    }
    assert(b[3] == (' ' as u8) && b[e1] == (' ' as u8) && b[e1 + 9] == (' ' as u8) && b[e2] == (
    ' ' as u8));
    assert(s.day < 10 ==> b[4] == (' ' as u8));
    lemma_word_at(b, 0, 3);
    assert(words_from(b, 3) == words_from(b, 4));
    if s.day < 10 {
        assert(words_from(b, 4) == words_from(b, 5));
    }
    lemma_word_at(b, d0, e1);
    assert(words_from(b, e1) == words_from(b, e1 + 1));
    lemma_word_at(b, e1 + 1, e1 + 9);
    assert(words_from(b, e1 + 9) == words_from(b, e1 + 10));
    lemma_word_at(b, e1 + 10, e2);
    assert(words_from(b, e2) == words_from(b, e2 + 1));
    lemma_word_at(b, e2 + 1, e2 + 4);
    assert(words_from(b, e2 + 4) == Seq::<Seq<u8>>::empty());
    assert(b.subrange(0, 3) =~= ascii_bytes(text.subrange(0, 3)));
    assert(b.subrange(d0, e1) =~= ascii_bytes(text.subrange(d0, e1)));
    assert(b.subrange(e1 + 1, e1 + 9) =~= ascii_bytes(text.subrange(e1 + 1, e1 + 9)));
    assert(b.subrange(e1 + 10, e2) =~= ascii_bytes(text.subrange(e1 + 10, e2)));
    assert(b.subrange(e2 + 1, e2 + 4) =~= ascii_bytes(text.subrange(e2 + 1, e2 + 4)));
    let bm = b.subrange(0, 3);
    let bd = b.subrange(d0, e1);
    let bt = b.subrange(e1 + 1, e1 + 9);
    let by = b.subrange(e1 + 10, e2);
    let bg = b.subrange(e2 + 1, e2 + 4);
    assert(words_from(b, e2 + 1) =~= seq![bg]);
    assert(words_from(b, e1 + 10) =~= seq![by, bg]);
    assert(words_from(b, e1 + 1) =~= seq![bt, by, bg]);
    assert(words_from(b, d0) =~= seq![bd, bt, by, bg]);
    assert(words_from(b, 0) =~= seq![bm, bd, bt, by, bg]);
}

/// The time word of valid fields reads as their time without the microseconds.
proof fn lemma_time_word(t: TimeStruct)
    requires
        t.is_valid(),
    ensures
        time_word_spec(ascii_bytes(time_text(t))) == Some(
            TimeStruct { hour: t.hour, min: t.min, sec: t.sec, micros: 0 },
        ),
{
    lemma_two_digits_fixed(t.hour as nat);
    lemma_two_digits_fixed(t.min as nat);
    lemma_two_digits_fixed(t.sec as nat);
    lemma_fixed_digits(t.hour as nat, 2);
    lemma_fixed_digits(t.min as nat, 2);
    lemma_fixed_digits(t.sec as nat, 2);
    let bt = ascii_bytes(time_text(t));
    reveal_with_fuel(pow10, 3);
    assert(bt.subrange(0, 2) =~= ascii_bytes(fixed_digits(t.hour as nat, 2)));
    assert(bt.subrange(3, 5) =~= ascii_bytes(fixed_digits(t.min as nat, 2)));
    assert(bt.subrange(6, 8) =~= ascii_bytes(fixed_digits(t.sec as nat, 2)));
    lemma_field(bt, 0, t.hour as nat, 2);
    lemma_field(bt, 3, t.min as nat, 2);
    lemma_field(bt, 6, t.sec as nat, 2);
    assert(bt[2] == (':' as u8) && bt[5] == (':' as u8));
}

/// The text `to_rfc5322` writes for valid fields reads back as those fields; the
/// microseconds and the weekday are not written, so they read as zero and none.
pub proof fn lemma_rfc5322_text_parses(s: DateTimeStruct)
    requires
        s.is_valid(),
    ensures
        encode_utf8(rfc5322_text(s)) == ascii_bytes(rfc5322_text(s)),
        parse_rfc_5322_spec(ascii_bytes(rfc5322_text(s))) == Some(
            DateTimeStruct {
                year: s.year,
                month: s.month,
                day: s.day,
                time: TimeStruct {
                    hour: s.time.hour,
                    min: s.time.min,
                    sec: s.time.sec,
                    micros: 0,
                },
                dow: None,
            },
        ),
{
    lemma_rfc5322_words(s);
    let bm = ascii_bytes(month_name(s.month as int));
    let bd = ascii_bytes(nat_digits(s.day as nat));
    let bt = ascii_bytes(time_text(s.time));
    let by = ascii_bytes(int_text(s.year as int));
    let bg = ascii_bytes(seq!['G', 'M', 'T']);
    let ws = seq![bm, bd, bt, by, bg];
    lemma_month_word(s.month);
    lemma_digits_parse(s.day as nat, false, 0, u32::MAX as int);
    lemma_int_parse(s.year as int, i32::MIN as int, i32::MAX as int);
    lemma_time_word(s.time);
    let time = TimeStruct { hour: s.time.hour, min: s.time.min, sec: s.time.sec, micros: 0 };
    let f0 = Rfc5322Fields { year: 0, month: 0, day: 0, time: None };
    let f1 = Rfc5322Fields { month: s.month, ..f0 };
    let f2 = Rfc5322Fields { day: s.day, ..f1 };
    let f3 = Rfc5322Fields { time: Some(time), ..f2 };
    let f4 = Rfc5322Fields { year: s.year, ..f3 };
    let w1 = ws.drop_first();
    let w2 = w1.drop_first();
    let w3 = w2.drop_first();
    let w4 = w3.drop_first();
    assert(w1 =~= seq![bd, bt, by, bg]);
    assert(w2 =~= seq![bt, by, bg]);
    assert(w3 =~= seq![by, bg]);
    assert(w4 =~= seq![bg]);
    assert(read_words(w4, 4, f4) == Some(f4));
    assert(read_words(w3, 3, f3) == read_words(w4, 4, f4));
    assert(read_words(w2, 2, f2) == read_words(w3, 3, f3));
    assert(read_words(w1, 1, f1) == read_words(w2, 2, f2));
    assert(read_words(ws, 0, f0) == read_words(w1, 1, f1));
}

} // verus!
