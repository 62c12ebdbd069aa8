//! What the library promises of weekday names: the names it writes are the English ones of
//! the date's weekday, and a reader of RFC 5322 text skips any of them in front.
use super::date_time_struct::{day_of_week_from_monday, DateTimeStruct, DayOfWeek};
use super::format::{day_of_week_name, rfc2822_text, rfc7231_text};
use super::rfc3339_text::ascii_bytes;
use super::rfc_5322::{
    is_week_word, month_of_word, parse_rfc_5322_spec, read_words, word_end, words_from,
    Rfc5322Fields,
};
use vstd::prelude::*;

verus! {

/// The English three-letter names of the weekdays, Monday first.
pub open spec fn english_weekdays() -> Seq<Seq<char>> {
    seq![
        seq!['M', 'o', 'n'],
        seq!['T', 'u', 'e'],
        seq!['W', 'e', 'd'],
        seq!['T', 'h', 'u'],
        seq!['F', 'r', 'i'],
        seq!['S', 'a', 't'],
        seq!['S', 'u', 'n'],
    ]
}

/// The weekday counted from Monday (0) that a day number falls on: 1970-01-01, day 0, is a
/// Thursday, weekday 3.
pub open spec fn weekday_index(day_number: int) -> int {
    (day_number + 3) % 7
}

/// The name of the `n`-th weekday counted from Monday is the `n`-th English name.
pub proof fn law_weekday_names_are_english(n: int)
    requires
        0 <= n < 7,
    ensures
        day_of_week_name(day_of_week_from_monday(n)) == english_weekdays()[n],
{
}

/// RFC 2822 and RFC 7231 text start with the English name of the date's weekday, counted
/// from 1970-01-01 as a Thursday.
pub proof fn law_texts_name_the_weekday(s: DateTimeStruct)
    ensures
        rfc2822_text(s).take(3) == english_weekdays()[weekday_index(s.day_number())],
        rfc7231_text(s).take(3) == english_weekdays()[weekday_index(s.day_number())],
{
    let w = weekday_index(s.day_number());
    law_weekday_names_are_english(w);
    let name = english_weekdays()[w];
    assert(name.len() == 3);
    assert forall|i: int| 0 <= i < 3 implies rfc2822_text(s)[i] == name[i] by {}
    assert forall|i: int| 0 <= i < 3 implies rfc7231_text(s)[i] == name[i] by {}
    assert(rfc2822_text(s).take(3) =~= name);
    assert(rfc7231_text(s).take(3) =~= name);
}

/// Where a word ends is the same in a text and in the text behind a prefix, shifted.
proof fn lemma_word_end_shift(p: Seq<u8>, s: Seq<u8>, i: int)
    requires
        0 <= i <= s.len(),
    ensures
        word_end(p + s, p.len() + i) == p.len() + word_end(s, i),
    decreases s.len() - i,
{
    let ps = p + s;
    if i < s.len() {
        assert(ps[p.len() + i] == s[i]);
        if s[i] != (' ' as u8) {
            lemma_word_end_shift(p, s, i + 1);
        }
    }
}

/// The words of a text are the words of the text behind a prefix, from past the prefix.
proof fn lemma_words_shift(p: Seq<u8>, s: Seq<u8>, i: int)
    requires
        0 <= i,
    ensures
        words_from(p + s, p.len() + i) == words_from(s, i),
    decreases s.len() - i,
{
    let ps = p + s;
    if i < s.len() {
        assert(ps[p.len() + i] == s[i]);
        if s[i] == (' ' as u8) {
            lemma_words_shift(p, s, i + 1);
        } else {
            lemma_word_end_shift(p, s, i);
            let e = word_end(s, i);
            super::rfc_5322::lemma_word_end(s, i);
            assert(ps.subrange(p.len() + i, p.len() + e) =~= s.subrange(i, e));
            lemma_words_shift(p, s, e);
        }
    }
}

/// A reader of RFC 5322 text skips the English name of any weekday in front: the text with
/// a weekday name and a space before it reads as the text alone.
pub proof fn law_rfc5322_skips_a_weekday(n: int, s: Seq<u8>)
    requires
        0 <= n < 7,
    ensures
        parse_rfc_5322_spec(ascii_bytes(english_weekdays()[n]) + seq![' ' as u8] + s)
            == parse_rfc_5322_spec(s),
{
    let w = ascii_bytes(english_weekdays()[n]);
    let q = w + seq![' ' as u8];
    let t = q + s;
    assert(w.len() == 3);
    assert(t[0] == w[0] && t[1] == w[1] && t[2] == w[2] && t[3] == (' ' as u8));
    assert(w[0] != (' ' as u8) && w[1] != (' ' as u8) && w[2] != (' ' as u8));
    assert(word_end(t, 3) == 3);
    assert(word_end(t, 2) == 3);
    assert(word_end(t, 1) == 3);
    assert(word_end(t, 0) == 3);
    assert(t.subrange(0, 3) =~= w);
    lemma_words_shift(q, s, 0);
    assert(words_from(t, 3) == words_from(t, 4));
    let rest = words_from(s, 0);
    assert(words_from(t, 0) =~= seq![w] + rest);
    assert(is_week_word(w) && month_of_word(w) is None) by {
        if n == 0 {
            assert(w =~= seq!['M' as u8, 'o' as u8, 'n' as u8]);
        } else if n == 1 {
            assert(w =~= seq!['T' as u8, 'u' as u8, 'e' as u8]);
        } else if n == 2 {
            assert(w =~= seq!['W' as u8, 'e' as u8, 'd' as u8]);
        } else if n == 3 {
            assert(w =~= seq!['T' as u8, 'h' as u8, 'u' as u8]);
        } else if n == 4 {
            assert(w =~= seq!['F' as u8, 'r' as u8, 'i' as u8]);
        } else if n == 5 {
            assert(w =~= seq!['S' as u8, 'a' as u8, 't' as u8]);
        } else {
            assert(w =~= seq!['S' as u8, 'u' as u8, 'n' as u8]);
        }
    }
    let f0 = Rfc5322Fields { year: 0, month: 0, day: 0, time: None };
    assert((seq![w] + rest).drop_first() =~= rest);
    assert(read_words(seq![w] + rest, 0, f0) == read_words(rest, 0, f0));
}

/// Every weekday name the library writes is one a reader of RFC 5322 text skips.
pub proof fn law_written_weekday_names_are_skipped(d: DayOfWeek)
    ensures
        is_week_word(ascii_bytes(day_of_week_name(d))),
{
    assert(ascii_bytes(day_of_week_name(d)) =~= match d {
        DayOfWeek::Mon => seq!['M' as u8, 'o' as u8, 'n' as u8],
        DayOfWeek::Tue => seq!['T' as u8, 'u' as u8, 'e' as u8],
        DayOfWeek::Wed => seq!['W' as u8, 'e' as u8, 'd' as u8],
        DayOfWeek::Thu => seq!['T' as u8, 'h' as u8, 'u' as u8],
        DayOfWeek::Fri => seq!['F' as u8, 'r' as u8, 'i' as u8],
        DayOfWeek::Sat => seq!['S' as u8, 'a' as u8, 't' as u8],
        DayOfWeek::Sun => seq!['S' as u8, 'u' as u8, 'n' as u8],
    });
}

} // verus!
