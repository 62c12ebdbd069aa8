//! What the basic conversions of instants promise together.
use super::as_microseconds::{
    from_str_spec, half_hours_between, is_null_token, json_value_spec, micros_from_number, strip_json_quotes_spec,
    trim_spec_bytes, trimmed,
};
use super::date_time_struct::{
    date_time_struct_of, lemma_date_time_struct_of, lemma_represents_unique,
    lemma_struct_of_represents, DateTimeStruct,
};
use super::calendar::lemma_civil_order;
use super::date_time_struct::TimeStruct;
use super::format::rfc5322_text;
use super::rfc_5322::{lemma_rfc5322_text_parses, parse_rfc_5322_spec};
use super::rfc3339_text::{
    fields_before, lemma_rfc3339_utc_text_parses, lemma_text_order, rfc3339_utc_text, text_before,
};
use vstd::utf8::{encode_scalar, encode_utf8, is_ascii_chars_encode_utf8, encode_utf8_decode_utf8};
use super::duration_units::duration_micros;
use super::utils::{all_digits, is_digit};
use std::time::Duration;
use vstd::prelude::*;

verus! {

/// A negative number takes the unit of its positive counterpart: it names the instant as
/// far before the epoch as the positive one names after it.
pub proof fn law_number_unit_is_symmetric(src: int)
    requires
        src > i64::MIN,
        src <= i64::MAX,
    ensures
        micros_from_number(-src) == -micros_from_number(src),
{
}

/// Quotes are only packaging: a token in one pair of quotes reads as the same instant as the
/// bare token (one that is not itself wrapped in quotes).
pub proof fn law_quotes_do_not_change_the_meaning(bare: Seq<u8>)
    requires
        bare.len() > 0,
        strip_json_quotes_spec(bare) is None,
    ensures
        json_value_spec(seq!['"' as u8] + bare + seq!['"' as u8]) == json_value_spec(bare),
{
    let quoted = seq!['"' as u8] + bare + seq!['"' as u8];
    assert(quoted.subrange(1, quoted.len() - 1) =~= bare);
    assert(strip_json_quotes_spec(quoted) == Some(bare));
    assert(!(quoted =~= seq!['n' as u8, 'u' as u8, 'l' as u8, 'l' as u8]));
    if bare =~= seq!['n' as u8, 'u' as u8, 'l' as u8, 'l' as u8] {
        assert(!is_digit(bare[0]));
        assert(bare.subrange(0, 4) =~= bare);
        assert(!all_digits(bare.subrange(0, 4)));
    }
}

/// Encoding two strings one after the other gives the encoding of the joined string.
proof fn lemma_encode_utf8_append(a: Seq<char>, b: Seq<char>)
    ensures
        encode_utf8(a + b) == encode_utf8(a) + encode_utf8(b),
    decreases a.len(),
{
    if a.len() == 0 {
        assert(a + b =~= b);
        assert(encode_utf8(a) + encode_utf8(b) =~= encode_utf8(b));
    } else {
        assert((a + b).drop_first() =~= a.drop_first() + b);
        assert((a + b)[0] == a[0]);
        lemma_encode_utf8_append(a.drop_first(), b);
        assert(encode_utf8(a + b) =~= encode_scalar(a[0] as u32) + encode_utf8(a.drop_first())
            + encode_utf8(b));
    }
}

/// The text `null` is not an instant.
proof fn lemma_null_is_no_instant()
    ensures
        from_str_spec(seq!['n' as u8, 'u' as u8, 'l' as u8, 'l' as u8]) is None,
{
    let bare = seq!['n' as u8, 'u' as u8, 'l' as u8, 'l' as u8];
    assert(!is_digit(bare[0]));
    assert(bare.subrange(0, 4) =~= bare);
    assert(!all_digits(bare.subrange(0, 4)));
}

/// Quotes are only packaging. Of a trimmed string that is not itself wrapped in a pair of
/// matching quotes, the same string in a pair of `"` or `'` quotes reads as the same instant
/// as the bare string; and the bare string reads as nothing when it is empty or `null`, and
/// otherwise as `from_str` reads it.
pub proof fn law_json_quotes_are_packaging(s: Seq<char>, q: char)
    requires
        q == '"' || q == '\'',
        trimmed(s) == s,
        strip_json_quotes_spec(encode_utf8(s)) is None,
    ensures
        json_value_spec(trim_spec_bytes(seq![q] + s + seq![q])) == json_value_spec(
            trim_spec_bytes(s),
        ),
        json_value_spec(trim_spec_bytes(s)) == (if s.len() == 0 || s == seq!['n', 'u', 'l', 'l'] {
            None
        } else {
            from_str_spec(encode_utf8(s))
        }),
{
    let quoted = seq![q] + s + seq![q];
    let e = encode_utf8(s);
    let qb = q as u8;
    // the quoted string is its own trim
    assert(quoted[0] == q);
    assert(quoted.last() == q);
    assert(quoted.skip(0) =~= quoted);
    assert(quoted.take(quoted.len() as int) =~= quoted);
    assert(trimmed(quoted) == quoted);
    // its bytes are the quote's byte around the bytes of the string
    is_ascii_chars_encode_utf8(seq![q]);
    assert(encode_utf8(seq![q]) =~= seq![qb]);
    lemma_encode_utf8_append(seq![q], s);
    lemma_encode_utf8_append(seq![q] + s, seq![q]);
    let qbytes = seq![qb] + e + seq![qb];
    assert(encode_utf8(quoted) =~= qbytes);
    assert(qbytes.subrange(1, qbytes.len() - 1) =~= e);
    assert(strip_json_quotes_spec(qbytes) == Some(e));
    assert(!is_null_token(qbytes)) by {
        if is_null_token(qbytes) {
            assert(qbytes[0] == 'n' as u8);
        }
    }
    // empty text and `null`, in chars and in bytes
    if s.len() > 0 {
        assert(e =~= encode_scalar(s[0] as u32) + encode_utf8(s.drop_first()));
        assert(e.len() > 0);
    }
    let null_chars = seq!['n', 'u', 'l', 'l'];
    is_ascii_chars_encode_utf8(null_chars);
    assert(encode_utf8(null_chars) =~= seq!['n' as u8, 'u' as u8, 'l' as u8, 'l' as u8]);
    if is_null_token(e) {
        encode_utf8_decode_utf8(s);
        encode_utf8_decode_utf8(null_chars);
        assert(s == null_chars);
    }
    lemma_null_is_no_instant();
}

/// Valid calendar fields and the fields an instant splits into are the same fields exactly
/// when they name the same instant: splitting the instant that fields name gives those
/// fields back (the weekday aside), and joining the fields of an instant gives the instant.
pub proof fn law_fields_round_trip(fields: DateTimeStruct, t: i64, split: DateTimeStruct)
    requires
        fields.is_valid(),
        split.represents(t as int),
    ensures
        split.is_valid() && split.unix_micros() == t,
        fields.unix_micros() == t ==> split.same_fields(fields) && date_time_struct_of(t as int)
            == split,
{
    lemma_date_time_struct_of(split, t as int);
    if fields.unix_micros() == t {
        lemma_represents_unique(split, fields);
    }
}

/// Moving an instant later by a duration and back by the same duration gives the instant.
pub proof fn law_add_then_sub(t: int, d: Duration)
    ensures
        (t + duration_micros(d)) - duration_micros(d) == t,
{
}

/// What `to_rfc3339_utc` writes for an instant of the years 0 to 9999 reads back, through
/// `from_str`, as the same instant.
pub proof fn law_rfc3339_utc_reads_back(t: i64)
    requires
        0 <= date_time_struct_of(t as int).year <= 9999,
    ensures
        from_str_spec(encode_utf8(rfc3339_utc_text(date_time_struct_of(t as int)))) == Some(
            t as int,
        ),
{
    lemma_struct_of_represents(t as int);
    let s = date_time_struct_of(t as int);
    lemma_rfc3339_utc_text_parses(s);
    let parsed = DateTimeStruct { dow: None, ..s };
    assert(parsed.is_valid());
    assert(parsed.unix_micros() == t);
}

/// Valid fields of an earlier instant come before those of a later one, field by field.
proof fn lemma_earlier_fields(s1: DateTimeStruct, s2: DateTimeStruct)
    requires
        s1.is_valid(),
        s2.is_valid(),
        s1.unix_micros() < s2.unix_micros(),
    ensures
        fields_before(s1, s2),
{
    if s1.year == s2.year && s1.month == s2.month && s1.day == s2.day {
        assert(s1.day_number() == s2.day_number());
        assert(s1.time.micros_of_day() < s2.time.micros_of_day());
    } else if !(s1.year < s2.year || (s1.year == s2.year && s1.month < s2.month) || (s1.year
        == s2.year && s1.month == s2.month && s1.day < s2.day)) {
        lemma_civil_order(
            s2.year as int,
            s2.month as int,
            s2.day as int,
            s1.year as int,
            s1.month as int,
            s1.day as int,
        );
        assert(false);
    }
}

/// What `to_rfc3339_utc` writes sorts as time does: of two instants of the years 0 to 9999,
/// the earlier one's text comes first in text order.
pub proof fn law_rfc3339_utc_text_order_is_time_order(t1: i64, t2: i64)
    requires
        t1 < t2,
        0 <= date_time_struct_of(t1 as int).year <= 9999,
        0 <= date_time_struct_of(t2 as int).year <= 9999,
    ensures
        text_before(
            rfc3339_utc_text(date_time_struct_of(t1 as int)),
            rfc3339_utc_text(date_time_struct_of(t2 as int)),
        ),
{
    lemma_struct_of_represents(t1 as int);
    lemma_struct_of_represents(t2 as int);
    lemma_earlier_fields(date_time_struct_of(t1 as int), date_time_struct_of(t2 as int));
    lemma_text_order(date_time_struct_of(t1 as int), date_time_struct_of(t2 as int));
}

/// What `to_rfc5322` writes for valid fields reads back through `parse_rfc_5322` as the same
/// date and time to the second: the text carries no microseconds and no weekday.
pub proof fn law_rfc5322_reads_back(s: DateTimeStruct)
    requires
        s.is_valid(),
    ensures
        parse_rfc_5322_spec(encode_utf8(rfc5322_text(s))) == Some(
            DateTimeStruct {
                year: s.year,
                month: s.month,
                day: s.day,
                time: TimeStruct {
                    hour: s.time.hour,
                    min: s.time.min,
                    sec: s.time.sec,
                    micros: 0,
                },
                dow: None,
            },
        ),
{
    lemma_rfc5322_text_parses(s);
}

/// The difference of a client clock and a server clock in half hours (what
/// `difference_in_half_hours` gives and `client_input_time_to_server_time` takes off) is the
/// nearest whole number of half hours: it is off by at most a quarter of an hour, less than
/// that on the side away from zero, so a difference of exactly `k` half hours gives `k`.
pub proof fn law_half_hours_are_the_nearest(client: int, server: int)
    ensures
        ({
            let off = (client - server) - half_hours_between(client, server) * 1_800_000_000;
            &&& -900_000_000 <= off <= 900_000_000
            &&& client - server >= 0 ==> -900_000_000 <= off < 900_000_000
            &&& client - server < 0 ==> -900_000_000 < off <= 900_000_000
        }),
        forall|k: int|
            (client - server) == #[trigger] (k * 1_800_000_000) ==> half_hours_between(client, server)
                == k,
{
    let diff = client - server;
    if diff >= 0 {
        vstd::arithmetic::div_mod::lemma_fundamental_div_mod(diff + 900_000_000, 1_800_000_000);
    } else {
        vstd::arithmetic::div_mod::lemma_fundamental_div_mod(-diff + 900_000_000, 1_800_000_000);
    }
    assert forall|k: int| (client - server) == #[trigger] (k * 1_800_000_000) implies half_hours_between(
        client,
        server,
    ) == k by {
        let h = half_hours_between(client, server);
        assert((k - h) * 1_800_000_000 == diff - h * 1_800_000_000) by (nonlinear_arith)
            requires
                diff == k * 1_800_000_000,
        ;
        if k - h >= 1 {
            assert((k - h) * 1_800_000_000 >= 1_800_000_000) by (nonlinear_arith)
                requires
                    k - h >= 1,
            ;
        } else if k - h <= -1 {
            assert((k - h) * 1_800_000_000 <= -1_800_000_000) by (nonlinear_arith)
                requires
                    k - h <= -1,
            ;
        }
    }
}

} // verus!
