//! What the library promises of the zone of an RFC 3339 date-time: it is checked for its form
//! and otherwise ignored, so any numeric offset reads as `Z` does.
use super::as_microseconds::from_str_spec;
use super::parse_rfc3339::{digit_run_end, parse_rfc3339_spec, zone_ok};
use super::utils::{digits_at, is_digit, number_at};
use vstd::prelude::*;

verus! {

/// Digits behind a prefix end where they end in the prefix, when what follows the prefix
/// starts with no digit.
proof fn lemma_run_end_in_prefix(d: Seq<u8>, z: Seq<u8>, i: int)
    requires
        0 <= i <= d.len(),
        z.len() > 0,
        !is_digit(z[0]),
    ensures
        digit_run_end(d + z, i) <= d.len(),
        forall|w: Seq<u8>|
            w.len() > 0 && !is_digit(w[0]) ==> #[trigger] digit_run_end(d + w, i) == digit_run_end(
                d + z,
                i,
            ),
    decreases d.len() - i,
{
    assert((d + z)[d.len() as int] == z[0]);
    if i < d.len() {
        assert((d + z)[i] == d[i]);
        lemma_run_end_in_prefix(d, z, i + 1);
        assert forall|w: Seq<u8>| w.len() > 0 && !is_digit(w[0]) implies #[trigger] digit_run_end(
            d + w,
            i,
        ) == digit_run_end(d + z, i) by {
            assert((d + w)[i] == d[i]);
            lemma_run_end_in_prefix(d, w, i + 1);
        }
    } else {
        assert forall|w: Seq<u8>| w.len() > 0 && !is_digit(w[0]) implies #[trigger] digit_run_end(
            d + w,
            i,
        ) == digit_run_end(d + z, i) by {
            assert((d + w)[i] == w[0]);
        }
    }
}

/// The digits at `i..i + n`, starting in a prefix, read alike whatever follows the prefix, as
/// long as what follows starts with no digit: either they lie in the prefix, or they read in
/// neither.
proof fn lemma_digits_alike(d: Seq<u8>, z1: Seq<u8>, z2: Seq<u8>, i: int, n: int)
    requires
        z1.len() > 0,
        z2.len() > 0,
        !is_digit(z1[0]),
        !is_digit(z2[0]),
        0 <= i <= d.len(),
        0 < n,
    ensures
        digits_at(d + z1, i, n) == digits_at(d + z2, i, n),
        digits_at(d + z1, i, n) ==> i + n <= d.len() && number_at(d + z1, i, n) == number_at(
            d + z2,
            i,
            n,
        ),
{
    let s1 = d + z1;
    let s2 = d + z2;
    if i + n <= d.len() {
        assert(s1.subrange(i, i + n) =~= d.subrange(i, i + n));
        assert(s2.subrange(i, i + n) =~= d.subrange(i, i + n));
    } else if i <= d.len() {
        if i + n <= s1.len() {
            assert(s1.subrange(i, i + n)[d.len() - i] == z1[0]);
        }
        if i + n <= s2.len() {
            assert(s2.subrange(i, i + n)[d.len() - i] == z2[0]);
        }
    }
}

/// With `Z` behind it, a date-time text has no zone before the `Z`.
proof fn lemma_zone_only_at_the_end(d: Seq<u8>, i: int)
    requires
        0 <= i < d.len(),
    ensures
        !zone_ok(d + seq!['Z' as u8], i),
{
    let s = d + seq!['Z' as u8];
    let l = d.len() as int;
    assert(s[l] == ('Z' as u8));
    if s.len() - i == 6 && digits_at(s, i + 1, 2) && digits_at(s, i + 4, 2) {
        assert(s.subrange(i + 4, i + 6)[1] == s[l]);
    }
    if s.len() - i == 5 && digits_at(s, i + 1, 4) {
        assert(s.subrange(i + 1, i + 5)[3] == s[l]);
    }
    if s.len() - i == 3 && digits_at(s, i + 1, 2) {
        assert(s.subrange(i + 1, i + 3)[1] == s[l]);
    }
}

/// A date-time text that reads with `Z` behind it reads to the same fields with any zone
/// behind it that starts with a sign and has the form of an offset.
proof fn lemma_zone_swap(d: Seq<u8>, z: Seq<u8>)
    requires
        parse_rfc3339_spec(d + seq!['Z' as u8]) is Some,
        z.len() >= 3,
        z[0] == ('+' as u8) || z[0] == ('-' as u8),
        zone_ok(d + z, d.len() as int),
    ensures
        parse_rfc3339_spec(d + z) == parse_rfc3339_spec(d + seq!['Z' as u8]),
{
    let zz = seq!['Z' as u8];
    let s1 = d + zz;
    let s2 = d + z;
    let l = d.len() as int;
    assert(s1[l] == ('Z' as u8));
    assert(s2[l] == z[0]);
    assert forall|k: int| 0 <= k < l implies s1[k] == d[k] && s2[k] == d[k] by {}
    if 0 <= l {
        lemma_digits_alike(d, zz, z, 0, 4);
    }
    if 5 <= l {
        lemma_digits_alike(d, zz, z, 5, 2);
    }
    if 8 <= l {
        lemma_digits_alike(d, zz, z, 8, 2);
    }
    if 11 <= l {
        lemma_digits_alike(d, zz, z, 11, 2);
    }
    if 14 <= l {
        lemma_digits_alike(d, zz, z, 14, 2);
    }
    if 17 <= l {
        lemma_digits_alike(d, zz, z, 17, 2);
    }
    assert forall|i: int| 0 <= i < l implies !zone_ok(s1, i) by {
        lemma_zone_only_at_the_end(d, i);
    }
    assert(zone_ok(s1, l));
    if l >= 20 {
        lemma_run_end_in_prefix(d, zz, 20);
        let e = digit_run_end(s1, 20);
        assert(digit_run_end(s2, 20) == e);
        assert(s1.subrange(20, e) =~= s2.subrange(20, e));
    }
}

/// The zone of an RFC 3339 date-time is checked for its form and otherwise ignored: a
/// date-time that reads with `Z` behind it reads to the same fields with any numeric offset
/// behind it instead, `+hh:mm`, `+hhmm` or `+hh`, of either sign and with any digits; so
/// `from_str` (and `parse_iso_string`, `from_json_value_str`) give the same instant for both.
pub proof fn law_numeric_offsets_read_as_z(d: Seq<u8>, sign: u8, h1: u8, h2: u8, m1: u8, m2: u8)
    requires
        parse_rfc3339_spec(d + seq!['Z' as u8]) is Some,
        sign == ('+' as u8) || sign == ('-' as u8),
        is_digit(h1),
        is_digit(h2),
        is_digit(m1),
        is_digit(m2),
    ensures
        parse_rfc3339_spec(d + seq![sign, h1, h2, ':' as u8, m1, m2]) == parse_rfc3339_spec(
            d + seq!['Z' as u8],
        ),
        parse_rfc3339_spec(d + seq![sign, h1, h2, m1, m2]) == parse_rfc3339_spec(
            d + seq!['Z' as u8],
        ),
        parse_rfc3339_spec(d + seq![sign, h1, h2]) == parse_rfc3339_spec(d + seq!['Z' as u8]),
        from_str_spec(d + seq![sign, h1, h2, ':' as u8, m1, m2]) == from_str_spec(
            d + seq!['Z' as u8],
        ),
{
    let l = d.len() as int;
    let z6 = seq![sign, h1, h2, ':' as u8, m1, m2];
    let z5 = seq![sign, h1, h2, m1, m2];
    let z3 = seq![sign, h1, h2];
    let s6 = d + z6;
    let s5 = d + z5;
    let s3 = d + z3;
    assert(s6.subrange(l + 1, l + 3) =~= seq![h1, h2]);
    assert(s6.subrange(l + 4, l + 6) =~= seq![m1, m2]);
    assert(s6[l] == sign && s6[l + 3] == (':' as u8));
    assert(zone_ok(s6, l));
    assert(s5.subrange(l + 1, l + 5) =~= seq![h1, h2, m1, m2]);
    assert(s5[l] == sign);
    assert(zone_ok(s5, l));
    assert(s3.subrange(l + 1, l + 3) =~= seq![h1, h2]);
    assert(s3[l] == sign);
    assert(zone_ok(s3, l));
    lemma_zone_swap(d, z6);
    lemma_zone_swap(d, z5);
    lemma_zone_swap(d, z3);
}

} // verus!
