//! Decimal digits.
use vstd::prelude::*;

verus! {

pub open spec fn is_digit(b: u8) -> bool {
    48 <= b <= 57
}

pub open spec fn digit_value(b: u8) -> int {
    b - 48
}

/// Every byte is a decimal digit.
pub open spec fn all_digits(s: Seq<u8>) -> bool {
    forall|i: int| 0 <= i < s.len() ==> is_digit(#[trigger] s[i])
}

/// The number the decimal digits spell, the most significant one first.
pub open spec fn digits_value(s: Seq<u8>) -> nat
    decreases s.len(),
{
    if s.len() == 0 {
        0
    } else {
        (digits_value(s.drop_last()) * 10 + (s.last() - 48)) as nat
    }
}

/// The `n` bytes at `i` are all digits.
pub open spec fn digits_at(s: Seq<u8>, i: int, n: int) -> bool {
    0 <= i && i + n <= s.len() && all_digits(s.subrange(i, i + n))
}

/// The number spelled by the `n` digits at `i`.
pub open spec fn number_at(s: Seq<u8>, i: int, n: int) -> nat {
    digits_value(s.subrange(i, i + n))
}

pub proof fn lemma_digits_value_bound(s: Seq<u8>)
    requires
        all_digits(s),
    ensures
        digits_value(s) < pow10(s.len()),
    decreases s.len(),
{
    if s.len() > 0 {
        assert(all_digits(s.drop_last()));
        lemma_digits_value_bound(s.drop_last());
        assert(is_digit(s[s.len() - 1]));
    }
}

pub open spec fn pow10(n: nat) -> nat
    decreases n,
{
    if n == 0 {
        1
    } else {
        10 * pow10((n - 1) as nat)
    }
}

/// The value of a digit, `None` for anything else.
pub fn parse_number(src: u8) -> (r: Option<u32>)
    ensures
        r == (if is_digit(src) {
            Some(digit_value(src) as u32)
        } else {
            None::<u32>
        }),
{
    if src < 48 || src > 57 {
        return None;
    }
    Some((src - 48) as u32)
}

/// The number spelled by the first two bytes; `None` when there are fewer or they are not
/// both digits.
pub fn parse_two_digits(src: &[u8]) -> (r: Option<u32>)
    ensures
        r == (if digits_at(src@, 0, 2) {
            Some(number_at(src@, 0, 2) as u32)
        } else {
            None::<u32>
        }),
{
    if src.len() < 2 {
        return None;
    }
    let r = read_digits(src, 0, 2);
    proof {
        reveal_with_fuel(pow10, 3);
    }
    match r {
        Some(v) => Some(v as u32),
        None => None,
    }
}

/// The number spelled by the first four bytes; `None` when they are not all digits.
pub fn parse_four_digits(src: &[u8]) -> (r: Option<i32>)
    requires
        src.len() >= 4,
    ensures
        r == (if digits_at(src@, 0, 4) {
            Some(number_at(src@, 0, 4) as i32)
        } else {
            None::<i32>
        }),
{
    let r = read_digits(src, 0, 4);
    proof {
        reveal_with_fuel(pow10, 5);
    }
    match r {
        Some(v) => Some(v as i32),
        None => None,
    }
}

/// Reads the `n` digits at `start`; `None` when one of them is no digit.
pub fn read_digits(src: &[u8], start: usize, n: usize) -> (r: Option<u64>)
    requires
        start + n <= src.len(),
        n <= 18,
    ensures
        r == (if digits_at(src@, start as int, n as int) {
            Some(number_at(src@, start as int, n as int) as u64)
        } else {
            None::<u64>
        }),
        r is Some ==> r.unwrap() < pow10(n as nat),
        r is Some ==> number_at(src@, start as int, n as int) < pow10(n as nat),
{
    let mut acc: u64 = 0;
    let mut k: usize = 0;
    while k < n
        invariant
            k <= n,
            start + n <= src.len(),
            n <= 18,
            all_digits(src@.subrange(start as int, start + k)),
            acc == digits_value(src@.subrange(start as int, start + k)),
            acc < pow10(k as nat),
        decreases n - k,
    {
        let b = src[start + k];
        if b < 48 || b > 57 {
            assert(src@.subrange(start as int, start + n)[k as int] == b);
            return None;
        }
        proof {
            let sub = src@.subrange(start as int, start + k + 1);
            assert(sub.drop_last() =~= src@.subrange(start as int, start + k));
            lemma_pow10_bound(k as nat);
        }
        acc = acc * 10 + (b - 48) as u64;
        k = k + 1;
    }
    proof {
        lemma_digits_value_bound(src@.subrange(start as int, start + n));
    }
    Some(acc)
}

pub proof fn lemma_pow10_bound(n: nat)
    requires
        n <= 18,
    ensures
        pow10(n) <= 1_000_000_000_000_000_000,
        pow10(n + 1) == 10 * pow10(n),
{
    lemma_pow10_monotonic(n, 18);
    reveal_with_fuel(pow10, 19);
}

pub proof fn lemma_pow10_monotonic(n: nat, m: nat)
    requires
        n <= m,
    ensures
        1 <= pow10(n) <= pow10(m),
    decreases m,
{
    if n < m {
        lemma_pow10_monotonic(n, (m - 1) as nat);
    } else if n > 0 {
        lemma_pow10_monotonic((n - 1) as nat, (n - 1) as nat);
    }
}


/// How Rust's `str::parse` reads a decimal integer of a type whose values lie in
/// `min..=max`: an optional sign (`-` only for signed types), at least one digit, nothing
/// else, and no overflow.
pub open spec fn parse_decimal_spec(s: Seq<u8>, signed: bool, min: int, max: int) -> Option<int> {
    let negative = s.len() > 0 && s[0] == ('-' as u8);
    let start: int = if s.len() > 0 && (s[0] == ('-' as u8) || s[0] == ('+' as u8)) {
        1
    } else {
        0
    };
    let digits = s.subrange(start, s.len() as int);
    if digits.len() == 0 || !all_digits(digits) || (negative && !signed) {
        None
    } else {
        let v: int = if negative {
            -digits_value(digits)
        } else {
            digits_value(digits) as int
        };
        if min <= v <= max {
            Some(v)
        } else {
            None
        }
    }
}

pub proof fn lemma_prefix_value_le(s: Seq<u8>, k: int)
    requires
        all_digits(s),
        0 <= k <= s.len(),
    ensures
        digits_value(s.take(k)) <= digits_value(s),
    decreases s.len() - k,
{
    if k < s.len() {
        lemma_prefix_value_le(s, k + 1);
        assert(s.take(k + 1).drop_last() =~= s.take(k));
    } else {
        assert(s.take(k) =~= s);
    }
}

/// Reads a decimal integer as `str::parse` does, for a type of `min..=max`.
pub fn parse_decimal(src: &[u8], signed: bool, min: i64, max: i64) -> (r: Option<i64>)
    requires
        min <= 0 <= max,
        !signed ==> min == 0,
    ensures
        r == (match parse_decimal_spec(src@, signed, min as int, max as int) {
            Some(v) => Some(v as i64),
            None => None::<i64>,
        }),
{
    let len = src.len();
    if len == 0 {
        return None;
    }
    let negative = src[0] == ('-' as u8);
    let start: usize = if src[0] == ('-' as u8) || src[0] == ('+' as u8) {
        1
    } else {
        0
    };
    if start == len || (negative && !signed) {
        return None;
    }
    let limit: u64 = if negative {
        (-(min as i128)) as u64
    } else {
        max as u64
    };
    let ghost digits = src@.subrange(start as int, len as int);
    let mut acc: u64 = 0;
    let mut i = start;
    while i < len
        invariant
            start <= i <= len,
            len == src.len(),
            digits == src@.subrange(start as int, len as int),
            all_digits(digits.take(i - start)),
            acc == digits_value(digits.take(i - start)),
            acc <= limit,
            limit <= 9_223_372_036_854_775_808,
            len > 0,
            start < len,
            start == (if src@[0] == ('-' as u8) || src@[0] == ('+' as u8) { 1int } else { 0 }),
            negative == (src@[0] == ('-' as u8)),
            !(negative && !signed),
            limit == (if negative { -min } else { max as int }),
            min <= 0 <= max,
        decreases len - i,
    {
        let b = src[i];
        if b < 48 || b > 57 {
            assert(digits[i - start] == b);
            assert(!is_digit(digits[i - start]));
            assert(!all_digits(digits));
            return None;
        }
        let d = (b - 48) as u64;
        proof {
            assert(digits.take(i - start + 1).drop_last() =~= digits.take(i - start));
            assert(digits.take(i - start + 1).last() == b);
        }
        if acc as u128 * 10 + d as u128 > limit as u128 {
            proof {
                if all_digits(digits) {
                    lemma_prefix_value_le(digits, i - start + 1);
                }
            }
            return None;
        }
        acc = acc * 10 + d;
        i = i + 1;
        proof {
            assert(all_digits(digits.take(i - start)));
        }
    }
    proof {
        assert(digits.take(len - start) =~= digits);
    }
    if negative {
        Some((-(acc as i128)) as i64)
    } else {
        Some(acc as i64)
    }
}

} // verus!
