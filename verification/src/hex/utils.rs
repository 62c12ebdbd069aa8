//! Hexadecimal digits: reading them into numbers and writing numbers as them.
use crate::date_time::format::push_char;
use vstd::prelude::*;
use vstd::string::StringSliceAdditionalSpecFns;

verus! {

/// An ASCII hexadecimal digit, in either case.
pub open spec fn is_hex_symbol(c: u8) -> bool {
    (48 <= c <= 57) || (97 <= c <= 102) || (65 <= c <= 70)
}

/// The value of a hexadecimal digit.
pub open spec fn hex_symbol_value(c: u8) -> int {
    if c <= 57 {
        c - 48
    } else if c >= 97 {
        c - 97 + 10
    } else {
        c - 65 + 10
    }
}

/// The lower case digit of a value below 16.
pub open spec fn hex_digit(n: int) -> u8 {
    if n < 10 {
        (n + 48) as u8
    } else {
        (n - 10 + 97) as u8
    }
}

/// The upper case digit of a value below 16.
pub open spec fn hex_digit_upper_case(n: int) -> u8 {
    if n < 10 {
        (n + 48) as u8
    } else {
        (n - 10 + 65) as u8
    }
}

/// All bytes are hexadecimal digits.
pub open spec fn all_hex(s: Seq<u8>) -> bool {
    forall|i: int| 0 <= i < s.len() ==> is_hex_symbol(#[trigger] s[i])
}

/// The number the hexadecimal digits spell, most significant first.
pub open spec fn hex_value(s: Seq<u8>) -> int
    decreases s.len(),
{
    if s.len() == 0 {
        0
    } else {
        hex_value(s.drop_last()) * 16 + hex_symbol_value(s.last())
    }
}

/// The lower case digits of a sequence of bytes, two per byte, the high half first.
pub open spec fn hex_text(bytes: Seq<u8>) -> Seq<char>
    decreases bytes.len(),
{
    if bytes.len() == 0 {
        seq![]
    } else {
        hex_text(bytes.drop_last()).push(hex_digit((bytes.last() / 16) as int) as char).push(
            hex_digit((bytes.last() % 16) as int) as char,
        )
    }
}

/// The upper case digits of a sequence of bytes, two per byte, the high half first.
pub open spec fn hex_text_upper_case(bytes: Seq<u8>) -> Seq<char>
    decreases bytes.len(),
{
    if bytes.len() == 0 {
        seq![]
    } else {
        hex_text_upper_case(bytes.drop_last()).push(
            hex_digit_upper_case((bytes.last() / 16) as int) as char,
        ).push(hex_digit_upper_case((bytes.last() % 16) as int) as char)
    }
}

/// The bytes that pairs of hexadecimal digits spell.
pub open spec fn hex_bytes(s: Seq<u8>) -> Seq<u8> {
    Seq::new(
        s.len() / 2,
        |i: int| (hex_symbol_value(s[2 * i]) * 16 + hex_symbol_value(s[2 * i + 1])) as u8,
    )
}

/// The value of one hexadecimal digit (a byte that is none is refused).
pub fn hex_symbol_to_byte(c: u8) -> (r: u8)
    requires
        is_hex_symbol(c),
    ensures
        r == hex_symbol_value(c),
        r < 16,
{
    if c >= 48 && c <= 57 {
        c - 48
    } else if c >= 97 && c <= 102 {
        c - 97 + 10
    } else {
        c - 65 + 10
    }
}

/// The byte one or two hexadecimal digits spell (only the first two are read).
pub fn hex_to_byte(src: &[u8]) -> (r: u8)
    requires
        src@.len() >= 1,
        is_hex_symbol(src@[0]),
        src@.len() >= 2 ==> is_hex_symbol(src@[1]),
    ensures
        r == (if src@.len() == 1 {
            hex_symbol_value(src@[0])
        } else {
            hex_symbol_value(src@[0]) * 16 + hex_symbol_value(src@[1])
        }),
{
    if src.len() == 1 {
        return hex_symbol_to_byte(src[0]);
    }
    return hex_symbol_to_byte(src[0]) * 16 + hex_symbol_to_byte(src[1]);
}

/// The number one to four hexadecimal digits spell.
pub fn hex_to_word(src: &[u8]) -> (r: u16)
    requires
        1 <= src@.len() <= 4,
        all_hex(src@),
    ensures
        r == hex_value(src@),
{
    let ghost s = src@;
    proof {
        reveal_with_fuel(hex_value, 5);
    }
    match src.len() {
        1 => { hex_symbol_to_byte(src[0]) as u16 },
        2 => { hex_to_byte(src) as u16 },
        3 => {
            let rest = vstd::slice::slice_subrange(src, 1, 3);
            assert(s.drop_last().drop_last() =~= s.subrange(0, 1));
            hex_symbol_to_byte(src[0]) as u16 * 256 + hex_to_byte(rest) as u16
        },
        _ => {
            let high = vstd::slice::slice_subrange(src, 0, 2);
            let low = vstd::slice::slice_subrange(src, 2, 4);
            assert(s.drop_last().drop_last() =~= s.subrange(0, 2));
            assert(s.drop_last().drop_last().drop_last() =~= s.subrange(0, 1));
            hex_to_byte(high) as u16 * 256 + hex_to_byte(low) as u16
        },
    }
}

/// The lower case digit of a value below 16.
fn digit(n: u8) -> (r: u8)
    requires
        n < 16,
    ensures
        r == hex_digit(n as int),
{
    if n < 10 {
        n + 48
    } else {
        n - 10 + 97
    }
}

/// The upper case digit of a value below 16.
fn digit_upper_case(n: u8) -> (r: u8)
    requires
        n < 16,
    ensures
        r == hex_digit_upper_case(n as int),
{
    if n < 10 {
        n + 48
    } else {
        n - 10 + 65
    }
}

/// Four lower case digits of a 16 bit number.
pub fn word_to_hex(src: u16) -> (r: String)
    ensures
        r@ == seq![
            hex_digit((src / 4096) as int) as char,
            hex_digit(((src / 256) % 16) as int) as char,
            hex_digit(((src / 16) % 16) as int) as char,
            hex_digit((src % 16) as int) as char,
        ],
{
    let mut result = String::new();
    push_char(&mut result, digit((src / 4096) as u8) as char);
    push_char(&mut result, digit(((src / 256) % 16) as u8) as char);
    push_char(&mut result, digit(((src / 16) % 16) as u8) as char);
    push_char(&mut result, digit((src % 16) as u8) as char);
    assert(result@ =~= seq![
        hex_digit((src / 4096) as int) as char,
        hex_digit(((src / 256) % 16) as int) as char,
        hex_digit(((src / 16) % 16) as int) as char,
        hex_digit((src % 16) as int) as char,
    ]);
    result
}

/// The bytes that pairs of hexadecimal digits spell.
pub fn hex_array_to_bytes(hex_array: &str) -> (r: Vec<u8>)
    requires
        hex_array.spec_bytes().len() % 2 == 0,
        all_hex(hex_array.spec_bytes()),
    ensures
        r@ == hex_bytes(hex_array.spec_bytes()),
{
    let bytes = hex_array.as_bytes();
    let mut i: usize = 0;
    let mut result: Vec<u8> = Vec::new();
    while i < bytes.len()
        invariant
            bytes@ == hex_array.spec_bytes(),
            bytes@.len() % 2 == 0,
            all_hex(bytes@),
            i % 2 == 0,
            i <= bytes@.len(),
            result@.len() == i / 2,
            forall|j: int|
                0 <= j < i / 2 ==> result@[j] == (hex_symbol_value(bytes@[2 * j]) * 16
                    + hex_symbol_value(bytes@[2 * j + 1])) as u8,
        decreases bytes@.len() - i,
    {
        let pair = vstd::slice::slice_subrange(bytes, i, i + 2);
        assert(is_hex_symbol(bytes@[i as int]) && is_hex_symbol(bytes@[i + 1]));
        result.push(hex_to_byte(pair));
        i = i + 2;
    }
    assert(result@ =~= hex_bytes(hex_array.spec_bytes()));
    result
}

/// The two lower case digits of a byte, the high half first.
pub fn byte_to_hex(b: u8) -> (r: [u8; 2])
    ensures
        r@ == seq![hex_digit((b / 16) as int), hex_digit((b % 16) as int)],
{
    let r = [digit(b / 16), digit(b % 16)];
    assert(r@ =~= seq![hex_digit((b / 16) as int), hex_digit((b % 16) as int)]);
    r
}

/// The two upper case digits of a byte, the high half first.
pub fn byte_to_hex_upper_case(b: u8) -> (r: [u8; 2])
    ensures
        r@ == seq![hex_digit_upper_case((b / 16) as int), hex_digit_upper_case((b % 16) as int)],
{
    let r = [digit_upper_case(b / 16), digit_upper_case(b % 16)];
    assert(r@ =~= seq![hex_digit_upper_case((b / 16) as int), hex_digit_upper_case((b % 16) as int)]);
    r
}

/// The lower case digits of bytes, two per byte.
pub fn array_of_bytes_to_hex(src: &[u8]) -> (r: String)
    ensures
        r@ == hex_text(src@),
{
    let mut result = String::new();
    let mut i: usize = 0;
    while i < src.len()
        invariant
            i <= src@.len(),
            result@ == hex_text(src@.subrange(0, i as int)),
        decreases src@.len() - i,
    {
        let b = src[i];
        push_char(&mut result, digit(b / 16) as char);
        push_char(&mut result, digit(b % 16) as char);
        assert(src@.subrange(0, i + 1).drop_last() =~= src@.subrange(0, i as int));
        i = i + 1;
    }
    assert(src@.subrange(0, src@.len() as int) =~= src@);
    result
}

/// The upper case digits of bytes, two per byte.
pub fn array_of_bytes_to_hex_upper_case(src: &[u8]) -> (r: String)
    ensures
        r@ == hex_text_upper_case(src@),
{
    let mut result = String::new();
    let mut i: usize = 0;
    while i < src.len()
        invariant
            i <= src@.len(),
            result@ == hex_text_upper_case(src@.subrange(0, i as int)),
        decreases src@.len() - i,
    {
        let b = src[i];
        push_char(&mut result, digit_upper_case(b / 16) as char);
        push_char(&mut result, digit_upper_case(b % 16) as char);
        assert(src@.subrange(0, i + 1).drop_last() =~= src@.subrange(0, i as int));
        i = i + 1;
    }
    assert(src@.subrange(0, src@.len() as int) =~= src@);
    result
}

} // verus!
