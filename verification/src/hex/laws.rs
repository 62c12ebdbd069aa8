//! What writing and reading hexadecimal digits promise together: reading back what was
//! written gives the number or the bytes that were written.
use super::utils::{
    all_hex, hex_bytes, hex_digit, hex_digit_upper_case, hex_symbol_value, hex_text,
    hex_text_upper_case, hex_value, is_hex_symbol,
};
use vstd::prelude::*;

verus! {

/// The digits of a value below 16 are hexadecimal digits of that value.
proof fn lemma_digit(n: int)
    requires
        0 <= n < 16,
    ensures
        is_hex_symbol(hex_digit(n)),
        hex_symbol_value(hex_digit(n)) == n,
        is_hex_symbol(hex_digit_upper_case(n)),
        hex_symbol_value(hex_digit_upper_case(n)) == n,
{
}

/// Reading the two digits of a byte (in either case) gives the byte back.
pub proof fn law_byte_hex_round_trip(b: u8)
    ensures
        is_hex_symbol(hex_digit((b / 16) as int)) && is_hex_symbol(hex_digit((b % 16) as int)),
        hex_symbol_value(hex_digit((b / 16) as int)) * 16 + hex_symbol_value(
            hex_digit((b % 16) as int),
        ) == b,
        hex_symbol_value(hex_digit_upper_case((b / 16) as int)) * 16 + hex_symbol_value(
            hex_digit_upper_case((b % 16) as int),
        ) == b,
{
    lemma_digit((b / 16) as int);
    lemma_digit((b % 16) as int);
}

/// Reading the four digits of a 16 bit number gives the number back.
pub proof fn law_word_hex_round_trip(w: u16)
    ensures
        ({
            let digits = seq![
                hex_digit((w / 4096) as int),
                hex_digit(((w / 256) % 16) as int),
                hex_digit(((w / 16) % 16) as int),
                hex_digit((w % 16) as int),
            ];
            all_hex(digits) && hex_value(digits) == w
        }),
{
    let digits = seq![
        hex_digit((w / 4096) as int),
        hex_digit(((w / 256) % 16) as int),
        hex_digit(((w / 16) % 16) as int),
        hex_digit((w % 16) as int),
    ];
    lemma_digit((w / 4096) as int);
    lemma_digit(((w / 256) % 16) as int);
    lemma_digit(((w / 16) % 16) as int);
    lemma_digit((w % 16) as int);
    reveal_with_fuel(hex_value, 5);
    assert(digits.drop_last() =~= seq![digits[0], digits[1], digits[2]]);
    assert(digits.drop_last().drop_last() =~= seq![digits[0], digits[1]]);
    assert(digits.drop_last().drop_last().drop_last() =~= seq![digits[0]]);
    assert(digits.drop_last().drop_last().drop_last().drop_last() =~= Seq::<u8>::empty());
}

/// The digits of the bytes, two per byte.
proof fn lemma_hex_text(bytes: Seq<u8>)
    ensures
        hex_text(bytes).len() == 2 * bytes.len(),
        hex_text_upper_case(bytes).len() == 2 * bytes.len(),
        forall|i: int|
            0 <= i < bytes.len() ==> hex_text(bytes)[2 * i] == hex_digit((bytes[i] / 16) as int)
                as char && hex_text(bytes)[2 * i + 1] == hex_digit((bytes[i] % 16) as int) as char
                && hex_text_upper_case(bytes)[2 * i] == hex_digit_upper_case(
                (bytes[i] / 16) as int,
            ) as char && hex_text_upper_case(bytes)[2 * i + 1] == hex_digit_upper_case(
                (bytes[i] % 16) as int,
            ) as char,
    decreases bytes.len(),
{
    if bytes.len() > 0 {
        let prev = bytes.drop_last();
        lemma_hex_text(prev);
        assert forall|i: int| 0 <= i < bytes.len() implies hex_text(bytes)[2 * i] == hex_digit(
            (bytes[i] / 16) as int,
        ) as char && hex_text(bytes)[2 * i + 1] == hex_digit((bytes[i] % 16) as int) as char
            && hex_text_upper_case(bytes)[2 * i] == hex_digit_upper_case((bytes[i] / 16) as int)
            as char && hex_text_upper_case(bytes)[2 * i + 1] == hex_digit_upper_case(
            (bytes[i] % 16) as int,
        ) as char by {
            if i < bytes.len() - 1 {
                assert(prev[i] == bytes[i]);
            }
        }
    }
}

/// Reading back the digits that bytes are written as (in either case) gives the bytes.
pub proof fn law_hex_array_round_trip(bytes: Seq<u8>)
    ensures
        ({
            let lower = hex_text(bytes).map_values(|c: char| c as u8);
            lower.len() % 2 == 0 && all_hex(lower) && hex_bytes(lower) == bytes
        }),
        ({
            let upper = hex_text_upper_case(bytes).map_values(|c: char| c as u8);
            upper.len() % 2 == 0 && all_hex(upper) && hex_bytes(upper) == bytes
        }),
{
    lemma_hex_text(bytes);
    let lower = hex_text(bytes).map_values(|c: char| c as u8);
    let upper = hex_text_upper_case(bytes).map_values(|c: char| c as u8);
    assert forall|i: int| 0 <= i < bytes.len() implies lower[2 * i] == hex_digit(
        (bytes[i] / 16) as int,
    ) && lower[2 * i + 1] == hex_digit((bytes[i] % 16) as int) && upper[2 * i]
        == hex_digit_upper_case((bytes[i] / 16) as int) && upper[2 * i + 1]
        == hex_digit_upper_case((bytes[i] % 16) as int) by {
        law_byte_hex_round_trip(bytes[i]);
        lemma_digit((bytes[i] / 16) as int);
        lemma_digit((bytes[i] % 16) as int);
    }
    assert forall|j: int| 0 <= j < lower.len() implies is_hex_symbol(#[trigger] lower[j]) by {
        let i = j / 2;
        lemma_digit((bytes[i] / 16) as int);
        lemma_digit((bytes[i] % 16) as int);
        assert(j == 2 * i || j == 2 * i + 1);
    }
    assert forall|j: int| 0 <= j < upper.len() implies is_hex_symbol(#[trigger] upper[j]) by {
        let i = j / 2;
        lemma_digit((bytes[i] / 16) as int);
        lemma_digit((bytes[i] % 16) as int);
        assert(j == 2 * i || j == 2 * i + 1);
    }
    assert forall|i: int| 0 <= i < bytes.len() implies hex_bytes(lower)[i] == bytes[i]
        && hex_bytes(upper)[i] == bytes[i] by {
        law_byte_hex_round_trip(bytes[i]);
    }
    assert(hex_bytes(lower) =~= bytes);
    assert(hex_bytes(upper) =~= bytes);
}

} // verus!
