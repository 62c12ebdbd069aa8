use rust_extensions::hex::hex_u8::HexU8;
use rust_extensions::hex::utils::{
    array_of_bytes_to_hex, array_of_bytes_to_hex_upper_case, byte_to_hex, byte_to_hex_upper_case,
    hex_array_to_bytes, hex_symbol_to_byte, hex_to_byte, hex_to_word, word_to_hex,
};

#[test]
fn test_hex_chars() {
    assert_eq!(hex_symbol_to_byte(b'0'), 0);
    assert_eq!(hex_symbol_to_byte(b'1'), 1);
    assert_eq!(hex_symbol_to_byte(b'2'), 2);
    assert_eq!(hex_symbol_to_byte(b'3'), 3);
    assert_eq!(hex_symbol_to_byte(b'4'), 4);
    assert_eq!(hex_symbol_to_byte(b'5'), 5);
    assert_eq!(hex_symbol_to_byte(b'6'), 6);
    assert_eq!(hex_symbol_to_byte(b'7'), 7);
    assert_eq!(hex_symbol_to_byte(b'8'), 8);
    assert_eq!(hex_symbol_to_byte(b'9'), 9);
    assert_eq!(hex_symbol_to_byte(b'a'), 10);
    assert_eq!(hex_symbol_to_byte(b'b'), 11);
    assert_eq!(hex_symbol_to_byte(b'c'), 12);
    assert_eq!(hex_symbol_to_byte(b'd'), 13);
    assert_eq!(hex_symbol_to_byte(b'e'), 14);
    assert_eq!(hex_symbol_to_byte(b'f'), 15);
    assert_eq!(hex_symbol_to_byte(b'A'), 10);
    assert_eq!(hex_symbol_to_byte(b'B'), 11);
    assert_eq!(hex_symbol_to_byte(b'C'), 12);
    assert_eq!(hex_symbol_to_byte(b'D'), 13);
    assert_eq!(hex_symbol_to_byte(b'E'), 14);
    assert_eq!(hex_symbol_to_byte(b'F'), 15);
}

#[test]
fn test_hex_bytes() {
    assert_eq!(hex_to_byte(b"0"), 0);
    assert_eq!(hex_to_byte(b"1"), 1);
    assert_eq!(hex_to_byte(b"2"), 2);
    assert_eq!(hex_to_byte(b"3"), 3);
    assert_eq!(hex_to_byte(b"4"), 4);
    assert_eq!(hex_to_byte(b"5"), 5);
    assert_eq!(hex_to_byte(b"6"), 6);
    assert_eq!(hex_to_byte(b"7"), 7);
    assert_eq!(hex_to_byte(b"8"), 8);
    assert_eq!(hex_to_byte(b"9"), 9);

    assert_eq!(hex_to_byte(b"00"), 0);
    assert_eq!(hex_to_byte(b"01"), 1);
    assert_eq!(hex_to_byte(b"02"), 2);
    assert_eq!(hex_to_byte(b"03"), 3);
    assert_eq!(hex_to_byte(b"04"), 4);
    assert_eq!(hex_to_byte(b"05"), 5);

    assert_eq!(hex_to_byte(b"0a"), 10);
    assert_eq!(hex_to_byte(b"0A"), 10);

    assert_eq!(hex_to_byte(b"0f"), 15);
    assert_eq!(hex_to_byte(b"0F"), 15);

    assert_eq!(hex_to_byte(b"10"), 16);
    assert_eq!(hex_to_byte(b"10"), 16);

    assert_eq!(hex_to_byte(b"a1"), 161);
    assert_eq!(hex_to_byte(b"A1"), 161);

    assert_eq!(hex_to_byte(b"ff"), 255);
    assert_eq!(hex_to_byte(b"fF"), 255);
}

#[test]
fn test_hex_words() {
    assert_eq!(hex_to_word(b"0"), 0);
    assert_eq!(hex_to_word(b"00"), 0);
    assert_eq!(hex_to_word(b"f3db"), 62427);
    assert_eq!(hex_to_word(b"f3Db"), 62427);
}

#[test]
fn test_byte_to_hex() {
    assert_eq!(byte_to_hex(0), [b'0', b'0']);
    assert_eq!(byte_to_hex(1), [b'0', b'1']);
    assert_eq!(byte_to_hex(2), [b'0', b'2']);
    assert_eq!(byte_to_hex(3), [b'0', b'3']);
    assert_eq!(byte_to_hex(4), [b'0', b'4']);
    assert_eq!(byte_to_hex(5), [b'0', b'5']);

    assert_eq!(byte_to_hex(10), [b'0', b'a']);
    assert_eq!(byte_to_hex(15), [b'0', b'f']);
    assert_eq!(byte_to_hex(16), [b'1', b'0']);
    assert_eq!(byte_to_hex(161), [b'a', b'1']);
    assert_eq!(byte_to_hex(255), [b'f', b'f']);
}

#[test]
fn test_hex_array() {
    let hex_array = "00010203ed46";
    let as_vec = hex_array_to_bytes(hex_array);
    assert_eq!(as_vec, vec![0, 1, 2, 3, 237, 70]);

    let result_hex = array_of_bytes_to_hex(&as_vec);

    assert_eq!(hex_array, result_hex);

    let result_hex = array_of_bytes_to_hex_upper_case(&as_vec);

    assert_eq!(hex_array.to_ascii_uppercase(), result_hex);
}

#[test]
fn tests() {

    let a = HexU8::new(0x12);
    assert_eq!(a.as_str(), "12");
    assert_eq!(a.to_u8(), 0x12);

    let a: HexU8 = "12".try_into().unwrap();
    assert_eq!(a.as_str(), "12");
    assert_eq!(a.to_u8(), 0x12);

    let a: HexU8 = "2".try_into().unwrap();
    assert_eq!(a.as_str(), "02");
    assert_eq!(a.to_u8(), 0x02);

    let hex_u8 = HexU8::new(0xfa);
    assert_eq!(hex_u8.as_str(), "fa");

    let hex_u8 = HexU8::new_uppercase(0xbc);
    assert_eq!(hex_u8.as_str(), "BC");
}

#[test]
fn every_byte_reads_back_from_its_digits() {
    for b in 0..=255u8 {
        assert_eq!(hex_to_byte(&byte_to_hex(b)), b);
        assert_eq!(hex_to_byte(&byte_to_hex_upper_case(b)), b);
        assert_eq!(HexU8::new(b).to_u8(), b);
        assert_eq!(HexU8::new_uppercase(b).to_u8(), b);
        let into: HexU8 = b.into();
        assert_eq!(into.to_u8(), b);
    }
}

#[test]
fn every_word_reads_back_from_its_digits() {
    for w in [0u16, 1, 15, 16, 255, 256, 4095, 4096, 62427, 65535] {
        let text = word_to_hex(w);
        assert_eq!(text.len(), 4);
        assert_eq!(hex_to_word(text.as_bytes()), w);
    }
    assert_eq!(word_to_hex(62427), "f3db");
    assert_eq!(hex_to_word(b"1"), 1);
    assert_eq!(hex_to_word(b"abc"), 0xabc);
}

#[test]
fn byte_arrays_read_back_from_their_digits() {
    let bytes: Vec<u8> = (0..=255u8).collect();
    assert_eq!(hex_array_to_bytes(&array_of_bytes_to_hex(&bytes)), bytes);
    assert_eq!(hex_array_to_bytes(&array_of_bytes_to_hex_upper_case(&bytes)), bytes);
    assert_eq!(array_of_bytes_to_hex(&[]), "");
    assert_eq!(array_of_bytes_to_hex_upper_case(&[0xab, 0x01]), "AB01");
}

#[test]
fn hex_u8_try_from_reports_bad_input() {
    let err: Result<HexU8, String> = "g".try_into();
    assert_eq!(err.unwrap_err(), "Invalid hex digit: g");
    let err: Result<HexU8, String> = "1x".try_into();
    assert_eq!(err.unwrap_err(), "Invalid hex digit: 1x");
    let err: Result<HexU8, String> = "123".try_into();
    assert_eq!(err.unwrap_err(), "Invalid hex u8 string len=3");
    let err: Result<HexU8, String> = "".try_into();
    assert_eq!(err.unwrap_err(), "Invalid hex u8 string len=0");
    let ok: HexU8 = "Fa".try_into().unwrap();
    assert_eq!(ok.as_str(), "Fa");
    assert_eq!(ok.to_u8(), 0xfa);
}
