//! A byte held as its two hexadecimal digits.
use super::utils::{
    byte_to_hex, byte_to_hex_upper_case, hex_digit, hex_digit_upper_case, hex_symbol_value,
    hex_to_byte, is_hex_symbol,
};
use crate::date_time::format::{push_nat, push_str};
use vstd::prelude::*;
use vstd::string::StringSliceAdditionalSpecFns;

verus! {

/// `std::str::from_utf8` on ASCII bytes, which are valid UTF-8: the text of those bytes
/// (the error arm is never taken on such bytes).
#[verifier::external_body]
fn ascii_str(bytes: &[u8]) -> (r: &str)
    requires
        forall|i: int| 0 <= i < bytes@.len() ==> #[trigger] bytes@[i] < 128,
    ensures
        r@ == bytes@.map_values(|b: u8| b as char),
{
    match std::str::from_utf8(bytes) {
        Ok(s) => s,
        Err(_) => "",
    }
}

/// Two hexadecimal digits, the high half of the byte first.
#[derive(Debug, Clone, Copy)]
pub struct HexU8([u8; 2]);

impl HexU8 {
    #[verifier::type_invariant]
    spec fn holds_hex_digits(self) -> bool {
        is_hex_symbol(self.0@[0]) && is_hex_symbol(self.0@[1])
    }
}

impl View for HexU8 {
    type V = Seq<u8>;

    /// The two digits.
    closed spec fn view(&self) -> Seq<u8> {
        self.0@
    }
}

/// What reading one or two hexadecimal digits gives: a single digit gets a leading zero; a
/// text of another length, or with a byte that is no hexadecimal digit, is refused with a
/// message that says so.
pub open spec fn read_hex_u8(value: &str, r: Result<HexU8, String>) -> bool {
    match r {
        Ok(h) => (value.spec_bytes().len() == 1 && is_hex_symbol(value.spec_bytes()[0])
            && h@ == seq![48u8, value.spec_bytes()[0]]) || (value.spec_bytes().len() == 2
            && is_hex_symbol(value.spec_bytes()[0]) && is_hex_symbol(value.spec_bytes()[1])
            && h@ == value.spec_bytes()),
        Err(e) => if value.spec_bytes().len() == 1 || value.spec_bytes().len() == 2 {
            !(forall|i: int|
                0 <= i < value.spec_bytes().len() ==> is_hex_symbol(
                    #[trigger] value.spec_bytes()[i],
                )) && e@ == "Invalid hex digit: "@ + value@
        } else {
            e@ == "Invalid hex u8 string len="@ + crate::date_time::format::nat_digits(
                value.spec_bytes().len(),
            )
        },
    }
}

impl HexU8 {
    /// The lower case digits of a byte.
    pub fn new(decimal_value: u8) -> (r: Self)
        ensures
            r@ == seq![hex_digit((decimal_value / 16) as int), hex_digit((decimal_value % 16) as int)],
    {
        Self(byte_to_hex(decimal_value))
    }

    /// The upper case digits of a byte.
    pub fn new_uppercase(decimal_value: u8) -> (r: Self)
        ensures
            r@ == seq![
                hex_digit_upper_case((decimal_value / 16) as int),
                hex_digit_upper_case((decimal_value % 16) as int),
            ],
    {
        Self(byte_to_hex_upper_case(decimal_value))
    }

    /// The digits as text.
    pub fn as_str(&self) -> (r: &str)
        ensures
            r@ == seq![self@[0] as char, self@[1] as char],
    {
        proof {
            use_type_invariant(self);
        }
        let r = ascii_str(self.0.as_slice());
        assert(r@ =~= seq![self@[0] as char, self@[1] as char]);
        r
    }

    /// The byte the digits spell.
    pub fn to_u8(&self) -> (r: u8)
        ensures
            r == hex_symbol_value(self@[0]) * 16 + hex_symbol_value(self@[1]),
    {
        proof {
            use_type_invariant(self);
        }
        hex_to_byte(self.0.as_slice())
    }

    /// One or two hexadecimal digits; a single digit gets a leading zero.
    pub fn try_from_str(value: &str) -> (r: Result<Self, String>)
        ensures
            read_hex_u8(value, r),
    {
        let value_bytes = value.as_bytes();
        let len = value_bytes.len();
        if len == 1 {
            if !is_hex_byte(value_bytes[0]) {
                return Err(hex_digit_error(value));
            }
            let result = [48u8, value_bytes[0]];
            assert(result@ =~= seq![48u8, value.spec_bytes()[0]]);
            return Ok(HexU8(result));
        }
        if len == 2 {
            if !is_hex_byte(value_bytes[0]) {
                return Err(hex_digit_error(value));
            }
            if !is_hex_byte(value_bytes[1]) {
                return Err(hex_digit_error(value));
            }
            let result = [value_bytes[0], value_bytes[1]];
            assert(result@ =~= value.spec_bytes());
            return Ok(HexU8(result));
        }
        let mut e = String::new();
        push_str(&mut e, "Invalid hex u8 string len=");
        push_nat(&mut e, len as u64);
        Err(e)
    }
}

/// `u8::is_ascii_hexdigit`.
fn is_hex_byte(c: u8) -> (r: bool)
    ensures
        r == is_hex_symbol(c),
{
    (c >= 48 && c <= 57) || (c >= 97 && c <= 102) || (c >= 65 && c <= 70)
}

fn hex_digit_error(value: &str) -> (r: String)
    ensures
        r@ == "Invalid hex digit: "@ + value@,
{
    let mut e = String::new();
    push_str(&mut e, "Invalid hex digit: ");
    push_str(&mut e, value);
    e
}

impl From<u8> for HexU8 {
    /// The lower case digits of a byte.
    fn from(v: u8) -> (r: Self)
        ensures
            r@ == seq![hex_digit((v / 16) as int), hex_digit((v % 16) as int)],
    {
        let r = HexU8::new(v);
        proof {
            let a: [u8; 2] = [hex_digit((v / 16) as int), hex_digit((v % 16) as int)];
            assert(r.0 =~= a);
        }
        r
    }
}

impl vstd::std_specs::convert::FromSpecImpl<u8> for HexU8 {
    open spec fn obeys_from_spec() -> bool {
        true
    }

    closed spec fn from_spec(v: u8) -> Self {
        HexU8([hex_digit((v / 16) as int), hex_digit((v % 16) as int)])
    }
}

impl<'s> TryFrom<&'s str> for HexU8 {
    type Error = String;

    /// One or two hexadecimal digits, as `HexU8::try_from_str` reads them.
    fn try_from(value: &'s str) -> (r: Result<Self, String>)
        ensures
            read_hex_u8(value, r),
    {
        HexU8::try_from_str(value)
    }
}

impl<'s> vstd::std_specs::convert::TryFromSpecImpl<&'s str> for HexU8 {
    /// The error text is not stated here: `try_from_str` says what it returns.
    open spec fn obeys_try_from_spec() -> bool {
        false
    }

    closed spec fn try_from_spec(value: &'s str) -> Result<Self, String> {
        Err(arbitrary())
    }
}

} // verus!
