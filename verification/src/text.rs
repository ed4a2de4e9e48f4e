//! What the library reads from text and writes as text: numerals, hexadecimal
//! bytes, JSON strings and the lower-case form of an address.
//!
//! The conversions themselves are made by `std`, `ruint`, `const-hex`,
//! `alloy-primitives` and `serde_json`. Each call stands in a small function
//! of this module whose contract is taken on trust from the called function's
//! documentation and source; nothing else in the library is.

use alloy::hex::FromHexError;
use alloy::primitives::aliases::U192;
use alloy::primitives::ruint::ParseError;
use alloy::primitives::Address;
use alloy::primitives::Uint;
use alloy::primitives::U256;
use vstd::prelude::*;

use crate::word::limb_base;
use crate::word::limbs_value;
use crate::word::word_limit;

verus! {

/// The error of `ruint`'s parser. Nothing of its contents is read.
#[verifier::external_type_specification]
#[verifier::external_body]
pub struct ExParseError(ParseError);

/// The error of `serde_json`. Nothing of its contents is read.
#[verifier::external_type_specification]
#[verifier::external_body]
pub struct ExJsonError(serde_json::Error);

/// The error of `const-hex`'s decoder. Nothing of its contents is read.
#[verifier::external_type_specification]
#[verifier::external_body]
pub struct ExFromHexError(FromHexError);

/// The lower-case form that `str::to_lowercase` gives a text.
pub uninterp spec fn lowercase_of(text: Seq<char>) -> Seq<char>;

/// The digit that a character stands for in the radix given, for a radix of at
/// most 36: the decimal digits, then the letters in either case.
pub open spec fn digit_value(c: char, radix: nat) -> Option<nat> {
    let digit: nat = if '0' <= c <= '9' {
        (c as nat - '0' as nat) as nat
    } else if 'a' <= c <= 'z' {
        (c as nat - 'a' as nat + 10) as nat
    } else if 'A' <= c <= 'Z' {
        (c as nat - 'A' as nat + 10) as nat
    } else {
        radix
    };
    if digit < radix {
        Some(digit)
    } else {
        None
    }
}

/// The number that a numeral stands for in the radix given, the most
/// significant digit first. Underscores are passed over, and the empty numeral
/// stands for zero. There is none where a character is no digit of the radix.
pub open spec fn numeral_value(text: Seq<char>, radix: nat) -> Option<nat>
    decreases text.len(),
{
    if text.len() == 0 {
        Some(0)
    } else if text.last() == '_' {
        numeral_value(text.drop_last(), radix)
    } else {
        match (numeral_value(text.drop_last(), radix), digit_value(text.last(), radix)) {
            (Some(front), Some(digit)) => Some(front * radix + digit),
            _ => None,
        }
    }
}

/// The number of a numeral, where it has one and a word can hold it.
pub open spec fn word_of_numeral(text: Seq<char>, radix: nat) -> Option<nat> {
    match numeral_value(text, radix) {
        Some(number) => if number < word_limit() {
            Some(number)
        } else {
            None
        },
        None => None,
    }
}

/// The character of a hexadecimal digit, in lower case.
pub open spec fn hex_digit(digit: nat) -> char
    recommends
        digit < 16,
{
    seq!['0', '1', '2', '3', '4', '5', '6', '7', '8', '9', 'a', 'b', 'c', 'd', 'e', 'f'][digit as int]
}

/// The hexadecimal text of some bytes: two lower-case digits for each byte, the
/// high one first.
pub open spec fn hex_text(bytes: Seq<u8>) -> Seq<char> {
    Seq::new(
        2 * bytes.len(),
        |k: int|
            if k % 2 == 0 {
                hex_digit((bytes[k / 2] / 16) as nat)
            } else {
                hex_digit((bytes[k / 2] % 16) as nat)
            },
    )
}

/// The decimal numeral of a number, without leading zeros.
pub open spec fn decimal_text(number: nat) -> Seq<char>
    decreases number,
{
    if number < 10 {
        seq![hex_digit(number)]
    } else {
        decimal_text(number / 10).push(hex_digit(number % 10))
    }
}

/// The number that five limbs stand for, least significant limb first.
pub open spec fn wide_limbs_value(limbs: Seq<u64>) -> nat
    recommends
        limbs.len() == 5,
{
    (limbs[0] as nat) + limb_base() * ((limbs[1] as nat) + limb_base() * ((limbs[2] as nat)
        + limb_base() * ((limbs[3] as nat) + limb_base() * (limbs[4] as nat))))
}

/// What JSON writes for one character of a string: an escape for the double
/// quote, the backslash and the control characters, and else the character.
pub open spec fn json_escape(c: char) -> Seq<char> {
    if c == '"' {
        seq!['\\', '"']
    } else if c == '\\' {
        seq!['\\', '\\']
    } else if c == '\u{8}' {
        seq!['\\', 'b']
    } else if c == '\t' {
        seq!['\\', 't']
    } else if c == '\n' {
        seq!['\\', 'n']
    } else if c == '\u{c}' {
        seq!['\\', 'f']
    } else if c == '\r' {
        seq!['\\', 'r']
    } else if (c as nat) < 0x20 {
        seq!['\\', 'u', '0', '0', hex_digit((c as nat) / 16), hex_digit((c as nat) % 16)]
    } else {
        seq![c]
    }
}

/// What JSON writes for the characters of a string, in their order.
pub open spec fn json_escaped(text: Seq<char>) -> Seq<char>
    decreases text.len(),
{
    if text.len() == 0 {
        Seq::empty()
    } else {
        json_escaped(text.drop_last()) + json_escape(text.last())
    }
}

/// The JSON string of a text: the text between double quotes, with the
/// characters escaped that JSON asks for.
pub open spec fn json_string_of(text: Seq<char>) -> Seq<char> {
    seq!['"'] + json_escaped(text) + seq!['"']
}

/// A text without `0x` or `0X` in front, where it starts with one of them.
pub open spec fn unprefixed(text: Seq<char>) -> Seq<char> {
    if text.len() >= 2 && text[0] == '0' && (text[1] == 'x' || text[1] == 'X') {
        text.skip(2)
    } else {
        text
    }
}

/// The twenty bytes that a text stands for as an address: forty hexadecimal
/// digits in either case, with or without `0x` in front, two for each byte.
pub open spec fn address_bytes(text: Seq<char>) -> Option<Seq<u8>> {
    let digits = unprefixed(text);
    if digits.len() == 40 && (forall|i: int|
        0 <= i < 40 ==> digit_value(#[trigger] digits[i], 16) is Some) {
        Some(
            Seq::new(
                20,
                |i: int|
                    (16 * digit_value(digits[2 * i], 16).unwrap() + digit_value(
                        digits[2 * i + 1],
                        16,
                    ).unwrap()) as u8,
            ),
        )
    } else {
        None
    }
}

/// The number of a numeral, where it has one below the limit.
pub open spec fn bounded_numeral(text: Seq<char>, radix: nat, limit: nat) -> Option<nat> {
    match numeral_value(text, radix) {
        Some(number) => if number < limit {
            Some(number)
        } else {
            None
        },
        None => None,
    }
}

/// The number of a numeral that may name its radix in front: `0x` for 16,
/// `0o` for 8 and `0b` for 2, in either case, and decimal without. There is
/// one where the numeral has a number below the limit.
pub open spec fn prefixed_number(text: Seq<char>, limit: nat) -> Option<nat> {
    if text.len() >= 2 && text[0] == '0' && (text[1] == 'x' || text[1] == 'X') {
        bounded_numeral(text.skip(2), 16, limit)
    } else if text.len() >= 2 && text[0] == '0' && (text[1] == 'o' || text[1] == 'O') {
        bounded_numeral(text.skip(2), 8, limit)
    } else if text.len() >= 2 && text[0] == '0' && (text[1] == 'b' || text[1] == 'B') {
        bounded_numeral(text.skip(2), 2, limit)
    } else {
        bounded_numeral(text, 10, limit)
    }
}

/// Two to the power of 192: the first number that no flow holds.
pub open spec fn flow_limit() -> nat {
    limb_base() * (limb_base() * limb_base())
}

/// The number that three limbs stand for, least significant limb first.
pub open spec fn flow_limbs_value(limbs: Seq<u64>) -> nat
    recommends
        limbs.len() == 3,
{
    (limbs[0] as nat) + limb_base() * ((limbs[1] as nat) + limb_base() * (limbs[2] as nat))
}

/// Calls `str::to_lowercase`. Its result is a function of the text alone, and
/// is known here only by the name `lowercase_of`.
#[verifier::external_body]
pub(crate) fn lowercase(text: &str) -> (lower: String)
    ensures
        lower@ == lowercase_of(text@),
{
    text.to_lowercase()
}

/// Calls `Uint::from_str_radix` for 256 bits and hands out the limbs, least
/// significant first. For a radix from 2 to 36 the call succeeds exactly on the
/// numerals of that radix whose number is below two to the power of 256, and
/// gives that number.
#[verifier::external_body]
pub(crate) fn parse_limbs(text: &str, radix: u64) -> (parsed: Result<[u64; 4], ParseError>)
    requires
        2 <= radix <= 36,
    ensures
        parsed is Ok <==> word_of_numeral(text@, radix as nat) is Some,
        parsed matches Ok(limbs) ==> word_of_numeral(text@, radix as nat) == Some(
            limbs_value(limbs@),
        ),
{
    match U256::from_str_radix(text, radix) {
        Ok(number) => Ok(number.into_limbs()),
        Err(error) => Err(error),
    }
}

/// Calls `Uint::to_string` for 320 bits, on the limbs given, least significant
/// first: the decimal numeral of the number.
#[verifier::external_body]
pub(crate) fn render_decimal(limbs: [u64; 5]) -> (numeral: String)
    ensures
        numeral@ == decimal_text(wide_limbs_value(limbs@)),
{
    Uint::<320, 5>::from_limbs(limbs).to_string()
}

/// Calls `hex::encode`: the bytes in lower-case hexadecimal, without a prefix.
#[verifier::external_body]
pub(crate) fn hex_encode(bytes: &[u8]) -> (encoded: String)
    ensures
        encoded@ == hex_text(bytes@),
{
    alloy::hex::encode(bytes)
}

/// Calls `serde_json::to_string` on a text. Writing a text into memory cannot
/// fail, so the call succeeds, and gives the JSON string of the text.
#[verifier::external_body]
pub(crate) fn json_string(text: &str) -> (quoted: Result<String, serde_json::Error>)
    ensures
        quoted is Ok,
        quoted matches Ok(written) ==> written@ == json_string_of(text@),
{
    serde_json::to_string(text)
}

/// Calls `Address::from_str` and hands out the bytes. The call succeeds
/// exactly on forty hexadecimal digits in either case, with or without `0x`
/// in front, and gives the bytes that they stand for.
#[verifier::external_body]
pub(crate) fn parse_address(text: &str) -> (parsed: Result<[u8; 20], FromHexError>)
    ensures
        parsed is Ok <==> address_bytes(text@) is Some,
        parsed matches Ok(bytes) ==> address_bytes(text@) == Some(bytes@),
{
    match text.parse::<Address>() {
        Ok(address) => Ok(address.0.0),
        Err(error) => Err(error),
    }
}

/// Calls `Uint::from_str` for 256 bits and hands out the limbs, least
/// significant first. The call succeeds exactly on the numerals, with or
/// without their radix in front, whose number is below two to the power of
/// 256, and gives that number.
#[verifier::external_body]
pub(crate) fn parse_prefixed_word(text: &str) -> (parsed: Result<[u64; 4], ParseError>)
    ensures
        parsed is Ok <==> prefixed_number(text@, word_limit()) is Some,
        parsed matches Ok(limbs) ==> prefixed_number(text@, word_limit()) == Some(
            limbs_value(limbs@),
        ),
{
    match text.parse::<U256>() {
        Ok(number) => Ok(number.into_limbs()),
        Err(error) => Err(error),
    }
}

/// Calls `Uint::from_str` for 192 bits and hands out the limbs, least
/// significant first. The call succeeds exactly on the numerals, with or
/// without their radix in front, whose number is below two to the power of
/// 192, and gives that number.
#[verifier::external_body]
pub(crate) fn parse_prefixed_flow(text: &str) -> (parsed: Result<[u64; 3], ParseError>)
    ensures
        parsed is Ok <==> prefixed_number(text@, flow_limit()) is Some,
        parsed matches Ok(limbs) ==> prefixed_number(text@, flow_limit()) == Some(
            flow_limbs_value(limbs@),
        ),
{
    match text.parse::<U192>() {
        Ok(number) => Ok(number.into_limbs()),
        Err(error) => Err(error),
    }
}

} // verus!
