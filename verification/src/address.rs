//! Addresses and amounts as the library reads them.
//!
//! An address in canonical form is `0x` and then one to forty hexadecimal
//! digits in lower case: an identifier of at most twenty bytes. Its number is
//! what the digits stand for. An amount is a decimal numeral of digits alone,
//! below two to the power of 256.

use vstd::prelude::*;

use crate::text::numeral_value;
use crate::text::parse_limbs;
use crate::text::word_of_numeral;
use crate::word::word_limit;
use crate::word::Word;

verus! {

/// The most digits that an address has: two for each of its twenty bytes.
pub const MAX_ADDRESS_DIGITS: usize = 40;

/// The prefix that marks hexadecimal text.
pub open spec fn hex_prefix() -> Seq<char> {
    seq!['0', 'x']
}

/// Whether a character is a decimal digit.
pub open spec fn is_decimal_digit(c: char) -> bool {
    '0' <= c <= '9'
}

/// Whether a character is a hexadecimal digit in lower case.
pub open spec fn is_hex_digit(c: char) -> bool {
    ('0' <= c <= '9') || ('a' <= c <= 'f')
}

/// Whether every character from `start` on is a digit: a hexadecimal one in
/// lower case where `hex` is set, and a decimal one where not.
pub open spec fn digits_from(text: Seq<char>, start: int, hex: bool) -> bool {
    forall|i: int|
        start <= i < text.len() ==> if hex {
            is_hex_digit(#[trigger] text[i])
        } else {
            is_decimal_digit(text[i])
        }
}

/// Whether a text is an address in canonical form: `0x`, then one to forty
/// hexadecimal digits in lower case.
pub open spec fn well_formed_address(text: Seq<char>) -> bool {
    &&& 3 <= text.len() <= MAX_ADDRESS_DIGITS + 2
    &&& text[0] == '0'
    &&& text[1] == 'x'
    &&& digits_from(text, 2, true)
}

/// Whether a text is an amount: one decimal digit or more, and nothing else.
pub open spec fn well_formed_amount(text: Seq<char>) -> bool {
    &&& text.len() > 0
    &&& digits_from(text, 0, false)
}

/// The number of an address in canonical form, where the text is one.
pub open spec fn canonical_number(canonical: Seq<char>) -> Option<nat> {
    if well_formed_address(canonical) {
        word_of_numeral(canonical.skip(2), 16)
    } else {
        None
    }
}

/// The number of an amount, where the text is one and the number is below two
/// to the power of 256.
pub open spec fn amount_number(text: Seq<char>) -> Option<nat> {
    if well_formed_amount(text) {
        word_of_numeral(text, 10)
    } else {
        None
    }
}

/// Whether every character of an ASCII text from `start` on is a digit.
fn only_digits(text: &str, start: usize, hex: bool) -> (all: bool)
    requires
        text.is_ascii(),
        start <= text@.len(),
    ensures
        all == digits_from(text@, start as int, hex),
{
    let end = text.unicode_len();
    let mut i: usize = start;
    while i < end
        invariant
            text.is_ascii(),
            start <= i <= end,
            end == text@.len(),
            forall|j: int|
                start <= j < i ==> if hex {
                    is_hex_digit(#[trigger] text@[j])
                } else {
                    is_decimal_digit(text@[j])
                },
        decreases end - i,
    {
        let byte = text.get_ascii(i);
        proof {
            assert(text@[i as int] as nat == byte as nat) by {
                assert(vstd::utf8::is_ascii_chars(text@));
            }
        }
        let decimal = 48 <= byte && byte <= 57;
        let letter = 97 <= byte && byte <= 102;
        if !(decimal || (hex && letter)) {
            return false;
        }
        i += 1;
    }
    true
}

/// Reads the number of an address in canonical form. There is a result
/// exactly where the text is such an address.
pub fn read_canonical(canonical: &str) -> (number: Option<Word>)
    ensures
        number is Some <==> well_formed_address(canonical@),
        number is Some <==> canonical_number(canonical@) is Some,
        number matches Some(word) ==> canonical_number(canonical@) == Some(word.value()),
{
    if !canonical.is_ascii() {
        proof {
            lemma_digits_are_ascii(canonical@, 2, true);
        }
        return None;
    }
    let length = canonical.unicode_len();
    if length < 3 || length > MAX_ADDRESS_DIGITS + 2 {
        return None;
    }
    let zero = canonical.get_ascii(0);
    let mark = canonical.get_ascii(1);
    proof {
        assert(vstd::utf8::is_ascii_chars(canonical@));
        assert(canonical@[0] as nat == zero as nat);
        assert(canonical@[1] as nat == mark as nat);
    }
    if zero != 48 || mark != 120 {
        return None;
    }
    if !only_digits(canonical, 2, true) {
        return None;
    }
    let digits = canonical.substring_ascii(2, length);
    proof {
        assert(digits@ =~= canonical@.skip(2));
        lemma_well_formed_address_has_number(canonical@);
    }
    match parse_limbs(digits, 16) {
        Ok(limbs) => Some(Word::from_limbs(limbs)),
        Err(_) => None,
    }
}

/// Reads an amount. There is a result exactly where the amount has a number.
pub fn parse_amount(text: &str) -> (amount: Option<Word>)
    ensures
        amount is Some <==> amount_number(text@) is Some,
        amount matches Some(word) ==> amount_number(text@) == Some(word.value()),
{
    if !text.is_ascii() {
        proof {
            lemma_digits_are_ascii(text@, 0, false);
        }
        return None;
    }
    if text.unicode_len() == 0 || !only_digits(text, 0, false) {
        return None;
    }
    match parse_limbs(text, 10) {
        Ok(limbs) => Some(Word::from_limbs(limbs)),
        Err(_) => None,
    }
}

/// A text that is digits from `start` on, and `0x` before where `start` is 2,
/// is ASCII.
pub proof fn lemma_digits_are_ascii(text: Seq<char>, start: int, hex: bool)
    requires
        !vstd::utf8::is_ascii_chars(text),
        start == 0 || start == 2,
    ensures
        start == 0 ==> !digits_from(text, 0, hex),
        start == 2 ==> !(text.len() >= 2 && text[0] == '0' && text[1] == 'x' && digits_from(
            text,
            2,
            hex,
        )),
{
    let i = choose|i: int| 0 <= i < text.len() && !('\0' <= #[trigger] text[i] <= '\u{7f}');
    assert(!is_hex_digit(text[i]) && !is_decimal_digit(text[i]));
}

/// Sixteen to the power of `exponent`.
pub open spec fn sixteen_to(exponent: nat) -> nat
    decreases exponent,
{
    if exponent == 0 {
        1
    } else {
        16 * sixteen_to((exponent - 1) as nat)
    }
}

/// Hexadecimal digits stand for a number below sixteen to the power of their
/// count.
pub proof fn lemma_hex_numeral_bound(digits: Seq<char>)
    requires
        digits_from(digits, 0, true),
    ensures
        numeral_value(digits, 16) is Some,
        numeral_value(digits, 16).unwrap() < sixteen_to(digits.len()),
    decreases digits.len(),
{
    if digits.len() > 0 {
        let front = digits.drop_last();
        assert forall|i: int| 0 <= i < front.len() implies is_hex_digit(#[trigger] front[i]) by {
            assert(front[i] == digits[i]);
        }
        lemma_hex_numeral_bound(front);
        assert(is_hex_digit(digits[digits.len() - 1]));
    }
}

/// The powers of sixteen do not descend.
pub proof fn lemma_sixteen_to_ascends(low: nat, high: nat)
    requires
        low <= high,
    ensures
        sixteen_to(low) <= sixteen_to(high),
    decreases high - low,
{
    if low < high {
        lemma_sixteen_to_ascends(low, (high - 1) as nat);
    }
}

/// Every well-formed address has a number: a word holds forty hexadecimal
/// digits.
pub proof fn lemma_well_formed_address_has_number(text: Seq<char>)
    requires
        well_formed_address(text),
    ensures
        canonical_number(text) is Some,
        canonical_number(text) == numeral_value(text.skip(2), 16),
{
    let digits = text.skip(2);
    assert forall|i: int| 0 <= i < digits.len() implies is_hex_digit(#[trigger] digits[i]) by {
        assert(digits[i] == text[i + 2]);
    }
    lemma_hex_numeral_bound(digits);
    lemma_sixteen_to_ascends(digits.len(), 40);
    assert(sixteen_to(40) < word_limit()) by {
        reveal_with_fuel(sixteen_to, 41);
    }
}

} // verus!
