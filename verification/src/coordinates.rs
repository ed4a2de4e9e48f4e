//! Packed coordinates: the 16-bit coordinates of a path as bytes, the high
//! byte first, and as the hexadecimal text that is handed on.

use vstd::prelude::*;
use vstd::string::StringExecFns;

use crate::address::hex_prefix;
use crate::text::digit_value;
use crate::text::hex_digit;
use crate::text::hex_encode;
use crate::text::hex_text;

verus! {

/// The bytes of some coordinates: two for each, the high byte first.
pub open spec fn coordinate_bytes(coordinates: Seq<u16>) -> Seq<u8> {
    Seq::new(
        2 * coordinates.len(),
        |k: int|
            if k % 2 == 0 {
                (coordinates[k / 2] / 256) as u8
            } else {
                (coordinates[k / 2] % 256) as u8
            },
    )
}

/// The packed text of some coordinates: `0x`, then their bytes in hexadecimal.
pub open spec fn packed_text(coordinates: Seq<u16>) -> Seq<char> {
    hex_prefix() + hex_text(coordinate_bytes(coordinates))
}

/// The bytes that a hexadecimal text stands for: one for each two digits. A
/// character that is no digit counts as zero.
pub open spec fn bytes_of_hex(text: Seq<char>) -> Seq<u8> {
    Seq::new(
        text.len() / 2,
        |i: int| (16 * hex_value(text[2 * i]) + hex_value(text[2 * i + 1])) as u8,
    )
}

/// The value of a hexadecimal digit, and zero for every other character.
pub open spec fn hex_value(c: char) -> nat {
    match digit_value(c, 16) {
        Some(digit) => digit,
        None => 0,
    }
}

/// The coordinates that some bytes stand for: one for each two bytes, the high
/// byte first.
pub open spec fn coordinates_of_bytes(bytes: Seq<u8>) -> Seq<u16> {
    Seq::new(bytes.len() / 2, |i: int| (256 * (bytes[2 * i] as int) + bytes[2 * i + 1]) as u16)
}

/// The coordinates that a packed text stands for.
pub open spec fn unpacked(text: Seq<char>) -> Seq<u16> {
    coordinates_of_bytes(bytes_of_hex(text.skip(2)))
}

/// Packs coordinates into the text that the settlement function takes.
pub fn pack_coordinates(coordinates: &[u16]) -> (packed: String)
    ensures
        packed@ == packed_text(coordinates@),
{
    let mut bytes: Vec<u8> = Vec::new();
    let mut i: usize = 0;
    while i < coordinates.len()
        invariant
            i <= coordinates@.len(),
            bytes@.len() == 2 * i,
            forall|k: int| 0 <= k < 2 * i ==> bytes@[k] == coordinate_bytes(coordinates@)[k],
        decreases coordinates@.len() - i,
    {
        let coordinate: u16 = coordinates[i];
        bytes.push((coordinate / 256) as u8);
        bytes.push((coordinate % 256) as u8);
        i += 1;
    }
    assert(bytes@ =~= coordinate_bytes(coordinates@));
    let encoded = hex_encode(bytes.as_slice());
    let mut packed = String::from_str("0x");
    proof {
        reveal_strlit("0x");
        assert(packed@ =~= hex_prefix());
    }
    packed.append(encoded.as_str());
    packed
}

/// Every hexadecimal digit is read back as the digit that it was written for.
pub proof fn lemma_hex_digit_round_trip(digit: nat)
    requires
        digit < 16,
    ensures
        hex_value(hex_digit(digit)) == digit,
{
}

/// Bytes written in hexadecimal are read back unchanged.
pub proof fn lemma_hex_round_trip(bytes: Seq<u8>)
    ensures
        hex_text(bytes).len() == 2 * bytes.len(),
        bytes_of_hex(hex_text(bytes)) == bytes,
{
    let text = hex_text(bytes);
    assert forall|i: int| 0 <= i < bytes.len() implies bytes_of_hex(text)[i] == bytes[i] by {
        lemma_hex_digit_round_trip((bytes[i] / 16) as nat);
        lemma_hex_digit_round_trip((bytes[i] % 16) as nat);
        assert(text[2 * i] == hex_digit((bytes[i] / 16) as nat));
        assert(text[2 * i + 1] == hex_digit((bytes[i] % 16) as nat));
    }
    assert(bytes_of_hex(text) =~= bytes);
}

/// Coordinates written as bytes are read back unchanged.
pub proof fn lemma_bytes_round_trip(coordinates: Seq<u16>)
    ensures
        coordinate_bytes(coordinates).len() == 2 * coordinates.len(),
        coordinates_of_bytes(coordinate_bytes(coordinates)) == coordinates,
{
    let bytes = coordinate_bytes(coordinates);
    assert forall|i: int| 0 <= i < coordinates.len() implies coordinates_of_bytes(bytes)[i]
        == coordinates[i] by {
        assert(bytes[2 * i] == (coordinates[i] / 256) as u8);
        assert(bytes[2 * i + 1] == (coordinates[i] % 256) as u8);
    }
    assert(coordinates_of_bytes(bytes) =~= coordinates);
}

/// A packed text holds the prefix and four digits for each coordinate, and
/// unpacking it gives the coordinates back.
pub proof fn lemma_unpack_packed(coordinates: Seq<u16>)
    ensures
        packed_text(coordinates).len() == 2 + 4 * coordinates.len(),
        bytes_of_hex(packed_text(coordinates).skip(2)) == coordinate_bytes(coordinates),
        coordinate_bytes(coordinates).len() == 2 * coordinates.len(),
        unpacked(packed_text(coordinates)) == coordinates,
{
    let bytes = coordinate_bytes(coordinates);
    lemma_hex_round_trip(bytes);
    lemma_bytes_round_trip(coordinates);
    assert(packed_text(coordinates).skip(2) =~= hex_text(bytes));
}

} // verus!
