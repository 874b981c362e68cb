//! The fixed table of segment masks and the unpacking of a mask into flags.
use vstd::prelude::*;

verus! {

/// A decimal digit character.
pub open spec fn is_digit(c: char) -> bool {
    '0' <= c && c <= '9'
}

/// The value `0..=9` of a digit character.
pub open spec fn digit_value(c: char) -> int {
    c as int - '0' as int
}

/// The segment mask of digit `d`. Read from the most significant bit down,
/// the flags are: top cap, upper left, upper middle, upper right, lower
/// left, lower middle, lower right, and one unused bit that is always clear.
pub open spec fn segment_mask(d: int) -> u8 {
    if d == 0 {
        0b11011110u8
    } else if d == 1 {
        0b00010010u8
    } else if d == 2 {
        0b10111100u8
    } else if d == 3 {
        0b10110110u8
    } else if d == 4 {
        0b01110010u8
    } else if d == 5 {
        0b11100110u8
    } else if d == 6 {
        0b11101110u8
    } else if d == 7 {
        0b10010010u8
    } else if d == 8 {
        0b11111110u8
    } else {
        0b11110110u8
    }
}

/// Flag `k` of mask `m`, counting from the most significant bit (`k == 0`)
/// down to the least significant one (`k == 7`).
pub open spec fn segment_on(m: u8, k: int) -> bool {
    (m >> ((7 - k) as u8)) & 1u8 == 1u8
}

/// The eight flags of `m`, most significant bit first.
pub open spec fn unpacked(m: u8) -> Seq<bool> {
    Seq::new(8, |k: int| segment_on(m, k))
}

/// The segment mask of a digit character.
pub fn char_map(c: char) -> (r: u8)
    requires
        is_digit(c),
    ensures
        r == segment_mask(digit_value(c)),
{
    match c {
        '0' => 0b11011110u8,
        '1' => 0b00010010u8,
        '2' => 0b10111100u8,
        '3' => 0b10110110u8,
        '4' => 0b01110010u8,
        '5' => 0b11100110u8,
        '6' => 0b11101110u8,
        '7' => 0b10010010u8,
        '8' => 0b11111110u8,
        _ => 0b11110110u8,
    }
}

/// Unpacks a mask into its eight flags, most significant bit first.
pub fn bits_to_vec(n: &u8) -> (r: [bool; 8])
    ensures
        r@ == unpacked(*n),
{
    let m: u8 = *n;
    let r = [
        (m >> 7u8) & 1u8 == 1u8,
        (m >> 6u8) & 1u8 == 1u8,
        (m >> 5u8) & 1u8 == 1u8,
        (m >> 4u8) & 1u8 == 1u8,
        (m >> 3u8) & 1u8 == 1u8,
        (m >> 2u8) & 1u8 == 1u8,
        (m >> 1u8) & 1u8 == 1u8,
        (m >> 0u8) & 1u8 == 1u8,
    ];
    assert(r@ =~= unpacked(m));
    r
}

} // verus!
