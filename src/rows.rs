//! The three structural rows of a number: cap, upper band and lower band.
use vstd::prelude::*;

use crate::digits::{decode, decoded};
use crate::segment::{bits_to_vec, segment_on, unpacked};

verus! {

/// The cap row: flag 0 of each mask, one flag per digit.
pub open spec fn cap_row(masks: Seq<u8>) -> Seq<bool> {
    masks.map_values(|m: u8| segment_on(m, 0))
}

/// The upper band: flags 1, 2 and 3 of each mask, digit after digit.
pub open spec fn upper_row(masks: Seq<u8>) -> Seq<bool> {
    Seq::new(3 * masks.len(), |i: int| segment_on(masks[i / 3], 1 + i % 3))
}

/// The lower band: flags 4, 5 and 6 of each mask, digit after digit.
pub open spec fn lower_row(masks: Seq<u8>) -> Seq<bool> {
    Seq::new(3 * masks.len(), |i: int| segment_on(masks[i / 3], 4 + i % 3))
}

/// Appends one digit's unpacked flags to the three rows: flag 0 to the cap
/// row, flags 1 to 3 to the upper band, flags 4 to 6 to the lower band.
/// Flag 7 is dropped.
pub fn build_rows(lines: (Vec<bool>, Vec<bool>, Vec<bool>), bits: [bool; 8]) -> (r: (
    Vec<bool>,
    Vec<bool>,
    Vec<bool>,
))
    ensures
        r.0@ == lines.0@.push(bits@[0]),
        r.1@ == lines.1@ + bits@.subrange(1, 4),
        r.2@ == lines.2@ + bits@.subrange(4, 7),
{
    let (mut cap, mut upper, mut lower) = lines;
    cap.push(bits[0]);
    upper.push(bits[1]);
    upper.push(bits[2]);
    upper.push(bits[3]);
    lower.push(bits[4]);
    lower.push(bits[5]);
    lower.push(bits[6]);
    assert(upper@ =~= lines.1@ + bits@.subrange(1, 4));
    assert(lower@ =~= lines.2@ + bits@.subrange(4, 7));
    (cap, upper, lower)
}

/// The cap row, upper band and lower band of the padded number `n`.
pub fn as_rows(n: u64, padding: usize) -> (r: (Vec<bool>, Vec<bool>, Vec<bool>))
    ensures
        r.0@ == cap_row(decoded(n as nat, padding as nat)),
        r.1@ == upper_row(decoded(n as nat, padding as nat)),
        r.2@ == lower_row(decoded(n as nat, padding as nat)),
{
    let masks = decode(n, padding);
    let mut lines: (Vec<bool>, Vec<bool>, Vec<bool>) = (Vec::new(), Vec::new(), Vec::new());
    let mut i: usize = 0;
    while i < masks.len()
        invariant
            i <= masks@.len(),
            lines.0@ == cap_row(masks@.take(i as int)),
            lines.1@ == upper_row(masks@.take(i as int)),
            lines.2@ == lower_row(masks@.take(i as int)),
        decreases masks@.len() - i,
    {
        let bits = bits_to_vec(&masks[i]);
        assert(bits@ == unpacked(masks@[i as int]));
        lines = build_rows(lines, bits);
        i = i + 1;
        assert(lines.0@ =~= cap_row(masks@.take(i as int)));
        assert(lines.1@ =~= upper_row(masks@.take(i as int)));
        assert(lines.2@ =~= lower_row(masks@.take(i as int)));
    }
    assert(masks@.take(i as int) =~= masks@);
    lines
}

} // verus!
