//! Seven-segment style ASCII rendering of non-negative integers.
use vstd::prelude::*;

pub mod digits;
pub mod glyph;
pub mod rows;
pub mod segment;
mod text;

pub use digits::{decode, pad_input};
pub use glyph::{
    bottom_row, horizontal, middle_row, row_with_separator, top_row, variable_height_row, vertical,
};
pub use rows::{as_rows, build_rows};
pub use segment::{bits_to_vec, char_map};

use digits::decoded;
use glyph::{band, cap_expanded, rendered_line};
use rows::{cap_row, lower_row, upper_row};

verus! {

/// The full text for `n` padded to `padding` digits, with horizontal strokes
/// `width` characters wide and bands `height` lines tall: the cap line, then
/// the upper band, then the lower band.
pub open spec fn rendered(n: nat, padding: nat, width: nat, height: nat) -> Seq<char> {
    let masks = decoded(n, padding);
    rendered_line(cap_expanded(cap_row(masks)), width, true) + band(upper_row(masks), width, height)
        + band(lower_row(masks), width, height)
}

/// Renders `n` as seven-segment ASCII art, zero-padded to at least `padding`
/// digits, with horizontal strokes `width` characters wide and each of the
/// two bands `height` lines tall.
pub fn run(n: u64, padding: usize, width: usize, height: usize) -> (r: String)
    requires
        height >= 1,
    ensures
        r@ == rendered(n as nat, padding as nat, width as nat, height as nat),
{
    let mut result = String::new();
    let rows = as_rows(n, padding);
    let top = top_row(rows.0.as_slice(), width);
    result.append(top.as_str());
    variable_height_row(&mut result, rows.1.as_slice(), width, height);
    variable_height_row(&mut result, rows.2.as_slice(), width, height);
    result
}

/// Rendering is deterministic: two results of `run` on the same arguments
/// are the same text.
pub proof fn lemma_run_deterministic(
    n: nat,
    padding: nat,
    width: nat,
    height: nat,
    first: Seq<char>,
    second: Seq<char>,
)
    requires
        first == rendered(n, padding, width, height),
        second == rendered(n, padding, width, height),
    ensures
        first == second,
{
}

} // verus!
