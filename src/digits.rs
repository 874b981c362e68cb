//! Decimal digits of a number, zero padding, and decoding into segment masks.
use vstd::prelude::*;

use crate::segment::{char_map, digit_value, is_digit, segment_mask};
use crate::text::string_of;

verus! {

/// The character of digit `d`, for `0 <= d < 10`.
pub open spec fn digit_char(d: int) -> char {
    ((d + 48) as u8) as char
}

/// The canonical base-10 text of `n`: no leading zeros, `"0"` for zero.
pub open spec fn decimal(n: nat) -> Seq<char>
    decreases n,
{
    if n < 10 {
        seq![digit_char(n as int)]
    } else {
        decimal(n / 10).push(digit_char((n % 10) as int))
    }
}

/// The decimal text of `n`, left-padded with `'0'` up to `padding`
/// characters; never truncated.
pub open spec fn padded(n: nat, padding: nat) -> Seq<char> {
    let d = decimal(n);
    if d.len() < padding {
        Seq::new((padding - d.len()) as nat, |_i: int| '0') + d
    } else {
        d
    }
}

/// One segment mask per character of the padded decimal text of `n`.
pub open spec fn decoded(n: nat, padding: nat) -> Seq<u8> {
    padded(n, padding).map_values(|c: char| segment_mask(digit_value(c)))
}

proof fn lemma_decimal_digits(n: nat)
    ensures
        decimal(n).len() >= 1,
        forall|i: int| 0 <= i < decimal(n).len() ==> is_digit(#[trigger] decimal(n)[i]),
    decreases n,
{
    if n >= 10 {
        lemma_decimal_digits(n / 10);
    }
}

proof fn lemma_padded_digits(n: nat, padding: nat)
    ensures
        forall|i: int| 0 <= i < padded(n, padding).len() ==> is_digit(#[trigger] padded(n, padding)[i]),
{
    lemma_decimal_digits(n);
    let d = decimal(n);
    if d.len() < padding {
        let p = padded(n, padding);
        assert forall|i: int| 0 <= i < p.len() implies is_digit(#[trigger] p[i]) by {
            if i >= padding - d.len() {
                assert(p[i] == d[i - (padding - d.len())]);
            }
        }
    }
}

/// Appends the decimal digits of `n` to `out`.
fn push_decimal(n: u64, out: &mut Vec<char>)
    ensures
        final(out)@ == old(out)@ + decimal(n as nat),
    decreases n,
{
    if n >= 10 {
        push_decimal(n / 10, out);
    }
    let d: u8 = (n % 10) as u8;
    out.push((d + 48u8) as char);
    assert(final(out)@ =~= old(out)@ + decimal(n as nat));
}

/// The padded decimal text of `n`, as characters.
fn padded_digits(n: u64, padding: usize) -> (r: Vec<char>)
    ensures
        r@ == padded(n as nat, padding as nat),
{
    let mut digits: Vec<char> = Vec::new();
    push_decimal(n, &mut digits);
    assert(digits@ =~= decimal(n as nat));
    if digits.len() >= padding {
        return digits;
    }
    let missing: usize = padding - digits.len();
    let mut out: Vec<char> = Vec::new();
    let mut i: usize = 0;
    while i < missing
        invariant
            i <= missing,
            out@ == Seq::new(i as nat, |_j: int| '0'),
        decreases missing - i,
    {
        out.push('0');
        i = i + 1;
        assert(out@ =~= Seq::new(i as nat, |_j: int| '0'));
    }
    let mut k: usize = 0;
    while k < digits.len()
        invariant
            k <= digits.len(),
            out@ == Seq::new(missing as nat, |_j: int| '0') + digits@.take(k as int),
        decreases digits.len() - k,
    {
        out.push(digits[k]);
        k = k + 1;
        assert(out@ =~= Seq::new(missing as nat, |_j: int| '0') + digits@.take(k as int));
    }
    assert(digits@.take(k as int) =~= digits@);
    out
}

/// The decimal text of `n`, left-padded with `'0'` to at least `padding`
/// characters. Padding is a minimum width: a longer number is kept whole.
pub fn pad_input(n: u64, padding: usize) -> (r: String)
    ensures
        r@ == padded(n as nat, padding as nat),
{
    let digits = padded_digits(n, padding);
    string_of(&digits)
}

/// The segment masks of the padded decimal text of `n`, left to right.
pub fn decode(n: u64, padding: usize) -> (r: Vec<u8>)
    ensures
        r@ == decoded(n as nat, padding as nat),
{
    let digits = padded_digits(n, padding);
    proof {
        lemma_padded_digits(n as nat, padding as nat);
    }
    let mut masks: Vec<u8> = Vec::new();
    let mut i: usize = 0;
    while i < digits.len()
        invariant
            i <= digits.len(),
            digits@ == padded(n as nat, padding as nat),
            forall|j: int| 0 <= j < digits@.len() ==> is_digit(#[trigger] digits@[j]),
            masks@ == digits@.take(i as int).map_values(|c: char| segment_mask(digit_value(c))),
        decreases digits.len() - i,
    {
        let m = char_map(digits[i]);
        masks.push(m);
        i = i + 1;
        assert(masks@ =~= digits@.take(i as int).map_values(|c: char| segment_mask(digit_value(c))));
    }
    assert(digits@.take(i as int) =~= digits@);
    masks
}

/// A padding no wider than the number's decimal text changes nothing: the
/// masks are those of the unpadded number, one per decimal digit.
pub proof fn lemma_padding_within_length(n: nat, padding: nat)
    requires
        padding <= decimal(n).len(),
    ensures
        decoded(n, padding) == decoded(n, 0),
        decoded(n, padding).len() == decimal(n).len(),
{
}

/// A padding wider than the number's decimal text gives exactly `padding`
/// masks: leading masks of the digit zero, then the masks of the unpadded
/// number.
pub proof fn lemma_padding_beyond_length(n: nat, padding: nat)
    requires
        padding > decimal(n).len(),
    ensures
        decoded(n, padding).len() == padding,
        forall|i: int|
            0 <= i < padding - decimal(n).len() ==> #[trigger] decoded(n, padding)[i]
                == segment_mask(0),
        decoded(n, padding).subrange(padding - decimal(n).len(), padding as int) == decoded(
            n,
            0,
        ),
{
    lemma_decimal_digits(n);
    let d = decimal(n);
    let z = (padding - d.len()) as int;
    assert(decoded(n, padding).subrange(z, padding as int) =~= decoded(n, 0));
}

} // verus!
