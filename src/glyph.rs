//! Rendering of one structural row of flags into a line of text.
use vstd::prelude::*;

use crate::text::string_of;

verus! {

/// The one-character glyph of a vertical stroke.
pub open spec fn vertical_glyph(yes: bool) -> char {
    if yes {
        '|'
    } else {
        ' '
    }
}

/// The `width`-character glyph of a horizontal stroke.
pub open spec fn horizontal_glyph(yes: bool, width: nat) -> Seq<char> {
    Seq::new(width, |_i: int| if yes { '_' } else { ' ' })
}

/// The glyph of flag `i` of a row. The first and last flag of each triple
/// are vertical strokes; the middle one is a horizontal stroke, drawn only
/// where separators are on.
pub open spec fn glyph(row: Seq<bool>, i: int, width: nat, sep: bool) -> Seq<char> {
    if i % 3 == 1 {
        horizontal_glyph(sep && row[i], width)
    } else {
        seq![vertical_glyph(row[i])]
    }
}

/// The glyphs of the first `k` flags of a row, left to right.
pub open spec fn glyphs(row: Seq<bool>, k: nat, width: nat, sep: bool) -> Seq<char>
    decreases k,
{
    if k == 0 {
        Seq::empty()
    } else {
        glyphs(row, (k - 1) as nat, width, sep) + glyph(row, k - 1, width, sep)
    }
}

/// `s` without its trailing spaces.
pub open spec fn trim_end(s: Seq<char>) -> Seq<char>
    decreases s.len(),
{
    if s.len() > 0 && s.last() == ' ' {
        trim_end(s.drop_last())
    } else {
        s
    }
}

/// The text line of a row: its glyphs with trailing spaces removed, then a
/// newline.
pub open spec fn rendered_line(row: Seq<bool>, width: nat, sep: bool) -> Seq<char> {
    trim_end(glyphs(row, row.len(), width, sep)).push('\n')
}

/// A cap row with each flag `b` widened to the triple `[false, b, false]`.
pub open spec fn cap_expanded(cap: Seq<bool>) -> Seq<bool> {
    Seq::new(3 * cap.len(), |i: int| i % 3 == 1 && cap[i / 3])
}

/// `s` written `k` times.
pub open spec fn repeated(s: Seq<char>, k: nat) -> Seq<char>
    decreases k,
{
    if k == 0 {
        Seq::empty()
    } else {
        repeated(s, (k - 1) as nat) + s
    }
}

/// A band of `height` lines: `height - 1` lines without separators, then
/// one with them.
pub open spec fn band(row: Seq<bool>, width: nat, height: nat) -> Seq<char> {
    repeated(rendered_line(row, width, false), (height - 1) as nat) + rendered_line(
        row,
        width,
        true,
    )
}

fn vertical_char(yes: bool) -> (c: char)
    ensures
        c == vertical_glyph(yes),
{
    if yes {
        '|'
    } else {
        ' '
    }
}

fn push_horizontal(out: &mut Vec<char>, yes: bool, width: usize)
    ensures
        final(out)@ == old(out)@ + horizontal_glyph(yes, width as nat),
{
    let c: char = if yes {
        '_'
    } else {
        ' '
    };
    let ghost start = out@;
    let mut i: usize = 0;
    while i < width
        invariant
            i <= width,
            c == (if yes { '_' } else { ' ' }),
            out@ == start + horizontal_glyph(yes, i as nat),
        decreases width - i,
    {
        out.push(c);
        i = i + 1;
        assert(out@ =~= start + horizontal_glyph(yes, i as nat));
    }
}

/// The glyph of a vertical stroke: `"|"` when set, `" "` otherwise.
pub fn vertical(yes: bool) -> (r: String)
    ensures
        r@ == seq![vertical_glyph(yes)],
{
    let chars: Vec<char> = vec![vertical_char(yes)];
    assert(chars@ =~= seq![vertical_glyph(yes)]);
    string_of(&chars)
}

/// The glyph of a horizontal stroke: `width` underscores when set, `width`
/// spaces otherwise.
pub fn horizontal(yes: bool, width: usize) -> (r: String)
    ensures
        r@ == horizontal_glyph(yes, width as nat),
{
    let mut chars: Vec<char> = Vec::new();
    push_horizontal(&mut chars, yes, width);
    assert(chars@ =~= horizontal_glyph(yes, width as nat));
    string_of(&chars)
}

fn trim_trailing_spaces(s: &mut Vec<char>)
    ensures
        final(s)@ == trim_end(old(s)@),
{
    while s.len() > 0 && s[s.len() - 1] == ' '
        invariant
            trim_end(s@) == trim_end(old(s)@),
        decreases s.len(),
    {
        s.pop();
    }
}

/// Renders a row of flags, taken in triples, as one line: vertical strokes
/// for the first and last flag of each triple, a horizontal stroke of
/// `width` characters for the middle one (drawn only where `sep` is set),
/// trailing spaces trimmed and a newline appended.
pub fn row_with_separator(bits: &[bool], width: usize, sep: bool) -> (r: String)
    requires
        bits@.len() % 3 == 0,
    ensures
        r@ == rendered_line(bits@, width as nat, sep),
{
    let mut tmp: Vec<char> = Vec::new();
    let mut i: usize = 0;
    while i < bits.len()
        invariant
            i <= bits@.len(),
            tmp@ == glyphs(bits@, i as nat, width as nat, sep),
        decreases bits@.len() - i,
    {
        if i % 3 == 1 {
            push_horizontal(&mut tmp, sep && bits[i], width);
        } else {
            tmp.push(vertical_char(bits[i]));
        }
        i = i + 1;
        assert(tmp@ =~= glyphs(bits@, i as nat, width as nat, sep));
    }
    trim_trailing_spaces(&mut tmp);
    tmp.push('\n');
    string_of(&tmp)
}

/// Renders the cap row: each flag becomes the triple `[false, flag, false]`,
/// drawn with separators on.
pub fn top_row(bits: &[bool], width: usize) -> (r: String)
    ensures
        r@ == rendered_line(cap_expanded(bits@), width as nat, true),
{
    let mut expanded: Vec<bool> = Vec::new();
    let mut i: usize = 0;
    while i < bits.len()
        invariant
            i <= bits@.len(),
            expanded@ == cap_expanded(bits@.take(i as int)),
        decreases bits@.len() - i,
    {
        expanded.push(false);
        expanded.push(bits[i]);
        expanded.push(false);
        i = i + 1;
        assert(expanded@ =~= cap_expanded(bits@.take(i as int)));
    }
    assert(bits@.take(i as int) =~= bits@);
    row_with_separator(expanded.as_slice(), width, true)
}

/// Renders an inner line of a band: horizontal strokes suppressed.
pub fn middle_row(bits: &[bool], width: usize) -> (r: String)
    requires
        bits@.len() % 3 == 0,
    ensures
        r@ == rendered_line(bits@, width as nat, false),
{
    row_with_separator(bits, width, false)
}

/// Renders the last line of a band: horizontal strokes drawn.
pub fn bottom_row(bits: &[bool], width: usize) -> (r: String)
    requires
        bits@.len() % 3 == 0,
    ensures
        r@ == rendered_line(bits@, width as nat, true),
{
    row_with_separator(bits, width, true)
}

/// Appends a band of `height` lines for `row`: `height - 1` middle lines,
/// then one bottom line.
pub fn variable_height_row(result: &mut String, row: &[bool], width: usize, height: usize)
    requires
        row@.len() % 3 == 0,
        height >= 1,
    ensures
        final(result)@ == old(result)@ + band(row@, width as nat, height as nat),
{
    let ghost start = result@;
    let mut k: usize = 0;
    while k < height - 1
        invariant
            k <= height - 1,
            row@.len() % 3 == 0,
            result@ == start + repeated(rendered_line(row@, width as nat, false), k as nat),
        decreases height - 1 - k,
    {
        let line = middle_row(row, width);
        result.append(line.as_str());
        k = k + 1;
        assert(result@ =~= start + repeated(rendered_line(row@, width as nat, false), k as nat));
    }
    let last = bottom_row(row, width);
    result.append(last.as_str());
    assert(result@ =~= start + band(row@, width as nat, height as nat));
}

proof fn lemma_trim_spaces(s: Seq<char>)
    requires
        forall|i: int| 0 <= i < s.len() ==> s[i] == ' ',
    ensures
        trim_end(s) == Seq::<char>::empty(),
    decreases s.len(),
{
    if s.len() > 0 {
        lemma_trim_spaces(s.drop_last());
    } else {
        assert(s =~= Seq::<char>::empty());
    }
}

/// A triple of clear flags renders, at any width and with separators on or
/// off, as a bare newline.
pub proof fn lemma_blank_triple(width: nat, sep: bool)
    ensures
        rendered_line(seq![false, false, false], width, sep) == seq!['\n'],
{
    let row = seq![false, false, false];
    let g = glyphs(row, 3, width, sep);
    assert(glyphs(row, 0, width, sep) =~= Seq::<char>::empty());
    assert(g == glyphs(row, 2, width, sep) + glyph(row, 2, width, sep));
    assert(glyphs(row, 2, width, sep) == glyphs(row, 1, width, sep) + glyph(row, 1, width, sep));
    assert(glyphs(row, 1, width, sep) == glyphs(row, 0, width, sep) + glyph(row, 0, width, sep));
    assert forall|i: int| 0 <= i < g.len() implies g[i] == ' ' by {}
    lemma_trim_spaces(g);
    assert(trim_end(g).push('\n') =~= seq!['\n']);
}

} // verus!
