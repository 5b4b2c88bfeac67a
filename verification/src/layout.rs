//! The box model in terms of character sequences: padding and alignment of a
//! line, the border around a block of lines, and the margin outside it.

use crate::text::{repeat, repeated, spaces};
use crate::visible::{
    is_settled, lemma_visible_concat, lemma_visible_repeat, visible_width,
};
use vstd::prelude::*;
use vstd::string::*;

verus! {

/// The vertical edge of a border.
pub const VERTICAL: char = '\u{2502}';

/// The horizontal edge of a border.
pub const HORIZONTAL: char = '\u{2500}';

/// The corner where the top and the left edge meet.
pub const TOP_LEFT: char = '\u{250c}';

/// The corner where the top and the right edge meet.
pub const TOP_RIGHT: char = '\u{2510}';

/// The corner where the bottom and the left edge meet.
pub const BOTTOM_LEFT: char = '\u{2514}';

/// The corner where the bottom and the right edge meet.
pub const BOTTOM_RIGHT: char = '\u{2518}';

/// Where a line stands within the width of its block.
#[derive(Clone, Copy, Debug)]
pub enum Alignment {
    Start,
    Center,
    End,
}

/// Margin and padding on each side, in cells. Zero means none.
#[derive(Clone, Copy, Debug)]
pub struct Spacing {
    pub margin_top: usize,
    pub margin_left: usize,
    pub margin_bottom: usize,
    pub margin_right: usize,
    pub padding_top: usize,
    pub padding_left: usize,
    pub padding_bottom: usize,
    pub padding_right: usize,
}

/// The edges of the border that are drawn.
#[derive(Clone, Copy, Debug)]
pub struct BorderSet {
    pub top: bool,
    pub right: bool,
    pub bottom: bool,
    pub left: bool,
}

/// One character if `present`, else nothing.
pub open spec fn glyph_if(present: bool, glyph: char) -> Seq<char> {
    if present {
        seq![glyph]
    } else {
        Seq::<char>::empty()
    }
}

/// The cells between the border's sides that hold text: the width less the
/// padding on the left and on the right.
pub open spec fn wrap_width(width: usize, spacing: Spacing) -> int {
    width - spacing.padding_left - spacing.padding_right
}

/// The blank cells that alignment puts in front of a line that fills
/// `occupied` of `width` cells. For `Center` the left side gets the smaller
/// half, so an odd cell goes to the right.
pub open spec fn lead(occupied: nat, width: nat, alignment: Alignment) -> nat {
    let pad = (width - occupied) as nat;
    match alignment {
        Alignment::Start => 0,
        Alignment::Center => pad / 2,
        Alignment::End => pad,
    }
}

/// The blank cells that alignment puts behind such a line.
pub open spec fn trail(occupied: nat, width: nat, alignment: Alignment) -> nat {
    ((width - occupied) as nat - lead(occupied, width, alignment)) as nat
}

/// A line brought to `width` cells by blank cells before and after it.
pub open spec fn aligned(content: Seq<char>, occupied: nat, width: nat, alignment: Alignment) -> Seq<
    char,
> {
    spaces(lead(occupied, width, alignment)) + content + spaces(trail(occupied, width, alignment))
}

/// A decorated line with its left and right padding.
pub open spec fn padded(decorated: Seq<char>, spacing: Spacing) -> Seq<char> {
    spaces(spacing.padding_left as nat) + decorated + spaces(spacing.padding_right as nat)
}

/// A decorated line that stands for `text_length` characters, padded and
/// aligned within `width`.
pub open spec fn laid_out(
    decorated: Seq<char>,
    text_length: nat,
    width: usize,
    spacing: Spacing,
    alignment: Alignment,
) -> Seq<char> {
    aligned(
        padded(decorated, spacing),
        (text_length + spacing.padding_left + spacing.padding_right) as nat,
        width as nat,
        alignment,
    )
}

/// `count` lines of `width` blank cells.
pub open spec fn blank_lines(count: nat, width: nat) -> Seq<Seq<char>> {
    Seq::new(count, |i: int| spaces(width))
}

/// A content line between the left and the right edge, where they are drawn.
pub open spec fn with_sides(line: Seq<char>, border: BorderSet) -> Seq<char> {
    glyph_if(border.left, VERTICAL) + line + glyph_if(border.right, VERTICAL)
}

/// The line of the top edge: `width` horizontal glyphs, with a corner in front
/// only if the left edge is drawn and a corner behind only if the right one is.
pub open spec fn top_rule(width: nat, border: BorderSet) -> Seq<char> {
    glyph_if(border.left, TOP_LEFT) + repeat(HORIZONTAL, width) + glyph_if(border.right, TOP_RIGHT)
}

/// The line of the bottom edge, with its corners as for the top.
pub open spec fn bottom_rule(width: nat, border: BorderSet) -> Seq<char> {
    glyph_if(border.left, BOTTOM_LEFT) + repeat(HORIZONTAL, width) + glyph_if(
        border.right,
        BOTTOM_RIGHT,
    )
}

/// A line if `present`, else none.
pub open spec fn line_if(present: bool, line: Seq<char>) -> Seq<Seq<char>> {
    if present {
        seq![line]
    } else {
        Seq::<Seq<char>>::empty()
    }
}

/// The lines with the border drawn around them.
pub open spec fn bordered(lines: Seq<Seq<char>>, width: nat, border: BorderSet) -> Seq<Seq<char>> {
    line_if(border.top, top_rule(width, border)) + lines.map_values(
        |l: Seq<char>| with_sides(l, border),
    ) + line_if(border.bottom, bottom_rule(width, border))
}

/// A line with the left and the right margin.
pub open spec fn with_side_margins(line: Seq<char>, spacing: Spacing) -> Seq<char> {
    spaces(spacing.margin_left as nat) + line + spaces(spacing.margin_right as nat)
}

/// The lines with the margin around them: blank cells left and right of each
/// line, and blank lines of `width` cells above and below.
pub open spec fn margined(lines: Seq<Seq<char>>, width: nat, spacing: Spacing) -> Seq<Seq<char>> {
    blank_lines(spacing.margin_top as nat, width) + lines.map_values(
        |l: Seq<char>| with_side_margins(l, spacing),
    ) + blank_lines(spacing.margin_bottom as nat, width)
}

/// The lines with the top and the bottom padding: blank lines of `width`
/// cells above and below.
pub open spec fn with_vertical_padding(lines: Seq<Seq<char>>, width: nat, spacing: Spacing) -> Seq<
    Seq<char>,
> {
    blank_lines(spacing.padding_top as nat, width) + lines + blank_lines(
        spacing.padding_bottom as nat,
        width,
    )
}

/// A padded and aligned line fills the width: where the decorated text takes
/// as many cells as the bare text has characters, and these fit beside the
/// padding, the line takes `width` cells, whatever the alignment.
pub proof fn lemma_laid_out_width(
    decorated: Seq<char>,
    text_length: nat,
    width: usize,
    spacing: Spacing,
    alignment: Alignment,
)
    requires
        visible_width(decorated) == text_length,
        is_settled(decorated),
        text_length + spacing.padding_left + spacing.padding_right <= width,
    ensures
        visible_width(laid_out(decorated, text_length, width, spacing, alignment)) == width,
        is_settled(laid_out(decorated, text_length, width, spacing, alignment)),
{
    let occupied = (text_length + spacing.padding_left + spacing.padding_right) as nat;
    let left = spaces(spacing.padding_left as nat);
    let right = spaces(spacing.padding_right as nat);
    let before = spaces(lead(occupied, width as nat, alignment));
    let after = spaces(trail(occupied, width as nat, alignment));
    let inner = left + decorated + right;
    lemma_visible_repeat(' ', spacing.padding_left as nat);
    lemma_visible_repeat(' ', spacing.padding_right as nat);
    lemma_visible_repeat(' ', lead(occupied, width as nat, alignment));
    lemma_visible_repeat(' ', trail(occupied, width as nat, alignment));
    lemma_visible_concat(left, decorated);
    lemma_visible_concat(left + decorated, right);
    lemma_visible_concat(before, inner);
    lemma_visible_concat(before + inner, after);
}

/// `count` lines of `width` blank cells.
pub fn blank_block(count: usize, width: usize) -> (lines: Vec<String>)
    ensures
        lines.deep_view() == blank_lines(count as nat, width as nat),
{
    let mut lines: Vec<String> = Vec::new();
    let mut i: usize = 0;
    while i < count
        invariant
            i <= count,
            lines.deep_view() == blank_lines(i as nat, width as nat),
        decreases count - i,
    {
        let ghost done = lines.deep_view();
        let pad = repeated(' ', width);
        lines.push(pad);
        assert(lines.deep_view() == done.push(pad@));
        i += 1;
    }
    lines
}

/// The line of an edge: `width` horizontal glyphs between the two corners
/// that are drawn.
pub fn edge_rule(width: usize, border: &BorderSet, left_corner: char, right_corner: char) -> (out:
    String)
    ensures
        out@ == glyph_if(border.left, left_corner) + repeat(HORIZONTAL, width as nat) + glyph_if(
            border.right,
            right_corner,
        ),
{
    let mut out = String::new();
    if border.left {
        out.push(left_corner);
    }
    let rule = repeated(HORIZONTAL, width);
    out.append(rule.as_str());
    if border.right {
        out.push(right_corner);
    }
    out
}

} // verus!
