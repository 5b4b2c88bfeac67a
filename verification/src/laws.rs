//! What holds of wrapping, alignment, resolution, borders and joins, for every
//! text and every block.

use crate::ansi::frame_is_invisible;
use crate::block::BlockView;
use crate::layout::{
    aligned, bordered, lead, lemma_laid_out_width, trail, with_vertical_padding, Alignment,
    BorderSet, HORIZONTAL, TOP_LEFT, VERTICAL,
};
use crate::style::{decorate, lemma_decorate_width, lemma_drawn_escape_free};
use crate::text::{
    chunks, join_with, lemma_chunk_bounds, lemma_chunks_flatten,
    lemma_join_split, lemma_wrap_lines, repeat, spaces, split_on, wrap,
};
use crate::visible::{
    is_escape_free, is_settled, lemma_visible_concat, lemma_visible_repeat, visible_width,
};
use vstd::prelude::*;

verus! {

/// Wrapping cuts a paragraph exactly every `w` characters: piece `k` holds
/// the characters from `k * w` on, every piece but the last has `w` of them,
/// the last has at most `w`, and the pieces put together are the paragraph.
pub proof fn lemma_paragraph_cut_every_width(p: Seq<char>, w: nat)
    requires
        w > 0,
    ensures
        chunks(p, w).flatten() == p,
        forall|k: int|
            0 <= k < chunks(p, w).len() ==> (#[trigger] chunks(p, w)[k]).len() <= w,
        forall|k: int|
            0 <= k < chunks(p, w).len() - 1 ==> (#[trigger] chunks(p, w)[k]).len() == w,
        forall|k: int|
            0 <= k < chunks(p, w).len() ==> k * w + (#[trigger] chunks(p, w)[k]).len() <= p.len()
                && chunks(p, w)[k] == p.subrange(k * w, k * w + chunks(p, w)[k].len()),
{
    lemma_chunks_flatten(p, w);
    assert forall|k: int| 0 <= k < chunks(p, w).len() implies (#[trigger] chunks(p, w)[k]).len()
        <= w && (k < chunks(p, w).len() - 1 ==> chunks(p, w)[k].len() == w) && k * w + chunks(
        p,
        w,
    )[k].len() <= p.len() && chunks(p, w)[k] == p.subrange(k * w, k * w + chunks(p, w)[k].len()) by {
        lemma_chunk_bounds(p.len(), w, k);
    }
}

/// Wrapping loses nothing and no line is too long: every line has at most `w`
/// characters, and gluing the pieces of each paragraph together and joining
/// the paragraphs with line breaks gives the text back.
pub proof fn lemma_wrap_correct(text: Seq<char>, w: nat)
    requires
        w > 0,
    ensures
        forall|i: int| 0 <= i < wrap(text, w).len() ==> (#[trigger] wrap(text, w)[i]).len() <= w,
        join_with(
            split_on(text, '\n').map_values(|p: Seq<char>| chunks(p, w).flatten()),
            '\n',
        ) == text,
{
    lemma_wrap_lines(text, w);
    let paragraphs = split_on(text, '\n');
    let glued = paragraphs.map_values(|p: Seq<char>| chunks(p, w).flatten());
    assert forall|i: int| 0 <= i < paragraphs.len() implies glued[i] == paragraphs[i] by {
        lemma_chunks_flatten(paragraphs[i], w);
    }
    assert(glued == paragraphs);
    lemma_join_split(text, '\n');
}

/// Whatever the alignment, an aligned line fills the width: the blank cells
/// before and after it and the cells it fills are `width` together.
pub proof fn lemma_alignment_fills_width(occupied: nat, width: nat, alignment: Alignment)
    requires
        occupied <= width,
    ensures
        lead(occupied, width, alignment) + occupied + trail(occupied, width, alignment) == width,
{
}

/// With `Center`, the blank cells are split in two halves and an odd one
/// lands on the right.
pub proof fn lemma_center_rounding(content: Seq<char>, occupied: nat, width: nat)
    requires
        occupied <= width,
    ensures
        lead(occupied, width, Alignment::Center) == (width - occupied) / 2,
        trail(occupied, width, Alignment::Center) == lead(occupied, width, Alignment::Center) + (
        width - occupied) % 2,
        aligned(content, occupied, width, Alignment::Center) == spaces(
            ((width - occupied) / 2) as nat,
        ) + content + spaces(((width - occupied) / 2 + (width - occupied) % 2) as nat),
{
}

/// Resolving a block a second time changes nothing.
pub proof fn lemma_resolve_idempotent(block: BlockView)
    ensures
        block.resolve().resolve() == block.resolve(),
        block.resolve().resolved,
        block.resolved ==> block.resolve() == block,
{
}

/// The lines of a freshly resolved block fill its width: where the text holds
/// no `ESC`, a painted text is framed by control sequences only, and the
/// width leaves room beside the padding, every display line takes `width`
/// cells.
pub proof fn lemma_resolved_lines_fill_width(block: BlockView)
    requires
        !block.resolved,
        block.wrap_width() > 0,
        is_escape_free(block.raw_text),
        frame_is_invisible(block.style.decoration, block.style.color),
    ensures
        block.resolve().lines_fill_width(),
{
    let w = block.wrap_width() as nat;
    let lines = wrap(block.raw_text, w);
    lemma_wrap_lines(block.raw_text, w);
    let after = block.resolve();
    assert forall|i: int| 0 <= i < after.content.len() implies visible_width(
        #[trigger] after.content[i],
    ) == after.width && is_settled(after.content[i]) by {
        let text = lines[i];
        lemma_drawn_escape_free(text, block.raw_text);
        lemma_decorate_width(text, block.style);
        lemma_laid_out_width(
            decorate(text, block.style),
            text.len(),
            block.width,
            block.spacing,
            block.alignment,
        );
    }
}

/// Top and bottom padding keep the lines at the width.
pub proof fn lemma_vertical_padding_fills_width(block: BlockView)
    requires
        block.lines_fill_width(),
    ensures
        (BlockView {
            content: with_vertical_padding(block.content, block.width as nat, block.spacing),
            ..block
        }).lines_fill_width(),
{
    let padded = with_vertical_padding(block.content, block.width as nat, block.spacing);
    lemma_visible_repeat(' ', block.width as nat);
    assert forall|i: int| 0 <= i < padded.len() implies visible_width(#[trigger] padded[i])
        == block.width && is_settled(padded[i]) by {
        let top = block.spacing.padding_top as int;
        if i < top {
            assert(padded[i] == spaces(block.width as nat));
        } else if i < top + block.content.len() {
            assert(padded[i] == block.content[i - top]);
        } else {
            assert(padded[i] == spaces(block.width as nat));
        }
    }
}

/// A border with only the top edge is one straight rule above the lines: no
/// corner and no side.
pub proof fn lemma_border_top_only(lines: Seq<Seq<char>>, width: nat)
    ensures
        bordered(lines, width, BorderSet { top: true, right: false, bottom: false, left: false })
            == seq![repeat(HORIZONTAL, width)] + lines,
{
    let border = BorderSet { top: true, right: false, bottom: false, left: false };
    let drawn = bordered(lines, width, border);
    let expected = seq![repeat(HORIZONTAL, width)] + lines;
    assert(drawn.len() == expected.len());
    assert forall|i: int| 0 <= i < drawn.len() implies drawn[i] == expected[i] by {
        if i == 0 {
            assert(drawn[0] =~= repeat(HORIZONTAL, width));
        } else {
            assert(drawn[i] =~= lines[i - 1]);
        }
    }
    assert(drawn =~= expected);
}

/// A border with the top and the left edge has the top left corner and no
/// other: the rule starts with the corner, and every line starts with the
/// vertical edge.
pub proof fn lemma_border_top_left(lines: Seq<Seq<char>>, width: nat)
    ensures
        bordered(lines, width, BorderSet { top: true, right: false, bottom: false, left: true })
            == seq![seq![TOP_LEFT] + repeat(HORIZONTAL, width)] + lines.map_values(
            |l: Seq<char>| seq![VERTICAL] + l,
        ),
{
    let border = BorderSet { top: true, right: false, bottom: false, left: true };
    let drawn = bordered(lines, width, border);
    let expected = seq![seq![TOP_LEFT] + repeat(HORIZONTAL, width)] + lines.map_values(
        |l: Seq<char>| seq![VERTICAL] + l,
    );
    assert(drawn.len() == expected.len());
    assert forall|i: int| 0 <= i < drawn.len() implies drawn[i] == expected[i] by {
        if i == 0 {
            assert(drawn[0] =~= seq![TOP_LEFT] + repeat(HORIZONTAL, width));
        } else {
            assert(drawn[i] =~= seq![VERTICAL] + lines[i - 1]);
        }
    }
    assert(drawn =~= expected);
}

/// The dimensions of joined blocks: side by side the widths add up and the
/// height is the greater one; stacked the heights add up and the width is
/// the greater one.
pub proof fn lemma_join_dimensions(a: BlockView, b: BlockView)
    requires
        a.width + b.width <= usize::MAX,
    ensures
        a.joined_right(b).width == a.width + b.width,
        a.joined_right(b).height() == if a.resolve().height() >= b.resolve().height() {
            a.resolve().height()
        } else {
            b.resolve().height()
        },
        a.joined_bottom(b).height() == a.resolve().height() + b.resolve().height(),
        a.joined_bottom(b).width == if a.width >= b.width {
            a.width
        } else {
            b.width
        },
{
}

/// Blocks whose lines fill their widths stay so when joined side by side:
/// every row of the joined block takes the sum of the widths.
pub proof fn lemma_join_right_fills_width(a: BlockView, b: BlockView)
    requires
        a.resolve().lines_fill_width(),
        b.resolve().lines_fill_width(),
        a.width + b.width <= usize::MAX,
    ensures
        a.joined_right(b).lines_fill_width(),
{
    let left = a.resolve();
    let right = b.resolve();
    let joined = a.joined_right(b);
    lemma_visible_repeat(' ', left.width as nat);
    lemma_visible_repeat(' ', right.width as nat);
    assert forall|i: int| 0 <= i < joined.content.len() implies visible_width(
        #[trigger] joined.content[i],
    ) == joined.width && is_settled(joined.content[i]) by {
        assert(joined.content[i] == left.row(i) + right.row(i));
        lemma_visible_concat(left.row(i), right.row(i));
    }
}

/// Blocks whose lines fill their widths stay so when stacked: every line of
/// the joined block takes the greater of the two widths.
pub proof fn lemma_join_bottom_fills_width(a: BlockView, b: BlockView)
    requires
        a.resolve().lines_fill_width(),
        b.resolve().lines_fill_width(),
    ensures
        a.joined_bottom(b).lines_fill_width(),
{
    let upper = a.resolve();
    let lower = b.resolve();
    let joined = a.joined_bottom(b);
    let width = joined.width as nat;
    lemma_visible_repeat(' ', (width - upper.width) as nat);
    lemma_visible_repeat(' ', (width - lower.width) as nat);
    assert forall|i: int| 0 <= i < joined.content.len() implies visible_width(
        #[trigger] joined.content[i],
    ) == joined.width && is_settled(joined.content[i]) by {
        if i < upper.content.len() {
            let line = upper.content[i];
            assert(joined.content[i] == line + spaces((width - upper.width) as nat));
            lemma_visible_concat(line, spaces((width - upper.width) as nat));
        } else {
            let line = lower.content[i - upper.content.len()];
            assert(joined.content[i] == line + spaces((width - lower.width) as nat));
            lemma_visible_concat(line, spaces((width - lower.width) as nat));
        }
    }
}

} // verus!
