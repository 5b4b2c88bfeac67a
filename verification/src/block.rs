//! A block: a text with a width, a style and a box around it, resolved once
//! into display lines, and joined with other blocks or finalized into one
//! printable string.

use crate::ansi::frame_is_invisible;
use crate::layout::{
    aligned, blank_block, blank_lines, bordered, edge_rule, laid_out, lemma_laid_out_width,
    line_if, margined, top_rule, with_side_margins, with_sides, with_vertical_padding,
    wrap_width, Alignment, BorderSet, Spacing, BOTTOM_LEFT, BOTTOM_RIGHT, TOP_LEFT, TOP_RIGHT,
    VERTICAL,
};
use crate::style::{decorate, default_style, lemma_drawn_escape_free, Style, StyleView};
use crate::text::{
    drawn_from, join_terminated, lemma_wrap_lines, repeated, spaces, terminated, wrap,
    wrap_lines,
};
use crate::visible::{is_escape_free, is_settled, visible_width};
use vstd::prelude::*;
use vstd::string::*;

mod getter;
mod setter;

verus! {

/// A rectangular block of styled text.
#[derive(Clone, Debug)]
pub struct StyleBlock {
    width: usize,
    height: usize,
    raw_string: String,
    content: Vec<String>,
    style: Style,
    horizontal_alignment: Alignment,
    layout: Spacing,
    border: BorderSet,
    paragraph_fixed: bool,
}

/// What a block holds.
pub struct BlockView {
    /// The width in cells within the border.
    pub width: usize,
    /// The height that was declared; it counts until the block is resolved.
    pub declared_height: usize,
    /// The text as it was given.
    pub raw_text: Seq<char>,
    /// The display lines; empty until the block is resolved.
    pub content: Seq<Seq<char>>,
    pub style: StyleView,
    pub alignment: Alignment,
    pub spacing: Spacing,
    pub border: BorderSet,
    /// Whether the display lines are final.
    pub resolved: bool,
}

impl View for StyleBlock {
    type V = BlockView;

    closed spec fn view(&self) -> BlockView {
        BlockView {
            width: self.width,
            declared_height: self.height,
            raw_text: self.raw_string@,
            content: self.content.deep_view(),
            style: self.style@,
            alignment: self.horizontal_alignment,
            spacing: self.layout,
            border: self.border,
            resolved: self.paragraph_fixed,
        }
    }
}

/// The block that `StyleBlock::new` gives: 80 cells wide, 24 lines high, no
/// text, nothing set.
pub open spec fn default_block() -> BlockView {
    BlockView {
        width: 80,
        declared_height: 24,
        raw_text: Seq::<char>::empty(),
        content: Seq::<Seq<char>>::empty(),
        style: default_style(),
        alignment: Alignment::Start,
        spacing: Spacing {
            margin_top: 0,
            margin_left: 0,
            margin_bottom: 0,
            margin_right: 0,
            padding_top: 0,
            padding_left: 0,
            padding_bottom: 0,
            padding_right: 0,
        },
        border: BorderSet { top: false, right: false, bottom: false, left: false },
        resolved: false,
    }
}

impl BlockView {
    /// The height in lines: the declared one before the block is resolved,
    /// the number of display lines after.
    pub open spec fn height(self) -> nat {
        if self.resolved {
            self.content.len()
        } else {
            self.declared_height as nat
        }
    }

    /// The cells of a line that hold text.
    pub open spec fn wrap_width(self) -> int {
        wrap_width(self.width, self.spacing)
    }

    /// Whether the block can be resolved: it is already, or its width leaves
    /// room for text beside the padding.
    pub open spec fn can_resolve(self) -> bool {
        self.resolved || self.wrap_width() > 0
    }

    /// The display lines of the raw text: wrapped, and each line decorated,
    /// padded and aligned.
    pub open spec fn resolved_lines(self) -> Seq<Seq<char>> {
        wrap(self.raw_text, self.wrap_width() as nat).map_values(
            |line: Seq<char>|
                laid_out(
                    decorate(line, self.style),
                    line.len(),
                    self.width,
                    self.spacing,
                    self.alignment,
                ),
        )
    }

    /// Every display line takes exactly `width` cells and leaves no control
    /// sequence open.
    pub open spec fn lines_fill_width(self) -> bool {
        forall|i: int|
            0 <= i < self.content.len() ==> visible_width(#[trigger] self.content[i])
                == self.width && is_settled(self.content[i])
    }

    /// What `finalize` prints: the resolved lines with the top and bottom
    /// padding, the border around them, the margin outside it, and a line
    /// break after every line.
    pub open spec fn rendered(self) -> Seq<char> {
        let r = self.resolve();
        terminated(
            margined(
                bordered(
                    with_vertical_padding(r.content, r.width as nat, r.spacing),
                    r.width as nat,
                    r.border,
                ),
                r.width as nat,
                r.spacing,
            ),
        )
    }

    /// Row `i` of the block: its display line, or, below its last line, blank
    /// cells of its width.
    pub open spec fn row(self, i: int) -> Seq<char> {
        if 0 <= i < self.content.len() {
            self.content[i]
        } else {
            spaces(self.width as nat)
        }
    }

    /// The display lines, each with blank cells behind it up to `width`.
    pub open spec fn widened(self, width: nat) -> Seq<Seq<char>> {
        self.content.map_values(|l: Seq<char>| l + spaces((width - self.width) as nat))
    }

    /// This block with `other` to its right. Both are resolved; the shorter
    /// one is filled from below with blank rows of its own width; each row is
    /// the row of this block followed by the row of the other. All else is
    /// kept from this block.
    pub open spec fn joined_right(self, other: BlockView) -> BlockView {
        let a = self.resolve();
        let b = other.resolve();
        let rows = if a.content.len() >= b.content.len() {
            a.content.len()
        } else {
            b.content.len()
        };
        BlockView {
            width: (a.width + b.width) as usize,
            content: Seq::new(rows, |i: int| a.row(i) + b.row(i)),
            ..a
        }
    }

    /// This block with `other` below it. Both are resolved; the lines of the
    /// narrower one get blank cells behind them up to the width of the wider
    /// one; the lines of the other follow those of this block. All else is
    /// kept from this block.
    pub open spec fn joined_bottom(self, other: BlockView) -> BlockView {
        let a = self.resolve();
        let b = other.resolve();
        let width = if a.width >= b.width {
            a.width
        } else {
            b.width
        };
        BlockView {
            width,
            content: a.widened(width as nat) + b.widened(width as nat),
            ..a
        }
    }

    /// What resolving this block paints is framed by control sequences only:
    /// the block is resolved already, or the frame of its style takes no
    /// cell.
    pub open spec fn paints_invisibly(self) -> bool {
        self.resolved || frame_is_invisible(self.style.decoration, self.style.color)
    }

    /// The block after resolution. A resolved block stays as it is.
    pub open spec fn resolve(self) -> BlockView {
        if self.resolved {
            self
        } else {
            BlockView { content: self.resolved_lines(), resolved: true, ..self }
        }
    }
}

impl Style {
    /// A block of this style that holds `raw_string`.
    pub fn render_to_block(self, raw_string: &str) -> (block: StyleBlock)
        ensures
            block@ == (BlockView { raw_text: raw_string@, style: self@, ..default_block() }),
    {
        let mut block = StyleBlock::new();
        block.raw_string = raw_string.to_owned();
        block.style = self;
        block
    }

    /// An empty block of this style.
    pub fn to_block(self) -> (block: StyleBlock)
        ensures
            block@ == (BlockView { style: self@, ..default_block() }),
    {
        let mut block = StyleBlock::new();
        block.style = self;
        block
    }
}

impl StyleBlock {
    /// An empty block, 80 cells wide and 24 lines high, with nothing set.
    pub fn new() -> (block: StyleBlock)
        ensures
            block@ == default_block(),
    {
        let block = StyleBlock {
            style: Style::new(),
            width: 80,
            height: 24,
            content: Vec::new(),
            raw_string: String::new(),
            horizontal_alignment: Alignment::Start,
            layout: Spacing {
                margin_top: 0,
                margin_left: 0,
                margin_bottom: 0,
                margin_right: 0,
                padding_top: 0,
                padding_left: 0,
                padding_bottom: 0,
                padding_right: 0,
            },
            border: BorderSet { top: false, right: false, bottom: false, left: false },
            paragraph_fixed: false,
        };
        assert(block.content.deep_view() == Seq::<Seq<char>>::empty());
        block
    }

    /// `size` blank cells in front of a line.
    pub fn pad_left(raw_content: String, size: usize) -> (out: String)
        ensures
            out@ == spaces(size as nat) + raw_content@,
    {
        let mut padding_string = repeated(' ', size);
        padding_string.append(raw_content.as_str());
        padding_string
    }

    /// `size` blank cells behind a line.
    pub fn pad_right(raw_content: String, size: usize) -> (out: String)
        ensures
            out@ == raw_content@ + spaces(size as nat),
    {
        let mut out = raw_content;
        let padding_string = repeated(' ', size);
        out.append(padding_string.as_str());
        out
    }

    /// Brings a line that fills `text_length` cells to the block's width.
    pub fn align_horizontal(
        &self,
        raw_content: String,
        alignment: &Alignment,
        text_length: usize,
    ) -> (out: String)
        requires
            text_length <= self@.width,
        ensures
            out@ == aligned(raw_content@, text_length as nat, self@.width as nat, *alignment),
    {
        let pad: usize = self.width - text_length;
        let left: usize = match alignment {
            Alignment::Start => 0,
            Alignment::Center => pad / 2,
            Alignment::End => pad,
        };
        let out = Self::pad_right(Self::pad_left(raw_content, left), pad - left);
        out
    }

    /// Pads a decorated line that stands for `text_length` characters and
    /// aligns it within the block's width.
    pub fn line_layout(&self, raw_content: String, text_length: usize) -> (out: String)
        requires
            text_length + self@.spacing.padding_left + self@.spacing.padding_right
                <= self@.width,
        ensures
            out@ == laid_out(
                raw_content@,
                text_length as nat,
                self@.width,
                self@.spacing,
                self@.alignment,
            ),
    {
        let with_left = Self::pad_left(raw_content, self.layout.padding_left);
        let with_both = Self::pad_right(with_left, self.layout.padding_right);
        let line_length: usize = text_length + self.layout.padding_left + self.layout.padding_right;
        self.align_horizontal(with_both, &self.horizontal_alignment, line_length)
    }

    /// The raw text wrapped to the cells that hold text.
    pub fn text_wrap(&self) -> (lines: Vec<String>)
        requires
            self@.wrap_width() > 0,
        ensures
            lines.deep_view() == wrap(self@.raw_text, self@.wrap_width() as nat),
            lines.len() >= 1,
            forall|i: int|
                0 <= i < lines.len() ==> (#[trigger] lines.deep_view()[i]).len()
                    <= self@.wrap_width(),
    {
        proof {
            lemma_wrap_lines(self@.raw_text, self@.wrap_width() as nat);
        }
        let wrap_length: usize = self.width - self.layout.padding_left - self.layout.padding_right;
        wrap_lines(self.raw_string.as_str(), wrap_length)
    }

    /// Resolves the block: wraps the raw text, and decorates, pads and aligns
    /// each line. A resolved block is left as it is. Lines of a text without
    /// `ESC` fill the width.
    pub fn render_paragraph(&mut self)
        requires
            old(self)@.can_resolve(),
        ensures
            final(self)@ == old(self)@.resolve(),
            old(self)@.paints_invisibly(),
            !old(self)@.resolved && is_escape_free(old(self)@.raw_text)
                ==> final(self)@.lines_fill_width(),
    {
        if self.paragraph_fixed {
            return ;
        }
        let lines = self.text_wrap();
        let mut content: Vec<String> = Vec::new();
        let ghost view = self@;
        let ghost lay = |line: Seq<char>|
            laid_out(decorate(line, view.style), line.len(), view.width, view.spacing, view.alignment);
        proof {
            lemma_wrap_lines(view.raw_text, view.wrap_width() as nat);
        }
        let mut i: usize = 0;
        while i < lines.len()
            invariant
                i <= lines.len(),
                self@ == view,
                view.wrap_width() > 0,
                lines.deep_view() == wrap(view.raw_text, view.wrap_width() as nat),
                forall|k: int|
                    0 <= k < lines.len() ==> (#[trigger] lines.deep_view()[k]).len()
                        <= view.wrap_width(),
                forall|k: int|
                    0 <= k < lines.len() ==> drawn_from(
                        #[trigger] lines.deep_view()[k],
                        view.raw_text,
                    ),
                lay == (|line: Seq<char>|
                    laid_out(
                        decorate(line, view.style),
                        line.len(),
                        view.width,
                        view.spacing,
                        view.alignment,
                    )),
                content.deep_view() == lines.deep_view().take(i as int).map_values(lay),
                i > 0 ==> frame_is_invisible(view.style.decoration, view.style.color),
                is_escape_free(view.raw_text) ==> forall|k: int|
                    0 <= k < i ==> visible_width(#[trigger] content.deep_view()[k]) == view.width
                        && is_settled(content.deep_view()[k]),
            decreases lines.len() - i,
        {
            let ghost done = content.deep_view();
            let ghost text = lines.deep_view()[i as int];
            assert(text.len() <= view.wrap_width());
            let text_length: usize = lines[i].as_str().unicode_len();
            let decorated_line = self.style.line_text_decoration(lines[i].clone());
            let line = self.line_layout(decorated_line, text_length);
            proof {
                if is_escape_free(view.raw_text) {
                    lemma_drawn_escape_free(text, view.raw_text);
                    lemma_laid_out_width(
                        decorated_line@,
                        text.len(),
                        view.width,
                        view.spacing,
                        view.alignment,
                    );
                }
            }
            content.push(line);
            assert(content.deep_view() == done.push(line@));
            assert(lines.deep_view().take(i + 1).map_values(lay) == done.push(line@));
            i += 1;
        }
        assert(lines.deep_view().take(i as int) == lines.deep_view());
        self.content = content;
        self.paragraph_fixed = true;
    }

    /// Puts `size` blank lines of the block's width above the display lines.
    pub fn pad_top(&mut self, size: usize)
        ensures
            final(self)@ == (BlockView {
                content: blank_lines(size as nat, old(self)@.width as nat) + old(self)@.content,
                ..old(self)@
            }),
    {
        let ghost below = self.content.deep_view();
        let mut lines = blank_block(size, self.width);
        let ghost above = lines.deep_view();
        lines.append(&mut self.content);
        assert(lines.deep_view() == above + below);
        self.content = lines;
    }

    /// Puts `size` blank lines of the block's width below the display lines.
    pub fn pad_bottom(&mut self, size: usize)
        ensures
            final(self)@ == (BlockView {
                content: old(self)@.content + blank_lines(size as nat, old(self)@.width as nat),
                ..old(self)@
            }),
    {
        let ghost above = self.content.deep_view();
        let mut lines = blank_block(size, self.width);
        let ghost below = lines.deep_view();
        self.content.append(&mut lines);
        assert(self.content.deep_view() == above + below);
    }

    /// Draws the border around the display lines.
    pub fn draw_border(&mut self)
        ensures
            final(self)@ == (BlockView {
                content: bordered(old(self)@.content, old(self)@.width as nat, old(self)@.border),
                ..old(self)@
            }),
    {
        let border = self.border;
        let ghost inner = self.content.deep_view();
        let ghost side = |l: Seq<char>| with_sides(l, border);
        let mut lines: Vec<String> = Vec::new();
        if border.top {
            let borderline = edge_rule(self.width, &border, TOP_LEFT, TOP_RIGHT);
            lines.push(borderline);
        }
        let ghost top = lines.deep_view();
        assert(top == line_if(border.top, top_rule(self.width as nat, border)));
        let mut i: usize = 0;
        while i < self.content.len()
            invariant
                i <= self.content.len(),
                self.content.deep_view() == inner,
                side == (|l: Seq<char>| with_sides(l, border)),
                lines.deep_view() == top + inner.take(i as int).map_values(side),
            decreases self.content.len() - i,
        {
            let ghost done = lines.deep_view();
            let mut line = String::new();
            if border.left {
                line.push(VERTICAL);
            }
            line.append(self.content[i].as_str());
            if border.right {
                line.push(VERTICAL);
            }
            assert(line@ == with_sides(inner[i as int], border));
            lines.push(line);
            assert(lines.deep_view() == done.push(line@));
            assert(inner.take(i + 1).map_values(side) == inner.take(i as int).map_values(side).push(
                line@,
            ));
            i += 1;
        }
        assert(inner.take(i as int) == inner);
        if border.bottom {
            let ghost done = lines.deep_view();
            let borderline = edge_rule(self.width, &border, BOTTOM_LEFT, BOTTOM_RIGHT);
            lines.push(borderline);
            assert(lines.deep_view() == done.push(borderline@));
        }
        assert(lines.deep_view() == bordered(inner, self.width as nat, border));
        self.content = lines;
    }

    /// Draws the margin outside the border: blank cells left and right of
    /// every line, and blank lines above and below.
    pub fn draw_margin(&mut self)
        ensures
            final(self)@ == (BlockView {
                content: margined(old(self)@.content, old(self)@.width as nat, old(self)@.spacing),
                ..old(self)@
            }),
    {
        let spacing = self.layout;
        let ghost inner = self.content.deep_view();
        let ghost side = |l: Seq<char>| with_side_margins(l, spacing);
        let mut lines: Vec<String> = Vec::new();
        let mut i: usize = 0;
        while i < self.content.len()
            invariant
                i <= self.content.len(),
                self.content.deep_view() == inner,
                side == (|l: Seq<char>| with_side_margins(l, spacing)),
                lines.deep_view() == inner.take(i as int).map_values(side),
            decreases self.content.len() - i,
        {
            let ghost done = lines.deep_view();
            let with_left = Self::pad_left(self.content[i].clone(), spacing.margin_left);
            let line = Self::pad_right(with_left, spacing.margin_right);
            lines.push(line);
            assert(lines.deep_view() == done.push(line@));
            assert(inner.take(i + 1).map_values(side) == done.push(line@));
            i += 1;
        }
        assert(inner.take(i as int) == inner);
        self.content = lines;
        self.pad_top(spacing.margin_top);
        self.pad_bottom(spacing.margin_bottom);
    }

    /// Puts `target` to the right of this block.
    pub fn join_right(self, target: StyleBlock) -> (joined: StyleBlock)
        requires
            self@.can_resolve(),
            target@.can_resolve(),
            self@.width + target@.width <= usize::MAX,
        ensures
            joined@ == self@.joined_right(target@),
            self@.paints_invisibly() && target@.paints_invisibly(),
            joined@.width == self@.width + target@.width,
            joined@.height() == if self@.resolve().height() >= target@.resolve().height() {
                self@.resolve().height()
            } else {
                target@.resolve().height()
            },
    {
        let mut left = self;
        let mut right = target;
        left.render_paragraph();
        right.render_paragraph();
        let new_height: usize = if left.content.len() > right.content.len() {
            left.content.len()
        } else {
            right.content.len()
        };
        let ghost a = left@;
        let ghost b = right@;
        let mut content: Vec<String> = Vec::new();
        let mut i: usize = 0;
        while i < new_height
            invariant
                i <= new_height,
                left@ == a,
                right@ == b,
                content.deep_view() == Seq::new(i as nat, |k: int| a.row(k) + b.row(k)),
            decreases new_height - i,
        {
            let ghost done = content.deep_view();
            let mut line = if i < left.content.len() {
                left.content[i].clone()
            } else {
                repeated(' ', left.width)
            };
            if i < right.content.len() {
                line.append(right.content[i].as_str());
            } else {
                let padding_string = repeated(' ', right.width);
                line.append(padding_string.as_str());
            }
            assert(line@ == a.row(i as int) + b.row(i as int));
            content.push(line);
            assert(content.deep_view() == done.push(line@));
            i += 1;
        }
        left.content = content;
        left.width = left.width + right.width;
        left
    }

    /// Puts `target` below this block.
    pub fn join_bottom(self, target: StyleBlock) -> (joined: StyleBlock)
        requires
            self@.can_resolve(),
            target@.can_resolve(),
        ensures
            joined@ == self@.joined_bottom(target@),
            self@.paints_invisibly() && target@.paints_invisibly(),
            joined@.width == if self@.width >= target@.width {
                self@.width
            } else {
                target@.width
            },
            joined@.height() == self@.resolve().height() + target@.resolve().height(),
    {
        let mut upper = self;
        let mut lower = target;
        upper.render_paragraph();
        lower.render_paragraph();
        let width: usize = if upper.width > lower.width {
            upper.width
        } else {
            lower.width
        };
        let mut content = upper.widened_lines(width);
        let mut below = lower.widened_lines(width);
        let ghost above = content.deep_view();
        let ghost rest = below.deep_view();
        content.append(&mut below);
        assert(content.deep_view() == above + rest);
        upper.content = content;
        upper.width = width;
        upper
    }

    /// The display lines, each with blank cells behind it up to `width`.
    fn widened_lines(&self, width: usize) -> (lines: Vec<String>)
        requires
            self@.width <= width,
        ensures
            lines.deep_view() == self@.widened(width as nat),
    {
        let width_difference: usize = width - self.width;
        let ghost widen = |l: Seq<char>| l + spaces((width - self@.width) as nat);
        let mut lines: Vec<String> = Vec::new();
        let mut i: usize = 0;
        while i < self.content.len()
            invariant
                i <= self.content.len(),
                width_difference == width - self@.width,
                widen == (|l: Seq<char>| l + spaces((width - self@.width) as nat)),
                lines.deep_view() == self@.content.take(i as int).map_values(widen),
            decreases self.content.len() - i,
        {
            let ghost done = lines.deep_view();
            let line = Self::pad_right(self.content[i].clone(), width_difference);
            lines.push(line);
            assert(lines.deep_view() == done.push(line@));
            assert(self@.content.take(i + 1).map_values(widen) == done.push(line@));
            i += 1;
        }
        assert(self@.content.take(i as int) == self@.content);
        lines
    }

    /// Renders the block into one printable string.
    pub fn finalize(self) -> (out: String)
        requires
            self@.can_resolve(),
        ensures
            out@ == self@.rendered(),
            self@.paints_invisibly(),
    {
        let mut block = self;
        block.render_paragraph();
        block.pad_top(block.layout.padding_top);
        block.pad_bottom(block.layout.padding_bottom);
        block.draw_border();
        block.draw_margin();
        join_terminated(&block.content)
    }
}

} // verus!
