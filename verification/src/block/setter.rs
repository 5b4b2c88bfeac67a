//! The builder calls of a block: each takes the block and gives it back with
//! one option set.

use super::{BlockView, StyleBlock};
use crate::ansi::DecorationSet;
use crate::layout::{Alignment, BorderSet, Spacing};
use crate::style::StyleView;
use vstd::prelude::*;

verus! {

impl StyleBlock {
    /// Sets the width in cells within the border.
    pub fn set_width(self, size: usize) -> (block: StyleBlock)
        ensures
            block@ == (BlockView { width: size, ..self@ }),
    {
        let mut block = self;
        block.width = size;
        block
    }

    /// Declares the height. It counts until the block is resolved; from there
    /// on the height is the number of display lines.
    pub fn set_height(self, size: usize) -> (block: StyleBlock)
        ensures
            block@ == (BlockView { declared_height: size, ..self@ }),
    {
        let mut block = self;
        block.height = size;
        block
    }

    /// Sets the padding above the text, in lines.
    pub fn padding_top(self, size: usize) -> (block: StyleBlock)
        ensures
            block@ == (BlockView {
                spacing: Spacing { padding_top: size, ..self@.spacing },
                ..self@
            }),
    {
        let mut block = self;
        block.layout.padding_top = size;
        block
    }

    /// Sets the padding below the text, in lines.
    pub fn padding_bottom(self, size: usize) -> (block: StyleBlock)
        ensures
            block@ == (BlockView {
                spacing: Spacing { padding_bottom: size, ..self@.spacing },
                ..self@
            }),
    {
        let mut block = self;
        block.layout.padding_bottom = size;
        block
    }

    /// Sets the padding left of the text, in cells.
    pub fn padding_left(self, size: usize) -> (block: StyleBlock)
        ensures
            block@ == (BlockView {
                spacing: Spacing { padding_left: size, ..self@.spacing },
                ..self@
            }),
    {
        let mut block = self;
        block.layout.padding_left = size;
        block
    }

    /// Sets the padding right of the text, in cells.
    pub fn padding_right(self, size: usize) -> (block: StyleBlock)
        ensures
            block@ == (BlockView {
                spacing: Spacing { padding_right: size, ..self@.spacing },
                ..self@
            }),
    {
        let mut block = self;
        block.layout.padding_right = size;
        block
    }

    /// Aligns the text at the start of each line.
    pub fn align_start(self) -> (block: StyleBlock)
        ensures
            block@ == (BlockView { alignment: Alignment::Start, ..self@ }),
    {
        let mut block = self;
        block.horizontal_alignment = Alignment::Start;
        block
    }

    /// Centers the text in each line.
    pub fn align_center(self) -> (block: StyleBlock)
        ensures
            block@ == (BlockView { alignment: Alignment::Center, ..self@ }),
    {
        let mut block = self;
        block.horizontal_alignment = Alignment::Center;
        block
    }

    /// Aligns the text at the end of each line.
    pub fn align_end(self) -> (block: StyleBlock)
        ensures
            block@ == (BlockView { alignment: Alignment::End, ..self@ }),
    {
        let mut block = self;
        block.horizontal_alignment = Alignment::End;
        block
    }

    /// Draws the left edge of the border.
    pub fn border_left(self) -> (block: StyleBlock)
        ensures
            block@ == (BlockView { border: BorderSet { left: true, ..self@.border }, ..self@ }),
    {
        let mut block = self;
        block.border.left = true;
        block
    }

    /// Draws the right edge of the border.
    pub fn border_right(self) -> (block: StyleBlock)
        ensures
            block@ == (BlockView { border: BorderSet { right: true, ..self@.border }, ..self@ }),
    {
        let mut block = self;
        block.border.right = true;
        block
    }

    /// Draws the top edge of the border.
    pub fn border_top(self) -> (block: StyleBlock)
        ensures
            block@ == (BlockView { border: BorderSet { top: true, ..self@.border }, ..self@ }),
    {
        let mut block = self;
        block.border.top = true;
        block
    }

    /// Draws the bottom edge of the border.
    pub fn border_bottom(self) -> (block: StyleBlock)
        ensures
            block@ == (BlockView { border: BorderSet { bottom: true, ..self@.border }, ..self@ }),
    {
        let mut block = self;
        block.border.bottom = true;
        block
    }

    /// Sets the margin above the border, in lines.
    pub fn margin_top(self, size: usize) -> (block: StyleBlock)
        ensures
            block@ == (BlockView {
                spacing: Spacing { margin_top: size, ..self@.spacing },
                ..self@
            }),
    {
        let mut block = self;
        block.layout.margin_top = size;
        block
    }

    /// Sets the margin below the border, in lines.
    pub fn margin_bottom(self, size: usize) -> (block: StyleBlock)
        ensures
            block@ == (BlockView {
                spacing: Spacing { margin_bottom: size, ..self@.spacing },
                ..self@
            }),
    {
        let mut block = self;
        block.layout.margin_bottom = size;
        block
    }

    /// Sets the margin left of the border, in cells.
    pub fn margin_left(self, size: usize) -> (block: StyleBlock)
        ensures
            block@ == (BlockView {
                spacing: Spacing { margin_left: size, ..self@.spacing },
                ..self@
            }),
    {
        let mut block = self;
        block.layout.margin_left = size;
        block
    }

    /// Sets the margin right of the border, in cells.
    pub fn margin_right(self, size: usize) -> (block: StyleBlock)
        ensures
            block@ == (BlockView {
                spacing: Spacing { margin_right: size, ..self@.spacing },
                ..self@
            }),
    {
        let mut block = self;
        block.layout.margin_right = size;
        block
    }

    /// Sets bold.
    pub fn bold(self) -> (block: StyleBlock)
        ensures
            block@ == (BlockView {
                style: self@.style.with_decoration(
                    DecorationSet { bold: true, ..self@.style.decoration },
                ),
                ..self@
            }),
    {
        let mut block = self;
        block.style = block.style.bold();
        block
    }

    /// Sets italic.
    pub fn italic(self) -> (block: StyleBlock)
        ensures
            block@ == (BlockView {
                style: self@.style.with_decoration(
                    DecorationSet { italic: true, ..self@.style.decoration },
                ),
                ..self@
            }),
    {
        let mut block = self;
        block.style = block.style.italic();
        block
    }

    /// Sets underline. The blanks are underlined too while they are decorated.
    pub fn underline(self) -> (block: StyleBlock)
        ensures
            block@ == (BlockView {
                style: self@.style.with_decoration(
                    DecorationSet { underline: true, ..self@.style.decoration },
                ),
                ..self@
            }),
    {
        let mut block = self;
        block.style = block.style.underline();
        block
    }

    /// Sets reverse.
    pub fn reverse(self) -> (block: StyleBlock)
        ensures
            block@ == (BlockView {
                style: self@.style.with_decoration(
                    DecorationSet { reverse: true, ..self@.style.decoration },
                ),
                ..self@
            }),
    {
        let mut block = self;
        block.style = block.style.reverse();
        block
    }

    /// Sets strikethrough. The blanks are struck through too while they are
    /// decorated.
    pub fn strikethrough(self) -> (block: StyleBlock)
        ensures
            block@ == (BlockView {
                style: self@.style.with_decoration(
                    DecorationSet { strikethrough: true, ..self@.style.decoration },
                ),
                ..self@
            }),
    {
        let mut block = self;
        block.style = block.style.strikethrough();
        block
    }

    /// Sets blink.
    pub fn blink(self) -> (block: StyleBlock)
        ensures
            block@ == (BlockView {
                style: self@.style.with_decoration(
                    DecorationSet { blink: true, ..self@.style.decoration },
                ),
                ..self@
            }),
    {
        let mut block = self;
        block.style = block.style.blink();
        block
    }

    /// Sets the foreground colour.
    pub fn foreground_rgb(self, r: u8, g: u8, b: u8) -> (block: StyleBlock)
        ensures
            block@ == (BlockView { style: self@.style.with_foreground(Some((r, g, b))), ..self@ }),
    {
        let mut block = self;
        block.style = block.style.foreground_rgb(r, g, b);
        block
    }

    /// Sets the background colour.
    pub fn background_rgb(self, r: u8, g: u8, b: u8) -> (block: StyleBlock)
        ensures
            block@ == (BlockView { style: self@.style.with_background(Some((r, g, b))), ..self@ }),
    {
        let mut block = self;
        block.style = block.style.background_rgb(r, g, b);
        block
    }

    /// Goes back to the terminal's own foreground.
    pub fn reset_foreground(self) -> (block: StyleBlock)
        ensures
            block@ == (BlockView { style: self@.style.with_foreground(None), ..self@ }),
    {
        let mut block = self;
        block.style = block.style.reset_foreground();
        block
    }

    /// Goes back to the terminal's own background.
    pub fn reset_background(self) -> (block: StyleBlock)
        ensures
            block@ == (BlockView { style: self@.style.with_background(None), ..self@ }),
    {
        let mut block = self;
        block.style = block.style.reset_background();
        block
    }

    /// Leaves the blanks between words bare.
    pub fn ignore_space(self) -> (block: StyleBlock)
        ensures
            block@ == (BlockView {
                style: StyleView { decorated_space: false, ..self@.style },
                ..self@
            }),
    {
        let mut block = self;
        block.style = block.style.ignore_space();
        block
    }
}

} // verus!
