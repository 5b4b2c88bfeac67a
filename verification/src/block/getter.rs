//! What a block tells about itself.

use super::StyleBlock;
use vstd::prelude::*;

verus! {

impl StyleBlock {
    /// The width in cells.
    pub fn get_width(&self) -> (width: usize)
        ensures
            width == self@.width,
    {
        self.width
    }

    /// The height in lines: the declared one before the block is resolved,
    /// the number of display lines after.
    pub fn get_height(&self) -> (height: usize)
        ensures
            height == self@.height(),
    {
        if self.paragraph_fixed {
            self.content.len()
        } else {
            self.height
        }
    }

    /// Whether the block can be resolved: it is already, or its width leaves
    /// room for text beside the padding.
    pub fn can_resolve(&self) -> (ok: bool)
        ensures
            ok == self@.can_resolve(),
    {
        self.paragraph_fixed || (self.layout.padding_left < self.width
            && self.layout.padding_right < self.width - self.layout.padding_left)
    }
}

} // verus!
