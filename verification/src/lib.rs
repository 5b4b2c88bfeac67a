//! Terminal text styling and box layout: wrapped, decorated, padded, bordered
//! and margined blocks of text that can be joined side by side or stacked.

use vstd::prelude::*;

/// Attributes, colours, and painting a text with them.
pub mod ansi;
/// Blocks: resolution, border, margin, joins and the final string.
pub mod block;
/// What holds of every text and every block.
pub mod laws;
/// Padding, alignment, border and margin over character sequences.
pub mod layout;
/// Styles and the decoration of a line.
pub mod style;
/// Splitting, joining and wrapping.
pub mod text;
/// The visible width of a line.
pub mod visible;

verus! {

/// Sum of two sizes.
pub fn add(left: usize, right: usize) -> (sum: usize)
    requires
        left + right <= usize::MAX,
    ensures
        sum == left + right,
{
    left + right
}

} // verus!
