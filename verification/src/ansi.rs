//! Text attributes, and the call that paints a text with them as ANSI control
//! sequences.

use vstd::prelude::*;

verus! {

/// The character that starts every control sequence.
pub const ESCAPE: char = '\u{1b}';

/// The text attributes, each on or off on its own.
#[derive(Clone, Copy, Debug)]
pub struct DecorationSet {
    pub bold: bool,
    pub italic: bool,
    pub underline: bool,
    pub strikethrough: bool,
    pub reverse: bool,
    pub blink: bool,
}

/// Foreground and background as red, green and blue; `None` leaves the
/// terminal's own colour.
#[derive(Clone, Copy, Debug)]
pub struct ColorPair {
    pub foreground: Option<(u8, u8, u8)>,
    pub background: Option<(u8, u8, u8)>,
}

/// No attribute and no colour: such a text is painted as it stands.
pub open spec fn is_plain(decoration: DecorationSet, color: ColorPair) -> bool {
    &&& !decoration.bold
    &&& !decoration.italic
    &&& !decoration.underline
    &&& !decoration.strikethrough
    &&& !decoration.reverse
    &&& !decoration.blink
    &&& color.foreground is None
    &&& color.background is None
}

/// A character that may stand between the opening and the closing character
/// of a sequence that selects attributes: a digit or a semicolon.
pub open spec fn is_sgr_parameter(c: char) -> bool {
    ('0' <= c && c <= '9') || c == ';'
}

/// A sequence that selects attributes: `ESC [`, digits and semicolons, `m`.
pub open spec fn is_sgr_sequence(s: Seq<char>) -> bool {
    &&& s.len() >= 3
    &&& s[0] == ESCAPE
    &&& s[1] == '['
    &&& s.last() == 'm'
    &&& forall|i: int| 2 <= i < s.len() - 1 ==> is_sgr_parameter(#[trigger] s[i])
}

/// What nu_ansi_term writes in front of a text that it paints with these
/// attributes and colours.
pub uninterp spec fn sgr_prefix(
    bold: bool,
    italic: bool,
    underline: bool,
    strikethrough: bool,
    blink: bool,
    reverse: bool,
    foreground: Option<(u8, u8, u8)>,
    background: Option<(u8, u8, u8)>,
) -> Seq<char>;

/// The prefix for a decoration set and a colour pair.
pub open spec fn prefix_of(decoration: DecorationSet, color: ColorPair) -> Seq<char> {
    sgr_prefix(
        decoration.bold,
        decoration.italic,
        decoration.underline,
        decoration.strikethrough,
        decoration.blink,
        decoration.reverse,
        color.foreground,
        color.background,
    )
}

/// What follows a painted text: nothing after a plain one, else the sequence
/// that resets all attributes.
pub open spec fn suffix_of(decoration: DecorationSet, color: ColorPair) -> Seq<char> {
    if is_plain(decoration, color) {
        Seq::<char>::empty()
    } else {
        seq![ESCAPE, '[', '0', 'm']
    }
}

/// A text between the prefix and the suffix of its attributes.
pub open spec fn painted(text: Seq<char>, decoration: DecorationSet, color: ColorPair) -> Seq<
    char,
> {
    prefix_of(decoration, color) + text + suffix_of(decoration, color)
}

/// The prefix of a plain text is empty, and any other prefix is one sequence
/// that selects attributes.
pub open spec fn frame_is_invisible(decoration: DecorationSet, color: ColorPair) -> bool {
    if is_plain(decoration, color) {
        prefix_of(decoration, color).len() == 0
    } else {
        is_sgr_sequence(prefix_of(decoration, color))
    }
}

/// Calls `Style::paint` of nu_ansi_term with a style that has these
/// attributes and colours and nothing else, and writes the painted text out
/// with `to_string`. The crate writes the style's prefix, the text as it
/// stands, and the style's suffix. A style with nothing set has neither. For
/// any other style the prefix is `ESC [`, numbers separated by semicolons,
/// and `m`; the suffix is `ESC [ 0 m`.
#[verifier::external_body]
fn paint_with_handler(text: &str, decoration: DecorationSet, color: ColorPair) -> (out: String)
    ensures
        out@ == sgr_prefix(
            decoration.bold,
            decoration.italic,
            decoration.underline,
            decoration.strikethrough,
            decoration.blink,
            decoration.reverse,
            color.foreground,
            color.background,
        ) + text@ + suffix_of(decoration, color),
        is_plain(decoration, color) ==> out@ == text@,
        !is_plain(decoration, color) ==> is_sgr_sequence(
            out@.subrange(0, out@.len() - text@.len() - 4),
        ),
{
    let handler = nu_ansi_term::Style {
        foreground: color.foreground.map(|c| nu_ansi_term::Color::Rgb(c.0, c.1, c.2)),
        background: color.background.map(|c| nu_ansi_term::Color::Rgb(c.0, c.1, c.2)),
        is_bold: decoration.bold,
        is_italic: decoration.italic,
        is_underline: decoration.underline,
        is_strikethrough: decoration.strikethrough,
        is_blink: decoration.blink,
        is_reverse: decoration.reverse,
        ..nu_ansi_term::Style::new()
    };
    handler.paint(text).to_string()
}

/// Paints a text. The result is the text within its frame, and the frame
/// takes no cell.
pub fn paint(text: &str, decoration: DecorationSet, color: ColorPair) -> (out: String)
    ensures
        out@ == painted(text@, decoration, color),
        frame_is_invisible(decoration, color),
{
    let out = paint_with_handler(text, decoration, color);
    proof {
        let prefix = prefix_of(decoration, color);
        if is_plain(decoration, color) {
            assert(prefix.len() + text@.len() == out@.len());
        } else {
            assert(out@.subrange(0, out@.len() - text@.len() - 4) == prefix);
        }
    }
    out
}

} // verus!
