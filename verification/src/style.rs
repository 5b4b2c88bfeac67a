//! A style: the attributes and colours of a text, and whether the blanks
//! between its words are decorated with it.

use crate::ansi::{
    frame_is_invisible, is_plain, paint, painted, prefix_of, suffix_of, ColorPair, DecorationSet,
};
use crate::text::{
    drawn_from, join, join_with, lemma_join_split, lemma_split_on_nonempty, lemma_split_pieces,
    split, split_on,
};
use crate::visible::{
    is_escape_free, is_settled, lemma_visible_concat, lemma_visible_escape_free,
    lemma_visible_sgr_sequence, visible_width,
};
use vstd::prelude::*;

verus! {

/// Attributes and colours for a text.
#[derive(Clone, Copy, Debug)]
pub struct Style {
    decoration: DecorationSet,
    color: ColorPair,
    decorated_space: bool,
}

/// What a style holds.
pub struct StyleView {
    pub decoration: DecorationSet,
    pub color: ColorPair,
    pub decorated_space: bool,
}

impl View for Style {
    type V = StyleView;

    closed spec fn view(&self) -> StyleView {
        StyleView {
            decoration: self.decoration,
            color: self.color,
            decorated_space: self.decorated_space,
        }
    }
}

impl StyleView {
    /// This style with another decoration set.
    pub open spec fn with_decoration(self, decoration: DecorationSet) -> StyleView {
        StyleView { decoration, ..self }
    }

    /// This style with another foreground.
    pub open spec fn with_foreground(self, foreground: Option<(u8, u8, u8)>) -> StyleView {
        StyleView { color: ColorPair { foreground, ..self.color }, ..self }
    }

    /// This style with another background.
    pub open spec fn with_background(self, background: Option<(u8, u8, u8)>) -> StyleView {
        StyleView { color: ColorPair { background, ..self.color }, ..self }
    }
}

/// The style that `Style::new` gives: nothing set, blanks decorated.
pub open spec fn default_style() -> StyleView {
    StyleView {
        decoration: DecorationSet {
            bold: false,
            italic: false,
            underline: false,
            strikethrough: false,
            reverse: false,
            blink: false,
        },
        color: ColorPair { foreground: None, background: None },
        decorated_space: true,
    }
}

/// A line decorated with a style. With decorated blanks the whole line is
/// painted as one; without, each word between single blanks is painted on its
/// own and the blanks between them stay bare.
pub open spec fn decorate(text: Seq<char>, style: StyleView) -> Seq<char> {
    if style.decorated_space {
        painted(text, style.decoration, style.color)
    } else {
        join_with(
            split_on(text, ' ').map_values(
                |word: Seq<char>| painted(word, style.decoration, style.color),
            ),
            ' ',
        )
    }
}

/// A painted text takes as many cells as the bare text has characters.
pub proof fn lemma_painted_width(text: Seq<char>, decoration: DecorationSet, color: ColorPair)
    requires
        frame_is_invisible(decoration, color),
        is_escape_free(text),
    ensures
        visible_width(painted(text, decoration, color)) == text.len(),
        is_settled(painted(text, decoration, color)),
{
    let prefix = prefix_of(decoration, color);
    let suffix = suffix_of(decoration, color);
    if is_plain(decoration, color) {
        assert(prefix + text + suffix == text);
        lemma_visible_escape_free(text);
    } else {
        lemma_visible_sgr_sequence(prefix);
        lemma_visible_sgr_sequence(suffix);
        lemma_visible_escape_free(text);
        lemma_visible_concat(prefix, text);
        lemma_visible_concat(prefix + text, suffix);
    }
}

/// Words painted one by one and joined by bare blanks take as many cells as
/// the bare words joined by blanks have characters.
pub proof fn lemma_painted_words_width(
    words: Seq<Seq<char>>,
    decoration: DecorationSet,
    color: ColorPair,
)
    requires
        frame_is_invisible(decoration, color),
        forall|i: int| 0 <= i < words.len() ==> is_escape_free(#[trigger] words[i]),
    ensures
        visible_width(
            join_with(words.map_values(|word: Seq<char>| painted(word, decoration, color)), ' '),
        ) == join_with(words, ' ').len(),
        is_settled(
            join_with(words.map_values(|word: Seq<char>| painted(word, decoration, color)), ' '),
        ),
    decreases words.len(),
{
    let brush = |word: Seq<char>| painted(word, decoration, color);
    let parts = words.map_values(brush);
    if words.len() == 0 {
    } else if words.len() == 1 {
        lemma_painted_width(words[0], decoration, color);
    } else {
        lemma_painted_words_width(words.drop_last(), decoration, color);
        lemma_painted_width(words.last(), decoration, color);
        assert(parts.drop_last() == words.drop_last().map_values(brush));
        let head = join_with(parts.drop_last(), ' ');
        let blank = seq![' '];
        assert(head.push(' ') == head + blank);
        lemma_visible_escape_free(blank);
        lemma_visible_concat(head, blank);
        lemma_visible_concat(head + blank, parts.last());
    }
}

/// A decorated line takes as many cells as the bare line has characters, and
/// leaves no control sequence open.
pub proof fn lemma_decorate_width(text: Seq<char>, style: StyleView)
    requires
        frame_is_invisible(style.decoration, style.color),
        is_escape_free(text),
    ensures
        visible_width(decorate(text, style)) == text.len(),
        is_settled(decorate(text, style)),
{
    if style.decorated_space {
        lemma_painted_width(text, style.decoration, style.color);
    } else {
        let words = split_on(text, ' ');
        lemma_split_pieces(text, ' ');
        lemma_join_split(text, ' ');
        assert forall|i: int| 0 <= i < words.len() implies is_escape_free(#[trigger] words[i]) by {
            lemma_drawn_escape_free(words[i], text);
        }
        lemma_painted_words_width(words, style.decoration, style.color);
    }
}

/// What is made of characters of a text without `ESC` has none either.
pub proof fn lemma_drawn_escape_free(piece: Seq<char>, text: Seq<char>)
    requires
        drawn_from(piece, text),
        is_escape_free(text),
    ensures
        is_escape_free(piece),
{
    assert forall|j: int| 0 <= j < piece.len() implies piece[j] != crate::ansi::ESCAPE by {
        assert(text.contains(piece[j]));
    }
}

impl Style {
    /// A style with nothing set.
    pub fn new() -> (style: Style)
        ensures
            style@ == default_style(),
    {
        Style {
            decoration: DecorationSet {
                bold: false,
                italic: false,
                underline: false,
                strikethrough: false,
                reverse: false,
                blink: false,
            },
            color: ColorPair { foreground: None, background: None },
            decorated_space: true,
        }
    }

    /// Sets bold.
    pub fn bold(self) -> (style: Style)
        ensures
            style@ == self@.with_decoration(DecorationSet { bold: true, ..self@.decoration }),
    {
        let mut style = self;
        style.decoration.bold = true;
        style
    }

    /// Sets italic.
    pub fn italic(self) -> (style: Style)
        ensures
            style@ == self@.with_decoration(DecorationSet { italic: true, ..self@.decoration }),
    {
        let mut style = self;
        style.decoration.italic = true;
        style
    }

    /// Sets underline. The blanks are underlined too while they are
    /// decorated.
    pub fn underline(self) -> (style: Style)
        ensures
            style@ == self@.with_decoration(
                DecorationSet { underline: true, ..self@.decoration },
            ),
    {
        let mut style = self;
        style.decoration.underline = true;
        style
    }

    /// Sets reverse.
    pub fn reverse(self) -> (style: Style)
        ensures
            style@ == self@.with_decoration(DecorationSet { reverse: true, ..self@.decoration }),
    {
        let mut style = self;
        style.decoration.reverse = true;
        style
    }

    /// Sets strikethrough. The blanks are struck through too while they are
    /// decorated.
    pub fn strikethrough(self) -> (style: Style)
        ensures
            style@ == self@.with_decoration(
                DecorationSet { strikethrough: true, ..self@.decoration },
            ),
    {
        let mut style = self;
        style.decoration.strikethrough = true;
        style
    }

    /// Sets blink.
    pub fn blink(self) -> (style: Style)
        ensures
            style@ == self@.with_decoration(DecorationSet { blink: true, ..self@.decoration }),
    {
        let mut style = self;
        style.decoration.blink = true;
        style
    }

    /// Sets the foreground colour.
    pub fn foreground_rgb(self, r: u8, g: u8, b: u8) -> (style: Style)
        ensures
            style@ == self@.with_foreground(Some((r, g, b))),
    {
        let mut style = self;
        style.color.foreground = Some((r, g, b));
        style
    }

    /// Sets the background colour.
    pub fn background_rgb(self, r: u8, g: u8, b: u8) -> (style: Style)
        ensures
            style@ == self@.with_background(Some((r, g, b))),
    {
        let mut style = self;
        style.color.background = Some((r, g, b));
        style
    }

    /// Goes back to the terminal's own foreground.
    pub fn reset_foreground(self) -> (style: Style)
        ensures
            style@ == self@.with_foreground(None),
    {
        let mut style = self;
        style.color.foreground = None;
        style
    }

    /// Goes back to the terminal's own background.
    pub fn reset_background(self) -> (style: Style)
        ensures
            style@ == self@.with_background(None),
    {
        let mut style = self;
        style.color.background = None;
        style
    }

    /// Leaves the blanks between words bare.
    pub fn ignore_space(self) -> (style: Style)
        ensures
            style@ == (StyleView { decorated_space: false, ..self@ }),
    {
        let mut style = self;
        style.decorated_space = false;
        style
    }

    /// Whether bold is set.
    pub fn is_bold(&self) -> (on: bool)
        ensures
            on == self@.decoration.bold,
    {
        self.decoration.bold
    }

    /// Whether italic is set.
    pub fn is_italic(&self) -> (on: bool)
        ensures
            on == self@.decoration.italic,
    {
        self.decoration.italic
    }

    /// Whether strikethrough is set.
    pub fn is_strikethrough(&self) -> (on: bool)
        ensures
            on == self@.decoration.strikethrough,
    {
        self.decoration.strikethrough
    }

    /// Whether underline is set.
    pub fn is_underline(&self) -> (on: bool)
        ensures
            on == self@.decoration.underline,
    {
        self.decoration.underline
    }

    /// Whether blink is set.
    pub fn is_blink(&self) -> (on: bool)
        ensures
            on == self@.decoration.blink,
    {
        self.decoration.blink
    }

    /// Whether reverse is set.
    pub fn is_reverse(&self) -> (on: bool)
        ensures
            on == self@.decoration.reverse,
    {
        self.decoration.reverse
    }

    /// Decorates a text as one line, without any layout.
    pub fn render(self, raw_string: &str) -> (out: String)
        ensures
            out@ == decorate(raw_string@, self@),
            frame_is_invisible(self@.decoration, self@.color),
            is_escape_free(raw_string@) ==> visible_width(out@) == raw_string@.len()
                && is_settled(out@),
    {
        let content = raw_string.to_owned();
        self.line_text_decoration(content)
    }

    /// Decorates one line. The decoration adds control sequences only: a line
    /// without `ESC` keeps its visible width.
    pub fn line_text_decoration(&self, raw_content: String) -> (out: String)
        ensures
            out@ == decorate(raw_content@, self@),
            frame_is_invisible(self@.decoration, self@.color),
            is_escape_free(raw_content@) ==> visible_width(out@) == raw_content@.len()
                && is_settled(out@),
    {
        if self.decorated_space {
            let out = paint(raw_content.as_str(), self.decoration, self.color);
            proof {
                if is_escape_free(raw_content@) {
                    lemma_decorate_width(raw_content@, self@);
                }
            }
            out
        } else {
            let words = split(raw_content.as_str(), ' ');
            let mut parts: Vec<String> = Vec::new();
            let ghost brush = |word: Seq<char>| painted(word, self@.decoration, self@.color);
            let mut i: usize = 0;
            while i < words.len()
                invariant
                    i <= words.len(),
                    brush == (|word: Seq<char>| painted(word, self@.decoration, self@.color)),
                    parts.deep_view() == words.deep_view().take(i as int).map_values(brush),
                    i > 0 ==> frame_is_invisible(self@.decoration, self@.color),
                decreases words.len() - i,
            {
                let ghost done = parts.deep_view();
                let part = paint(words[i].as_str(), self.decoration, self.color);
                parts.push(part);
                assert(parts.deep_view() == done.push(part@));
                assert(words.deep_view().take(i + 1).map_values(brush) == done.push(part@));
                i += 1;
            }
            proof {
                assert(words.deep_view().take(i as int) == words.deep_view());
                lemma_split_on_nonempty(raw_content@, ' ');
                if is_escape_free(raw_content@) {
                    lemma_decorate_width(raw_content@, self@);
                }
            }
            join(&parts, ' ')
        }
    }
}

} // verus!
