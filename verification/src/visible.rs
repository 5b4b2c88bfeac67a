//! The visible width of a rendered line: the number of characters that take a
//! cell on the terminal, control sequences left out.

use crate::ansi::{is_sgr_parameter, is_sgr_sequence, ESCAPE};
use crate::text::repeat;
use vstd::prelude::*;

verus! {

/// Where a reader of terminal output stands after some characters.
pub enum Scan {
    /// Outside any control sequence.
    Text,
    /// Right after `ESC`.
    Escape,
    /// Inside a sequence opened by `ESC [`, before its last character.
    Sequence,
}

/// A character that ends a sequence opened by `ESC [`.
pub open spec fn is_final_character(c: char) -> bool {
    '@' <= c && c <= '~'
}

/// The reader's place after one more character.
pub open spec fn scan_step(mode: Scan, c: char) -> Scan {
    match mode {
        Scan::Text => if c == ESCAPE {
            Scan::Escape
        } else {
            Scan::Text
        },
        Scan::Escape => if c == '[' {
            Scan::Sequence
        } else {
            Scan::Text
        },
        Scan::Sequence => if is_final_character(c) {
            Scan::Text
        } else {
            Scan::Sequence
        },
    }
}

/// Whether a character read at this place takes a cell.
pub open spec fn takes_cell(mode: Scan, c: char) -> bool {
    mode is Text && c != ESCAPE
}

/// The reader's place after all of `s`, starting from `start`.
pub open spec fn scan_mode(start: Scan, s: Seq<char>) -> Scan
    decreases s.len(),
{
    if s.len() == 0 {
        start
    } else {
        scan_step(scan_mode(start, s.drop_last()), s.last())
    }
}

/// The cells that `s` takes when the reader starts from `start`.
pub open spec fn scan_cells(start: Scan, s: Seq<char>) -> nat
    decreases s.len(),
{
    if s.len() == 0 {
        0
    } else {
        let before = scan_cells(start, s.drop_last());
        if takes_cell(scan_mode(start, s.drop_last()), s.last()) {
            before + 1
        } else {
            before
        }
    }
}

/// The number of cells that a line takes on the terminal.
pub open spec fn visible_width(s: Seq<char>) -> nat {
    scan_cells(Scan::Text, s)
}

/// No control sequence is left open at the end of `s`.
pub open spec fn is_settled(s: Seq<char>) -> bool {
    scan_mode(Scan::Text, s) is Text
}

/// No character of `s` is `ESC`.
pub open spec fn is_escape_free(s: Seq<char>) -> bool {
    forall|i: int| 0 <= i < s.len() ==> s[i] != ESCAPE
}

/// Reading `a + b` is reading `a` and going on with `b`.
pub proof fn lemma_scan_concat(start: Scan, a: Seq<char>, b: Seq<char>)
    ensures
        scan_mode(start, a + b) == scan_mode(scan_mode(start, a), b),
        scan_cells(start, a + b) == scan_cells(start, a) + scan_cells(scan_mode(start, a), b),
    decreases b.len(),
{
    if b.len() == 0 {
        assert(a + b == a);
    } else {
        assert((a + b).drop_last() == a + b.drop_last());
        lemma_scan_concat(start, a, b.drop_last());
    }
}

/// After a settled line, a second one counts as if it stood alone.
pub proof fn lemma_visible_concat(a: Seq<char>, b: Seq<char>)
    requires
        is_settled(a),
    ensures
        visible_width(a + b) == visible_width(a) + visible_width(b),
        is_settled(a + b) == is_settled(b),
{
    lemma_scan_concat(Scan::Text, a, b);
}

/// Every character of a text without `ESC` takes a cell.
pub proof fn lemma_visible_escape_free(s: Seq<char>)
    requires
        is_escape_free(s),
    ensures
        visible_width(s) == s.len(),
        is_settled(s),
    decreases s.len(),
{
    if s.len() > 0 {
        lemma_visible_escape_free(s.drop_last());
    }
}

/// Blank cells count one each.
pub proof fn lemma_visible_repeat(c: char, n: nat)
    requires
        c != ESCAPE,
    ensures
        visible_width(repeat(c, n)) == n,
        is_settled(repeat(c, n)),
{
    lemma_visible_escape_free(repeat(c, n));
}

/// Digits and semicolons inside a sequence leave the reader inside it.
proof fn lemma_scan_parameters(s: Seq<char>)
    requires
        forall|i: int| 0 <= i < s.len() ==> is_sgr_parameter(#[trigger] s[i]),
    ensures
        scan_mode(Scan::Sequence, s) is Sequence,
        scan_cells(Scan::Sequence, s) == 0,
    decreases s.len(),
{
    if s.len() > 0 {
        lemma_scan_parameters(s.drop_last());
        assert(is_sgr_parameter(s.last()));
    }
}

/// A sequence that selects attributes takes no cell and is complete.
pub proof fn lemma_visible_sgr_sequence(s: Seq<char>)
    requires
        is_sgr_sequence(s),
    ensures
        visible_width(s) == 0,
        is_settled(s),
{
    let open = seq![ESCAPE, '['];
    let body = s.subrange(2, s.len() - 1);
    let close = seq!['m'];
    assert(s == open + body + close);
    assert(scan_mode(Scan::Text, open) is Sequence && scan_cells(Scan::Text, open) == 0) by {
        reveal_with_fuel(scan_mode, 3);
        reveal_with_fuel(scan_cells, 3);
        assert(open.drop_last() == seq![ESCAPE]);
        assert(open.drop_last().drop_last() == Seq::<char>::empty());
    }
    assert forall|i: int| 0 <= i < body.len() implies is_sgr_parameter(#[trigger] body[i]) by {
        assert(body[i] == s[i + 2]);
    }
    lemma_scan_parameters(body);
    lemma_scan_concat(Scan::Text, open, body);
    assert(scan_mode(Scan::Sequence, close) is Text && scan_cells(Scan::Sequence, close) == 0) by {
        reveal_with_fuel(scan_mode, 2);
        reveal_with_fuel(scan_cells, 2);
        assert(close.drop_last() == Seq::<char>::empty());
    }
    lemma_scan_concat(Scan::Text, open + body, close);
}

} // verus!
