use ripgross::text::{hard_wrap, join, join_terminated, repeated, split, wrap_lines};

fn strings(items: &[&str]) -> Vec<String> {
    items.iter().map(|s| s.to_string()).collect()
}

#[test]
fn repeated_gives_that_many_copies() {
    assert_eq!(repeated(' ', 0), "");
    assert_eq!(repeated(' ', 3), "   ");
    assert_eq!(repeated('\u{2500}', 2), "\u{2500}\u{2500}");
}

#[test]
fn split_gives_one_more_piece_than_separators() {
    assert_eq!(split("", ','), strings(&[""]));
    assert_eq!(split("abc", ','), strings(&["abc"]));
    assert_eq!(split("a,b,,c", ','), strings(&["a", "b", "", "c"]));
    assert_eq!(split(",", ','), strings(&["", ""]));
    assert_eq!(split("a\n", '\n'), strings(&["a", ""]));
    assert_eq!(split("\na", '\n'), strings(&["", "a"]));
}

#[test]
fn join_puts_one_separator_between_neighbours() {
    assert_eq!(join(&strings(&[]), ' '), "");
    assert_eq!(join(&strings(&["one"]), ' '), "one");
    assert_eq!(join(&strings(&["a", "b", "c"]), ' '), "a b c");
    assert_eq!(join(&strings(&["", ""]), ','), ",");
}

#[test]
fn join_undoes_split() {
    for text in ["", "plain", "two  blanks", " lead", "trail ", "a b c d"] {
        assert_eq!(join(&split(text, ' '), ' '), text);
    }
}

#[test]
fn hard_wrap_cuts_every_width() {
    assert_eq!(hard_wrap("", 4), strings(&[""]));
    assert_eq!(hard_wrap("abc", 4), strings(&["abc"]));
    assert_eq!(hard_wrap("abcd", 4), strings(&["abcd"]));
    assert_eq!(hard_wrap("abcde", 4), strings(&["abcd", "e"]));
    assert_eq!(hard_wrap("abcdefgh", 4), strings(&["abcd", "efgh"]));
    assert_eq!(hard_wrap("abcdefghi", 4), strings(&["abcd", "efgh", "i"]));
    assert_eq!(hard_wrap("abc", 1), strings(&["a", "b", "c"]));
}

#[test]
fn hard_wrap_splits_words_and_counts_characters() {
    assert_eq!(hard_wrap("hello world", 7), strings(&["hello w", "orld"]));
    assert_eq!(hard_wrap("\u{e9}t\u{e9}s", 2), strings(&["\u{e9}t", "\u{e9}s"]));
}

#[test]
fn hard_wrap_pieces_restore_the_paragraph() {
    let paragraph = "The quick brown fox jumps over the lazy dog";
    for width in 1..50 {
        let pieces = hard_wrap(paragraph, width);
        assert_eq!(pieces.concat(), paragraph);
        for (k, piece) in pieces.iter().enumerate() {
            assert!(piece.chars().count() <= width);
            if k + 1 < pieces.len() {
                assert_eq!(piece.chars().count(), width);
            }
        }
    }
}

#[test]
fn wrap_lines_treats_line_breaks_as_paragraph_ends() {
    assert_eq!(wrap_lines("", 3), strings(&[""]));
    assert_eq!(wrap_lines("abcdefg\nhi", 3), strings(&["abc", "def", "g", "hi"]));
    assert_eq!(wrap_lines("ab\n", 3), strings(&["ab", ""]));
    assert_eq!(wrap_lines("\n\n", 3), strings(&["", "", ""]));
    assert_eq!(wrap_lines("abcdef\n", 3), strings(&["abc", "def", ""]));
}

#[test]
fn join_terminated_ends_every_line() {
    assert_eq!(join_terminated(&strings(&[])), "");
    assert_eq!(join_terminated(&strings(&["a"])), "a\n");
    assert_eq!(join_terminated(&strings(&["a", "", "b"])), "a\n\nb\n");
}
