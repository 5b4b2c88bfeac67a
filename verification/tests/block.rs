use ripgross::block::StyleBlock;
use ripgross::layout::Alignment;
use ripgross::style::Style;

fn plain(text: &str, width: usize) -> StyleBlock {
    Style::new().render_to_block(text).set_width(width)
}

#[test]
fn new_block_has_default_dimensions() {
    let block = StyleBlock::new();
    assert_eq!(block.get_width(), 80);
    assert_eq!(block.get_height(), 24);
    assert!(block.can_resolve());
}

#[test]
fn setters_change_width_and_height() {
    let block = StyleBlock::new().set_width(12).set_height(3);
    assert_eq!(block.get_width(), 12);
    assert_eq!(block.get_height(), 3);
}

#[test]
fn to_block_is_empty() {
    let block = Style::new().to_block().set_width(3);
    assert_eq!(block.finalize(), "   \n");
}

#[test]
fn empty_text_gives_one_blank_line() {
    assert_eq!(plain("", 4).finalize(), "    \n");
    assert_eq!(
        plain("", 2).border_left().border_right().border_top().border_bottom().finalize(),
        "\u{250c}\u{2500}\u{2500}\u{2510}\n\u{2502}  \u{2502}\n\u{2514}\u{2500}\u{2500}\u{2518}\n"
    );
}

#[test]
fn wraps_at_width_and_pads_the_last_line() {
    assert_eq!(plain("abcdefghijk", 10).finalize(), "abcdefghij\nk         \n");
}

#[test]
fn end_alignment_pads_on_the_left() {
    assert_eq!(plain("abcdefghijk", 10).align_end().finalize(), "abcdefghij\n         k\n");
}

#[test]
fn center_puts_the_odd_cell_on_the_right() {
    assert_eq!(plain("ab", 5).align_center().finalize(), " ab  \n");
    assert_eq!(plain("ab", 6).align_center().finalize(), "  ab  \n");
    assert_eq!(plain("a", 2).align_center().finalize(), "a \n");
}

#[test]
fn align_start_after_another_alignment_wins() {
    assert_eq!(plain("ab", 4).align_end().align_start().finalize(), "ab  \n");
}

#[test]
fn align_horizontal_fills_the_width() {
    let block = StyleBlock::new().set_width(7);
    assert_eq!(block.align_horizontal("abc".to_string(), &Alignment::Start, 3), "abc    ");
    assert_eq!(block.align_horizontal("abc".to_string(), &Alignment::End, 3), "    abc");
    assert_eq!(block.align_horizontal("abc".to_string(), &Alignment::Center, 3), "  abc  ");
    assert_eq!(block.align_horizontal("abcd".to_string(), &Alignment::Center, 4), " abcd  ");
    assert_eq!(block.align_horizontal("abcdefg".to_string(), &Alignment::Center, 7), "abcdefg");
}

#[test]
fn align_horizontal_counts_the_given_length() {
    let block = StyleBlock::new().set_width(6);
    let decorated = "\u{1b}[1mab\u{1b}[0m".to_string();
    assert_eq!(
        block.align_horizontal(decorated, &Alignment::End, 2),
        "    \u{1b}[1mab\u{1b}[0m"
    );
}

#[test]
fn line_layout_pads_and_aligns() {
    let block = StyleBlock::new().set_width(8).padding_left(2).padding_right(1);
    assert_eq!(block.line_layout("abc".to_string(), 3), "  abc   ");
    let block = block.align_end();
    assert_eq!(block.line_layout("abc".to_string(), 3), "    abc ");
    let block = block.align_center();
    assert_eq!(block.line_layout("abc".to_string(), 3), "   abc  ");
}

#[test]
fn pad_left_and_right_add_blanks() {
    assert_eq!(StyleBlock::pad_left("x".to_string(), 2), "  x");
    assert_eq!(StyleBlock::pad_right("x".to_string(), 3), "x   ");
    assert_eq!(StyleBlock::pad_left("x".to_string(), 0), "x");
}

#[test]
fn text_wrap_uses_the_width_less_the_padding() {
    let block = plain("abcdefg\nhi", 5).padding_left(1).padding_right(1);
    assert_eq!(block.text_wrap(), vec!["abc", "def", "g", "hi"]);
}

#[test]
fn horizontal_padding_narrows_the_text() {
    assert_eq!(
        plain("abcdef", 5).padding_left(1).padding_right(1).finalize(),
        " abc \n def \n"
    );
}

#[test]
fn vertical_padding_adds_blank_lines() {
    assert_eq!(
        plain("ab", 3).padding_top(1).padding_bottom(2).finalize(),
        "   \nab \n   \n   \n"
    );
}

#[test]
fn line_breaks_are_paragraph_ends() {
    assert_eq!(plain("ab\n\ncdefg", 4).finalize(), "ab  \n    \ncdef\ng   \n");
}

#[test]
fn full_border_around_one_line() {
    let out = plain("hi", 2).border_left().border_right().border_top().border_bottom().finalize();
    assert_eq!(
        out,
        "\u{250c}\u{2500}\u{2500}\u{2510}\n\u{2502}hi\u{2502}\n\u{2514}\u{2500}\u{2500}\u{2518}\n"
    );
    let lines: Vec<&str> = out.lines().collect();
    assert_eq!(lines, vec!["┌──┐", "│hi│", "└──┘"]);
}

#[test]
fn full_border_encloses_the_width() {
    let out = plain("hi", 4).border_left().border_right().border_top().border_bottom().finalize();
    let lines: Vec<&str> = out.lines().collect();
    assert_eq!(lines, vec!["┌────┐", "│hi  │", "└────┘"]);
}

#[test]
fn top_border_alone_is_a_straight_rule() {
    let out = plain("hi", 3).border_top().finalize();
    assert_eq!(out, "\u{2500}\u{2500}\u{2500}\nhi \n");
    for corner in ['┌', '┐', '└', '┘', '│'] {
        assert!(!out.contains(corner));
    }
}

#[test]
fn top_and_left_border_have_one_corner() {
    let out = plain("hi", 3).border_top().border_left().finalize();
    assert_eq!(out, "\u{250c}\u{2500}\u{2500}\u{2500}\n\u{2502}hi \n");
    assert_eq!(out.matches('┌').count(), 1);
    for corner in ['┐', '└', '┘'] {
        assert!(!out.contains(corner));
    }
}

#[test]
fn bottom_and_right_border_have_one_corner() {
    let out = plain("hi", 2).border_bottom().border_right().finalize();
    assert_eq!(out, "hi\u{2502}\n\u{2500}\u{2500}\u{2518}\n");
}

#[test]
fn side_borders_alone_have_no_rule() {
    let out = plain("a\nb", 1).border_left().border_right().finalize();
    assert_eq!(out, "\u{2502}a\u{2502}\n\u{2502}b\u{2502}\n");
}

#[test]
fn setting_a_border_twice_changes_nothing() {
    assert_eq!(
        plain("hi", 2).border_top().border_top().finalize(),
        plain("hi", 2).border_top().finalize()
    );
}

#[test]
fn margin_lies_outside_the_border() {
    let out = plain("hi", 2)
        .border_left()
        .border_right()
        .margin_left(1)
        .margin_right(2)
        .margin_top(1)
        .margin_bottom(1)
        .finalize();
    assert_eq!(out, "  \n \u{2502}hi\u{2502}  \n  \n");
}

#[test]
fn margin_and_padding_together() {
    let out = plain("ab", 4)
        .padding_left(1)
        .padding_right(1)
        .padding_top(1)
        .margin_left(2)
        .margin_bottom(1)
        .finalize();
    assert_eq!(out, "      \n   ab \n    \n");
}

#[test]
fn each_draw_step_works_on_the_lines_it_finds() {
    let mut block = plain("hi", 2).border_left();
    block.render_paragraph();
    block.draw_border();
    assert_eq!(block.finalize(), "\u{2502}\u{2502}hi\n");
    let mut block = plain("hi", 2).margin_left(1).margin_top(1);
    block.render_paragraph();
    block.draw_margin();
    assert_eq!(block.finalize(), "  \n   \n  hi\n");
    let mut block = plain("hi", 2);
    block.render_paragraph();
    block.pad_top(1);
    block.pad_bottom(2);
    assert_eq!(block.get_height(), 4);
    assert_eq!(block.finalize(), "  \nhi\n  \n  \n");
}

#[test]
fn resolving_twice_is_resolving_once() {
    let mut once = Style::new().bold().render_to_block("some text to wrap").set_width(5);
    let mut twice = once.clone();
    once.render_paragraph();
    twice.render_paragraph();
    twice.render_paragraph();
    assert_eq!(once.get_height(), 4);
    assert_eq!(twice.get_height(), 4);
    assert_eq!(once.finalize(), twice.finalize());
}

#[test]
fn resolved_block_keeps_its_lines() {
    let mut block = plain("abcdef", 3);
    block.render_paragraph();
    let block = block.padding_left(1).align_end();
    assert_eq!(block.get_height(), 2);
    assert_eq!(block.finalize(), "abc\ndef\n");
}

#[test]
fn height_is_the_line_count_after_resolution() {
    let mut block = plain("abcdefg", 3).set_height(9);
    assert_eq!(block.get_height(), 9);
    block.render_paragraph();
    assert_eq!(block.get_height(), 3);
    let block = block.set_height(7);
    assert_eq!(block.get_height(), 3);
}

#[test]
fn can_resolve_needs_room_beside_the_padding() {
    assert!(plain("x", 3).padding_left(1).padding_right(1).can_resolve());
    assert!(!plain("x", 2).padding_left(1).padding_right(1).can_resolve());
    assert!(!plain("x", 2).padding_left(3).can_resolve());
    assert!(!plain("x", 0).can_resolve());
    assert!(!plain("x", 5).padding_left(usize::MAX).padding_right(usize::MAX).can_resolve());
    let mut block = plain("x", 2);
    block.render_paragraph();
    assert!(block.padding_left(5).can_resolve());
}

#[test]
fn join_right_fills_the_shorter_block_from_below() {
    let left = plain("ab\ncd", 2);
    let right = plain("x\ny\nz", 1);
    let joined = left.join_right(right);
    assert_eq!(joined.get_height(), 3);
    assert_eq!(joined.get_width(), 3);
    assert_eq!(joined.finalize(), "abx\ncdy\n  z\n");
}

#[test]
fn join_right_fills_the_right_block_too() {
    let joined = plain("a\nb\nc", 1).join_right(plain("xy", 3));
    assert_eq!(joined.get_height(), 3);
    assert_eq!(joined.get_width(), 4);
    assert_eq!(joined.finalize(), "axy \nb   \nc   \n");
}

#[test]
fn join_bottom_widens_the_narrower_block() {
    let joined = plain("ab", 2).join_bottom(plain("wxyz", 4));
    assert_eq!(joined.get_width(), 4);
    assert_eq!(joined.get_height(), 2);
    assert_eq!(joined.finalize(), "ab  \nwxyz\n");
    let joined = plain("wxyz", 4).join_bottom(plain("ab\ncd", 2));
    assert_eq!(joined.get_width(), 4);
    assert_eq!(joined.get_height(), 3);
    assert_eq!(joined.finalize(), "wxyz\nab  \ncd  \n");
}

#[test]
fn join_dimensions() {
    let a = || plain("one two three", 4);
    let b = || plain("x", 7);
    let (mut ra, mut rb) = (a(), b());
    ra.render_paragraph();
    rb.render_paragraph();
    let (ha, hb) = (ra.get_height(), rb.get_height());
    assert_eq!((ha, hb), (4, 1));
    let right = a().join_right(b());
    assert_eq!(right.get_width(), 11);
    assert_eq!(right.get_height(), 4);
    let bottom = a().join_bottom(b());
    assert_eq!(bottom.get_width(), 7);
    assert_eq!(bottom.get_height(), 5);
}

#[test]
fn joined_block_takes_one_border() {
    let joined = plain("a", 1).join_right(plain("b", 1)).border_top().border_left();
    assert_eq!(joined.finalize(), "\u{250c}\u{2500}\u{2500}\n\u{2502}ab\n");
}

#[test]
fn joined_blocks_keep_their_own_decoration() {
    let left = Style::new().bold().render_to_block("a").set_width(2);
    let right = Style::new().render_to_block("b").set_width(2).align_end();
    assert_eq!(left.join_right(right).finalize(), "\u{1b}[1ma\u{1b}[0m  b\n");
}

#[test]
fn decoration_does_not_count_as_width() {
    let block = Style::new().underline().render_to_block("abcd").set_width(3);
    assert_eq!(block.finalize(), "\u{1b}[4mabc\u{1b}[0m\n\u{1b}[4md\u{1b}[0m  \n");
}

#[test]
fn block_setters_decorate_like_the_style() {
    let by_block = StyleBlock::new()
        .bold()
        .italic()
        .underline()
        .reverse()
        .strikethrough()
        .blink()
        .foreground_rgb(1, 2, 3)
        .background_rgb(4, 5, 6)
        .set_width(1);
    assert_eq!(
        by_block.finalize(),
        "\u{1b}[1;3;4;5;7;9;48;2;4;5;6;38;2;1;2;3m\u{1b}[0m \n"
    );
    let reset = StyleBlock::new()
        .foreground_rgb(1, 2, 3)
        .background_rgb(4, 5, 6)
        .reset_foreground()
        .reset_background()
        .set_width(1);
    assert_eq!(reset.finalize(), " \n");
}

#[test]
fn block_ignore_space_leaves_blanks_bare() {
    let block = Style::new().bold().render_to_block("a b").ignore_space().set_width(4);
    assert_eq!(block.finalize(), "\u{1b}[1ma\u{1b}[0m \u{1b}[1mb\u{1b}[0m \n");
}
