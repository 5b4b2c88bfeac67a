use ripgross::style::Style;

#[test]
fn new_style_sets_nothing() {
    let style = Style::new();
    assert!(!style.is_bold());
    assert!(!style.is_italic());
    assert!(!style.is_underline());
    assert!(!style.is_strikethrough());
    assert!(!style.is_blink());
    assert!(!style.is_reverse());
}

#[test]
fn each_setter_sets_its_own_flag() {
    assert!(Style::new().bold().is_bold());
    assert!(Style::new().italic().is_italic());
    assert!(Style::new().underline().is_underline());
    assert!(Style::new().strikethrough().is_strikethrough());
    assert!(Style::new().blink().is_blink());
    assert!(Style::new().reverse().is_reverse());
    let style = Style::new().bold();
    assert!(!style.is_italic());
    assert!(!style.is_underline());
    assert!(!style.is_strikethrough());
    assert!(!style.is_blink());
    assert!(!style.is_reverse());
}

#[test]
fn setting_a_flag_twice_changes_nothing() {
    let once = Style::new().bold().underline();
    let twice = Style::new().bold().underline().bold().underline();
    assert_eq!(once.render("text"), twice.render("text"));
    assert!(twice.is_bold() && twice.is_underline());
}

#[test]
fn flags_commute() {
    let one = Style::new().italic().blink().bold();
    let other = Style::new().bold().italic().blink();
    assert_eq!(one.render("text"), other.render("text"));
}

#[test]
fn plain_style_renders_the_text_itself() {
    assert_eq!(Style::new().render("plain text"), "plain text");
    assert_eq!(Style::new().render(""), "");
    assert_eq!(Style::new().ignore_space().render("two words"), "two words");
}

#[test]
fn bold_is_wrapped_in_control_sequences() {
    assert_eq!(Style::new().bold().render("hi"), "\u{1b}[1mhi\u{1b}[0m");
}

#[test]
fn each_decoration_has_its_code() {
    assert_eq!(Style::new().italic().render("x"), "\u{1b}[3mx\u{1b}[0m");
    assert_eq!(Style::new().underline().render("x"), "\u{1b}[4mx\u{1b}[0m");
    assert_eq!(Style::new().blink().render("x"), "\u{1b}[5mx\u{1b}[0m");
    assert_eq!(Style::new().reverse().render("x"), "\u{1b}[7mx\u{1b}[0m");
    assert_eq!(Style::new().strikethrough().render("x"), "\u{1b}[9mx\u{1b}[0m");
}

#[test]
fn colours_are_written_as_rgb() {
    assert_eq!(
        Style::new().foreground_rgb(81, 105, 151).render("x"),
        "\u{1b}[38;2;81;105;151mx\u{1b}[0m"
    );
    assert_eq!(
        Style::new().background_rgb(1, 2, 3).render("x"),
        "\u{1b}[48;2;1;2;3mx\u{1b}[0m"
    );
    assert_eq!(
        Style::new().bold().foreground_rgb(0, 0, 255).render("x"),
        "\u{1b}[1;38;2;0;0;255mx\u{1b}[0m"
    );
}

#[test]
fn reset_takes_the_colour_away() {
    assert_eq!(Style::new().foreground_rgb(1, 2, 3).reset_foreground().render("x"), "x");
    assert_eq!(Style::new().background_rgb(1, 2, 3).reset_background().render("x"), "x");
    assert_eq!(
        Style::new().bold().background_rgb(1, 2, 3).reset_background().render("x"),
        "\u{1b}[1mx\u{1b}[0m"
    );
}

#[test]
fn decorated_space_paints_the_line_as_one() {
    assert_eq!(
        Style::new().underline().render("two words"),
        "\u{1b}[4mtwo words\u{1b}[0m"
    );
}

#[test]
fn ignore_space_paints_word_by_word() {
    assert_eq!(
        Style::new().underline().ignore_space().render("two words"),
        "\u{1b}[4mtwo\u{1b}[0m \u{1b}[4mwords\u{1b}[0m"
    );
}

#[test]
fn ignore_space_keeps_every_blank() {
    let painted_empty = "\u{1b}[1m\u{1b}[0m";
    assert_eq!(
        Style::new().bold().ignore_space().render("a  b"),
        format!("\u{1b}[1ma\u{1b}[0m {} \u{1b}[1mb\u{1b}[0m", painted_empty)
    );
    assert_eq!(Style::new().bold().ignore_space().render(""), painted_empty);
}

#[test]
fn line_text_decoration_is_what_render_gives() {
    let style = Style::new().italic().ignore_space();
    assert_eq!(style.line_text_decoration("a b".to_string()), style.render("a b"));
}

fn visible_cells(line: &str) -> usize {
    let mut cells = 0;
    let mut chars = line.chars();
    while let Some(c) = chars.next() {
        if c == '\u{1b}' {
            if chars.next() == Some('[') {
                for d in chars.by_ref() {
                    if ('@'..='~').contains(&d) {
                        break;
                    }
                }
            }
        } else {
            cells += 1;
        }
    }
    cells
}

#[test]
fn decoration_adds_no_visible_cell() {
    let text = "some words to decorate";
    let styles = [
        Style::new(),
        Style::new().bold(),
        Style::new().italic().underline().blink().reverse().strikethrough(),
        Style::new().foreground_rgb(255, 0, 10).background_rgb(7, 70, 200),
        Style::new().bold().ignore_space(),
        Style::new().foreground_rgb(9, 9, 9).ignore_space(),
    ];
    for style in styles {
        assert_eq!(visible_cells(&style.render(text)), text.chars().count());
    }
}
