use modal_editor::file::{CursorPos, OpenFile, TermSize};
use modal_editor::geometry::GUTTER_WIDTH;

fn display() -> TermSize {
    TermSize { width: 20, height: 5 }
}

fn shown(lines: &[&str]) -> OpenFile {
    OpenFile::new(String::from("src/a.txt"), lines.iter().map(|l| l.to_string()).collect())
}

#[test]
fn rows_show_line_number_bar_and_text() {
    let file = shown(&["ab", "", "c"]);
    assert_eq!(file.render_rows(display()), vec!["   1|ab", "   2|", "   3|c"]);
}

#[test]
fn rows_are_limited_to_the_visible_rows() {
    let file = shown(&["a", "b", "c", "d", "e", "f"]);
    assert_eq!(file.render_rows(display()), vec!["   1|a", "   2|b", "   3|c", "   4|d"]);
    assert_eq!(file.render_rows(TermSize { width: 20, height: 1 }), Vec::<String>::new());
    assert_eq!(file.render_rows(TermSize { width: 20, height: 0 }), Vec::<String>::new());
}

#[test]
fn rows_start_at_the_scroll_offset() {
    let mut file = shown(&["a", "b", "c", "d", "e", "f"]);
    file.scroll_down(display());
    assert_eq!(file.scroll_offset(), 2);
    assert_eq!(file.render_rows(display()), vec!["   2|b", "   3|c", "   4|d", "   5|e"]);
}

#[test]
fn long_lines_are_cut_to_the_width_right_of_the_gutter() {
    let file = shown(&["abcdefghijklmnopqrstuvwxyz", "äöüäöüäöüäöüäöüäöü"]);
    assert_eq!(
        file.render_rows(display()),
        vec!["   1|abcdefghijklmn", "   2|äöüäöüäöüäöüäö"]
    );
    assert_eq!(
        file.render_rows(TermSize { width: 5, height: 5 }),
        vec!["   1|", "   2|"]
    );
}

#[test]
fn line_numbers_beyond_four_digits_are_not_cut() {
    let lines: Vec<String> = (0..10001).map(|_| String::from("x")).collect();
    let mut file = OpenFile::new(String::from("big"), lines);
    let size = TermSize { width: 20, height: 3 };
    for _ in 0..9998 {
        file.scroll_down(size);
    }
    assert_eq!(file.scroll_offset(), 9999);
    assert_eq!(file.render_rows(size), vec!["9999|x", "10000|x"]);
}

#[test]
fn status_line_names_path_position_state_and_mode() {
    let mut file = shown(&["hello", "world"]);
    assert_eq!(file.status_line("Normal"), "src/a.txt | col: 1, row: 1 | Saved | Normal ");
    file.move_down(display());
    file.move_right(display(), false);
    file.move_right(display(), false);
    file.handle_char_input_at(display(), 'x', 0);
    assert_eq!(file.status_line("Insert"), "src/a.txt | col: 4, row: 2 | Modified | Insert ");
}

#[test]
fn screen_cursor_is_the_cursor() {
    let mut file = shown(&["hello"]);
    file.move_right(display(), false);
    assert_eq!(file.screen_cursor(), CursorPos { row: 1, col: GUTTER_WIDTH + 1 });
    assert_eq!(file.screen_cursor(), file.cursor());
}

#[test]
fn render_writes_rows_then_status_on_the_last_row() {
    let file = shown(&["ab", "c"]);
    assert_eq!(
        file.render(TermSize { width: 80, height: 24 }, String::from("Normal")),
        "   1|ab\r\n   2|c\r\n\x1b[24;1Hsrc/a.txt | col: 1, row: 1 | Saved | Normal "
    );
}

#[test]
fn render_of_a_scrolled_modified_file() {
    let mut file = shown(&["a", "b", "c", "d", "e", "f"]);
    let size = TermSize { width: 7, height: 3 };
    file.scroll_down(size);
    file.move_down(size);
    file.handle_char_input_at(size, 'Z', 0);
    assert_eq!(
        file.render(size, String::from("Insert")),
        "   2|b\r\n   3|Z\r\n\x1b[3;1Hsrc/a.txt | col: 2, row: 2 | Modified | Insert "
    );
}

#[test]
fn render_leaves_the_file_as_it_is() {
    let mut file = shown(&["ab", "c"]);
    file.move_right(display(), false);
    let before = (file.lines(), file.cursor(), file.scroll_offset(), file.is_modified());
    let _ = file.render(display(), String::from("Normal"));
    let _ = file.render_rows(display());
    let _ = file.set_cursor();
    let after = (file.lines(), file.cursor(), file.scroll_offset(), file.is_modified());
    assert_eq!(before, after);
}

#[test]
fn set_cursor_goes_to_row_and_column() {
    let mut file = shown(&["hello", "world"]);
    assert_eq!(file.set_cursor(), "\x1b[1;6H");
    file.move_down(display());
    for _ in 0..5 {
        file.move_right(display(), false);
    }
    assert_eq!(file.set_cursor(), "\x1b[2;11H");
}

#[test]
fn set_cursor_writes_large_columns_in_full() {
    let long: String = "x".repeat(70000);
    let mut file = OpenFile::new(String::from("l"), vec![long, String::from("y")]);
    file.move_down(display());
    file.handle_backspace_at(0);
    assert_eq!(file.set_cursor(), "\x1b[1;65535H");
}
