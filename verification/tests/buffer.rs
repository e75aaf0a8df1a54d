use modal_editor::file::{CursorPos, OpenFile, TermSize};
use modal_editor::geometry::GUTTER_WIDTH;

const G: u16 = GUTTER_WIDTH;

fn term() -> TermSize {
    TermSize { width: 80, height: 24 }
}

fn small_term() -> TermSize {
    TermSize { width: 80, height: 4 }
}

fn open(lines: &[&str]) -> OpenFile {
    OpenFile::new(String::from("notes.txt"), lines.iter().map(|l| l.to_string()).collect())
}

fn at(row: u16, col: u16) -> CursorPos {
    CursorPos { row, col }
}

fn right(file: &mut OpenFile, times: usize) {
    for _ in 0..times {
        file.move_right(term(), false);
    }
}

fn down(file: &mut OpenFile, size: TermSize, times: usize) {
    for _ in 0..times {
        file.move_down(size);
    }
}

fn numbered(count: usize) -> Vec<String> {
    (1..=count).map(|n| format!("line {}", n)).collect()
}

#[test]
fn new_file_starts_at_the_top_left() {
    let file = open(&["hello", "world"]);
    assert_eq!(file.path(), "notes.txt");
    assert_eq!(file.lines(), vec!["hello", "world"]);
    assert_eq!(file.cursor(), at(1, G));
    assert_eq!(file.scroll_offset(), 1);
    assert!(!file.is_modified());
    assert_eq!(file.undo_depth(), 0);
    assert_eq!(file.redo_depth(), 0);
}

#[test]
fn file_without_lines_is_one_empty_line() {
    let file = OpenFile::new(String::from("empty"), Vec::new());
    assert_eq!(file.lines(), vec![""]);
    assert_eq!(file.cursor(), at(1, G));
}

#[test]
fn from_text_splits_at_line_breaks() {
    let file = OpenFile::from_text(String::from("a.txt"), "one\ntwo\n");
    assert_eq!(file.lines(), vec!["one", "two", ""]);
    assert_eq!(OpenFile::from_text(String::from("b"), "").lines(), vec![""]);
}

#[test]
fn lines_are_never_empty_after_deleting_everything() {
    let mut file = open(&["ab", "c"]);
    for _ in 0..10 {
        file.handle_delete_at(0);
        assert!(!file.lines().is_empty());
    }
    assert_eq!(file.lines(), vec![""]);
    for _ in 0..3 {
        file.handle_backspace_at(0);
        file.delete_char_at_cursor_pos_at(0);
        assert_eq!(file.lines(), vec![""]);
    }
    assert_eq!(file.cursor(), at(1, G));
}

#[test]
fn newline_at_end_of_first_line_opens_an_empty_line() {
    let mut file = open(&["hello", "world"]);
    right(&mut file, 5);
    assert_eq!(file.cursor(), at(1, G + 5));
    file.handle_enter_at(term(), 0);
    assert_eq!(file.lines(), vec!["hello", "", "world"]);
    assert_eq!(file.cursor(), at(2, G));
    assert!(file.is_modified());
}

#[test]
fn newline_in_the_middle_splits_the_line() {
    let mut file = open(&["hello"]);
    right(&mut file, 2);
    file.handle_enter_at(term(), 0);
    assert_eq!(file.lines(), vec!["he", "llo"]);
    assert_eq!(file.cursor(), at(2, G));
}

#[test]
fn newline_at_start_pushes_the_line_down() {
    let mut file = open(&["hello"]);
    file.handle_enter_at(term(), 0);
    assert_eq!(file.lines(), vec!["", "hello"]);
    assert_eq!(file.cursor(), at(2, G));
}

#[test]
fn newline_on_the_last_visible_row_scrolls_instead() {
    let size = small_term();
    let mut file = open(&["a", "b", "c"]);
    down(&mut file, size, 2);
    assert_eq!(file.cursor(), at(3, G));
    file.move_right(size, false);
    file.handle_enter_at(size, 0);
    assert_eq!(file.lines(), vec!["a", "b", "c", ""]);
    assert_eq!(file.cursor(), at(3, G));
    assert_eq!(file.scroll_offset(), 2);
}

#[test]
fn backspace_at_start_of_first_line_changes_nothing() {
    let mut file = open(&["ab"]);
    file.handle_backspace_at(0);
    assert_eq!(file.lines(), vec!["ab"]);
    assert_eq!(file.cursor(), at(1, G));
    assert_eq!(file.scroll_offset(), 1);
}

#[test]
fn backspace_removes_the_character_in_front_of_the_cursor() {
    let mut file = open(&["abc"]);
    right(&mut file, 2);
    file.handle_backspace_at(0);
    assert_eq!(file.lines(), vec!["ac"]);
    assert_eq!(file.cursor(), at(1, G + 1));
}

#[test]
fn backspace_at_start_of_line_joins_it_to_the_line_above() {
    let mut file = open(&["foo", "bar", "baz"]);
    file.move_down(term());
    file.handle_backspace_at(0);
    assert_eq!(file.lines(), vec!["foobar", "baz"]);
    assert_eq!(file.cursor(), at(1, G + 3));
    assert_eq!(file.scroll_offset(), 1);
}

#[test]
fn backspace_on_the_first_row_of_a_scrolled_view_scrolls_up() {
    let mut file = open(&["foo", "bar", "baz", "qux"]);
    let size = TermSize { width: 80, height: 3 };
    file.scroll_down(size);
    assert_eq!(file.scroll_offset(), 2);
    assert_eq!(file.cursor(), at(1, G));
    file.handle_backspace_at(0);
    assert_eq!(file.lines(), vec!["foobar", "baz", "qux"]);
    assert_eq!(file.cursor(), at(1, G + 3));
    assert_eq!(file.scroll_offset(), 1);
}

#[test]
fn delete_at_end_of_line_joins_the_next_line() {
    let mut file = open(&["foo", "bar"]);
    right(&mut file, 3);
    file.handle_delete_at(0);
    assert_eq!(file.lines(), vec!["foobar"]);
    assert_eq!(file.cursor(), at(1, G + 3));
}

#[test]
fn delete_removes_the_character_under_the_cursor() {
    let mut file = open(&["abc"]);
    right(&mut file, 1);
    file.handle_delete_at(0);
    assert_eq!(file.lines(), vec!["ac"]);
    assert_eq!(file.cursor(), at(1, G + 1));
}

#[test]
fn delete_at_end_of_buffer_changes_no_text() {
    let mut file = open(&["ab", "cd"]);
    file.move_down(term());
    right(&mut file, 2);
    file.handle_delete_at(0);
    assert_eq!(file.lines(), vec!["ab", "cd"]);
    assert_eq!(file.cursor(), at(2, G + 2));
    assert!(file.is_modified());
}

#[test]
fn delete_under_cursor_removes_one_character() {
    let mut file = open(&["abc"]);
    file.delete_char_at_cursor_pos_at(0);
    assert_eq!(file.lines(), vec!["bc"]);
    assert_eq!(file.cursor(), at(1, G));
}

#[test]
fn delete_under_cursor_behind_the_last_character_removes_nothing() {
    let mut file = open(&["ab", "cd"]);
    right(&mut file, 2);
    file.delete_char_at_cursor_pos_at(0);
    assert_eq!(file.lines(), vec!["ab", "cd"]);
    let mut empty = open(&[""]);
    empty.delete_char_at_cursor_pos_at(0);
    assert_eq!(empty.lines(), vec![""]);
}

#[test]
fn typing_inserts_at_the_cursor_and_moves_right() {
    let mut file = open(&["ac"]);
    right(&mut file, 1);
    file.handle_char_input_at(term(), 'b', 0);
    assert_eq!(file.lines(), vec!["abc"]);
    assert_eq!(file.cursor(), at(1, G + 2));
    assert!(file.is_modified());
}

#[test]
fn typing_takes_characters_outside_ascii() {
    let mut file = open(&["né"]);
    right(&mut file, 2);
    file.handle_char_input_at(term(), 'é', 0);
    file.handle_char_input_at(term(), '界', 0);
    file.handle_char_input_at(term(), '!', 0);
    assert_eq!(file.lines(), vec!["néé界!"]);
    assert_eq!(file.cursor(), at(1, G + 5));
    file.handle_backspace_at(0);
    file.handle_backspace_at(0);
    assert_eq!(file.lines(), vec!["néé"]);
}

#[test]
fn typing_on_the_last_column_does_not_move_the_cursor() {
    let size = TermSize { width: 8, height: 24 };
    let mut file = open(&[""]);
    file.handle_char_input_at(size, 'a', 0);
    file.handle_char_input_at(size, 'b', 0);
    assert_eq!(file.cursor(), at(1, 8));
    file.handle_char_input_at(size, 'c', 0);
    file.handle_char_input_at(size, 'd', 0);
    assert_eq!(file.cursor(), at(1, 8));
    assert_eq!(file.lines(), vec!["abdc"]);
}

#[test]
fn move_left_stops_at_the_gutter() {
    let mut file = open(&["ab"]);
    file.move_left();
    assert_eq!(file.cursor(), at(1, G));
    right(&mut file, 2);
    file.move_left();
    assert_eq!(file.cursor(), at(1, G + 1));
}

#[test]
fn move_right_may_land_behind_the_last_character() {
    let mut file = open(&["ab"]);
    right(&mut file, 5);
    assert_eq!(file.cursor(), at(1, G + 2));
}

#[test]
fn move_right_with_stop_sooner_lands_on_the_last_character() {
    let mut file = open(&["ab"]);
    for _ in 0..5 {
        file.move_right(term(), true);
    }
    assert_eq!(file.cursor(), at(1, G + 1));
    let mut empty = open(&[""]);
    empty.move_right(term(), true);
    assert_eq!(empty.cursor(), at(1, G));
}

#[test]
fn move_right_stops_at_the_last_column_of_the_terminal() {
    let size = TermSize { width: 9, height: 24 };
    let mut file = open(&["abcdefgh"]);
    for _ in 0..8 {
        file.move_right(size, false);
    }
    assert_eq!(file.cursor(), at(1, 9));
}

#[test]
fn move_down_and_up_change_the_row() {
    let mut file = open(&["a", "b", "c"]);
    file.move_down(term());
    assert_eq!(file.cursor(), at(2, G));
    file.move_down(term());
    assert_eq!(file.cursor(), at(3, G));
    file.move_down(term());
    assert_eq!(file.cursor(), at(3, G));
    assert_eq!(file.scroll_offset(), 1);
    file.move_up();
    assert_eq!(file.cursor(), at(2, G));
    file.move_up();
    file.move_up();
    assert_eq!(file.cursor(), at(1, G));
    assert_eq!(file.scroll_offset(), 1);
}

#[test]
fn moving_onto_a_shorter_line_pulls_the_cursor_back() {
    let mut file = open(&["ab", "abcdef", ""]);
    file.move_down(term());
    right(&mut file, 6);
    assert_eq!(file.cursor(), at(2, G + 6));
    file.move_up();
    assert_eq!(file.cursor(), at(1, G + 2));
    file.move_down(term());
    assert_eq!(file.cursor(), at(2, G + 2));
    file.move_down(term());
    assert_eq!(file.cursor(), at(3, G));
}

#[test]
fn move_down_on_the_last_visible_row_scrolls() {
    let size = small_term();
    let mut file = OpenFile::new(String::from("n"), numbered(10));
    down(&mut file, size, 2);
    assert_eq!(file.cursor(), at(3, G));
    assert_eq!(file.scroll_offset(), 1);
    file.move_down(size);
    assert_eq!(file.cursor(), at(3, G));
    assert_eq!(file.scroll_offset(), 2);
}

#[test]
fn move_up_on_the_first_row_scrolls() {
    let size = small_term();
    let mut file = OpenFile::new(String::from("n"), numbered(10));
    file.scroll_down(size);
    file.scroll_down(size);
    assert_eq!(file.scroll_offset(), 3);
    file.move_up();
    assert_eq!(file.cursor(), at(1, G));
    assert_eq!(file.scroll_offset(), 2);
}

#[test]
fn scroll_up_stops_at_the_first_line() {
    let mut file = open(&["a", "b"]);
    file.scroll_up();
    assert_eq!(file.scroll_offset(), 1);
}

#[test]
fn scroll_down_stops_when_the_last_row_shows_the_last_line() {
    let size = small_term();
    let mut file = OpenFile::new(String::from("n"), numbered(6));
    for expected in [2, 3, 4, 4, 4] {
        file.scroll_down(size);
        assert_eq!(file.scroll_offset(), expected);
    }
    assert_eq!(file.render_rows(size), vec!["   4|line 4", "   5|line 5", "   6|line 6"]);
}

#[test]
fn scroll_down_leaves_a_file_that_fits_the_view() {
    let size = small_term();
    let mut exact = open(&["a", "b", "c"]);
    exact.scroll_down(size);
    assert_eq!(exact.scroll_offset(), 1);
    let mut short = open(&["a"]);
    short.scroll_down(size);
    assert_eq!(short.scroll_offset(), 1);
}

#[test]
fn scroll_down_shows_a_line_that_lies_just_below_the_view() {
    let size = TermSize { width: 80, height: 3 };
    let mut file = open(&["a", "b", "c"]);
    file.scroll_down(size);
    assert_eq!(file.scroll_offset(), 2);
    assert_eq!(file.render_rows(size), vec!["   2|b", "   3|c"]);
    file.scroll_down(size);
    assert_eq!(file.scroll_offset(), 2);
}

#[test]
fn move_down_reaches_the_last_line_below_the_view() {
    let size = TermSize { width: 80, height: 3 };
    let mut file = open(&["a", "b", "c"]);
    file.move_down(size);
    assert_eq!((file.scroll_offset(), file.cursor()), (1, at(2, G)));
    file.move_down(size);
    assert_eq!((file.scroll_offset(), file.cursor()), (2, at(2, G)));
    file.handle_char_input_at(size, '!', 0);
    assert_eq!(file.lines(), vec!["a", "b", "!c"]);
    file.move_down(size);
    assert_eq!((file.scroll_offset(), file.cursor()), (2, at(2, G + 1)));
}

#[test]
fn move_down_steps_through_every_line() {
    let size = small_term();
    let mut file = OpenFile::new(String::from("n"), numbered(10));
    for expected in 1..10 {
        file.move_down(size);
        assert_eq!(file.scroll_offset() + file.cursor().row as usize - 2, expected);
    }
    assert_eq!(file.scroll_offset(), 8);
    assert_eq!(file.cursor(), at(3, G));
    file.move_down(size);
    assert_eq!(file.scroll_offset(), 8);
    assert_eq!(file.cursor(), at(3, G));
}

#[test]
fn move_up_steps_back_through_every_line() {
    let size = small_term();
    let mut file = OpenFile::new(String::from("n"), numbered(10));
    down(&mut file, size, 9);
    for expected in (0..9).rev() {
        file.move_up();
        assert_eq!(file.scroll_offset() + file.cursor().row as usize - 2, expected);
    }
    assert_eq!((file.scroll_offset(), file.cursor()), (1, at(1, G)));
}

#[test]
fn scrolling_pulls_the_cursor_back_onto_its_new_line() {
    let size = small_term();
    let mut file = open(&["long line", "x", "y", "z", "w"]);
    right(&mut file, 9);
    file.scroll_down(size);
    assert_eq!(file.scroll_offset(), 2);
    assert_eq!(file.cursor(), at(1, G + 1));
}

#[test]
fn cursor_stays_in_bounds_under_any_moves() {
    let size = TermSize { width: 12, height: 5 };
    let lines = vec!["", "abc", "a much longer line than the terminal", "xy", "", "end"];
    let mut file = open(&lines);
    let mut seed: u32 = 12345;
    for _ in 0..2000 {
        seed = seed.wrapping_mul(1664525).wrapping_add(1013904223);
        match (seed >> 16) % 7 {
            0 => file.move_left(),
            1 => file.move_right(size, false),
            2 => file.move_right(size, true),
            3 => file.move_up(),
            4 => file.move_down(size),
            5 => file.scroll_up(),
            _ => file.scroll_down(size),
        }
        let cursor = file.cursor();
        assert!(1 <= cursor.row && cursor.row <= 4);
        let index = file.scroll_offset() + cursor.row as usize - 2;
        assert!(index < lines.len());
        let len = lines[index].chars().count() as u16;
        assert!(G <= cursor.col && cursor.col <= G + len);
        assert_eq!(file.lines(), lines);
        assert!(!file.is_modified());
        assert_eq!(file.undo_depth(), 0);
    }
}

#[test]
fn contents_joins_the_lines() {
    assert_eq!(open(&["a", "b", ""]).contents(), "a\nb\n");
    assert_eq!(open(&["only"]).contents(), "only");
    assert_eq!(open(&[""]).contents(), "");
}

#[test]
fn save_then_open_gives_the_same_lines() {
    let mut file = open(&["first", "", "third"]);
    file.move_down(term());
    file.handle_char_input_at(term(), 'x', 0);
    file.handle_enter_at(term(), 0);
    let saved = file.contents();
    let again = OpenFile::from_text(String::from("notes.txt"), &saved);
    assert_eq!(again.lines(), file.lines());
    assert_eq!(again.lines(), vec!["first", "x", "", "third"]);
    assert_eq!(again.contents(), saved);
}

#[test]
fn open_then_save_gives_the_same_text() {
    for text in ["", "a", "a\n", "a\n\nb\n", "\n"] {
        assert_eq!(OpenFile::from_text(String::from("t"), text).contents(), text);
    }
}

#[test]
fn mark_saved_clears_the_modified_flag() {
    let mut file = open(&["a"]);
    file.handle_char_input_at(term(), 'b', 0);
    assert!(file.is_modified());
    file.mark_saved();
    assert!(!file.is_modified());
    assert_eq!(file.lines(), vec!["ba"]);
}

#[test]
fn joining_very_long_lines_holds_the_cursor_at_the_last_column() {
    let long: String = "x".repeat(70000);
    let mut file = OpenFile::new(String::from("l"), vec![long, String::from("y")]);
    file.move_down(term());
    file.handle_backspace_at(0);
    assert_eq!(file.lines().len(), 1);
    assert_eq!(file.cursor(), at(1, u16::MAX));
}

#[test]
fn clock_reading_edits_change_the_text_like_timed_ones() {
    let mut file = open(&["ab", "cd"]);
    file.handle_char_input(term(), 'x');
    assert_eq!(file.lines(), vec!["xab", "cd"]);
    file.handle_enter(term());
    assert_eq!(file.lines(), vec!["x", "ab", "cd"]);
    assert_eq!(file.cursor(), at(2, G));
    file.handle_backspace();
    assert_eq!(file.lines(), vec!["xab", "cd"]);
    file.handle_delete();
    assert_eq!(file.lines(), vec!["xb", "cd"]);
    file.delete_char_at_cursor_pos();
    assert_eq!(file.lines(), vec!["x", "cd"]);
    assert!(file.is_modified());
}
