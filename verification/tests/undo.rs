use modal_editor::file::undo::{in_debounce_window, DEBOUNCE_MS};
use modal_editor::file::{CursorPos, OpenFile, Snapshot, TermSize};
use modal_editor::geometry::GUTTER_WIDTH;

const G: u16 = GUTTER_WIDTH;

fn screen() -> TermSize {
    TermSize { width: 80, height: 24 }
}

fn buffer(lines: &[&str]) -> OpenFile {
    OpenFile::new(String::from("u.txt"), lines.iter().map(|l| l.to_string()).collect())
}

fn pos(row: u16, col: u16) -> CursorPos {
    CursorPos { row, col }
}

#[test]
fn debounce_window_is_half_a_second() {
    assert_eq!(DEBOUNCE_MS, 500);
}

#[test]
fn window_holds_below_five_hundred_milliseconds() {
    assert!(in_debounce_window(1000, 1000));
    assert!(in_debounce_window(1000, 1499));
    assert!(!in_debounce_window(1000, 1500));
    assert!(!in_debounce_window(1000, 2000));
    assert!(!in_debounce_window(0, u64::MAX));
}

#[test]
fn a_clock_that_reads_earlier_counts_as_no_time_passed() {
    assert!(in_debounce_window(1000, 999));
    assert!(in_debounce_window(u64::MAX, 0));
}

#[test]
fn snapshot_holds_content_cursor_and_time() {
    let snapshot = Snapshot { content: vec![vec!['a']], cursor: pos(1, G), timestamp: 7 };
    assert_eq!(snapshot.content, vec![vec!['a']]);
    assert_eq!(snapshot.cursor, pos(1, G));
    assert_eq!(snapshot.timestamp, 7);
}

#[test]
fn first_edit_captures_a_snapshot() {
    let mut file = buffer(&["ab"]);
    file.handle_char_input_at(screen(), 'x', 0);
    assert_eq!(file.undo_depth(), 1);
    assert_eq!(file.redo_depth(), 0);
}

#[test]
fn undo_restores_lines_and_cursor_of_before_the_edit() {
    let mut file = buffer(&["hello", "world"]);
    file.move_down(screen());
    file.move_right(screen(), false);
    file.handle_enter_at(screen(), 1000);
    assert_eq!(file.lines(), vec!["hello", "w", "orld"]);
    assert_eq!(file.cursor(), pos(3, G));
    file.undo_at(1001);
    assert_eq!(file.lines(), vec!["hello", "world"]);
    assert_eq!(file.cursor(), pos(2, G + 1));
    assert_eq!(file.undo_depth(), 0);
    assert_eq!(file.redo_depth(), 1);
}

#[test]
fn undo_restores_after_each_kind_of_edit() {
    let start = ["one", "two", "three"];
    for kind in 0..5 {
        let mut file = buffer(&start);
        file.move_down(screen());
        file.move_right(screen(), false);
        let before = file.cursor();
        match kind {
            0 => file.handle_char_input_at(screen(), 'x', 900),
            1 => file.handle_enter_at(screen(), 900),
            2 => file.handle_delete_at(900),
            3 => file.handle_backspace_at(900),
            _ => file.delete_char_at_cursor_pos_at(900),
        }
        assert_ne!(file.lines(), start.to_vec());
        file.undo_at(901);
        assert_eq!(file.lines(), start.to_vec());
        assert_eq!(file.cursor(), before);
    }
}

#[test]
fn redo_after_undo_restores_the_edit() {
    let mut file = buffer(&["foo", "bar"]);
    file.move_right(screen(), false);
    file.handle_char_input_at(screen(), 'X', 1000);
    let edited_lines = file.lines();
    let edited_cursor = file.cursor();
    file.undo_at(2000);
    assert_eq!(file.lines(), vec!["foo", "bar"]);
    file.redo_at(3000);
    assert_eq!(file.lines(), edited_lines);
    assert_eq!(file.lines(), vec!["fXoo", "bar"]);
    assert_eq!(file.cursor(), edited_cursor);
    assert_eq!(file.undo_depth(), 1);
    assert_eq!(file.redo_depth(), 0);
}

#[test]
fn new_edit_after_undo_clears_the_redo_stack() {
    let mut file = buffer(&["ab"]);
    file.handle_char_input_at(screen(), 'x', 1000);
    file.undo_at(1100);
    assert_eq!(file.redo_depth(), 1);
    file.handle_char_input_at(screen(), 'y', 1200);
    assert_eq!(file.redo_depth(), 0);
    let lines = file.lines();
    let cursor = file.cursor();
    file.redo_at(1300);
    assert_eq!(file.lines(), lines);
    assert_eq!(file.lines(), vec!["yab"]);
    assert_eq!(file.cursor(), cursor);
    assert_eq!(file.undo_depth(), 1);
}

#[test]
fn edit_inside_an_older_burst_keeps_the_redo_stack() {
    let mut file = buffer(&["ab"]);
    file.handle_char_input_at(screen(), 'x', 1000);
    file.handle_char_input_at(screen(), 'y', 2000);
    assert_eq!(file.undo_depth(), 2);
    file.undo_at(2100);
    assert_eq!(file.redo_depth(), 1);
    file.handle_char_input_at(screen(), 'z', 2200);
    assert_eq!(file.undo_depth(), 1);
    assert_eq!(file.redo_depth(), 1);
}

#[test]
fn rapid_typing_is_one_undo_step() {
    let mut file = buffer(&["-"]);
    file.handle_char_input_at(screen(), 'a', 1000);
    file.handle_char_input_at(screen(), 'b', 1200);
    file.handle_char_input_at(screen(), 'c', 1499);
    assert_eq!(file.lines(), vec!["abc-"]);
    assert_eq!(file.undo_depth(), 1);
    file.undo_at(1500);
    assert_eq!(file.lines(), vec!["-"]);
    assert_eq!(file.cursor(), pos(1, G));
    assert_eq!(file.undo_depth(), 0);
}

#[test]
fn slow_typing_is_one_undo_step_per_character() {
    let mut file = buffer(&["-"]);
    file.handle_char_input_at(screen(), 'a', 1000);
    file.handle_char_input_at(screen(), 'b', 1500);
    file.handle_char_input_at(screen(), 'c', 2000);
    assert_eq!(file.undo_depth(), 3);
    file.undo_at(2001);
    assert_eq!(file.lines(), vec!["ab-"]);
    file.undo_at(2002);
    assert_eq!(file.lines(), vec!["a-"]);
    file.undo_at(2003);
    assert_eq!(file.lines(), vec!["-"]);
}

#[test]
fn the_window_is_measured_from_the_edit_that_captured() {
    let mut file = buffer(&[""]);
    file.handle_char_input_at(screen(), 'a', 1000);
    file.handle_char_input_at(screen(), 'b', 1400);
    file.handle_char_input_at(screen(), 'c', 1800);
    assert_eq!(file.undo_depth(), 2);
    file.undo_at(1900);
    assert_eq!(file.lines(), vec!["ab"]);
}

#[test]
fn mixed_edits_in_one_burst_are_one_undo_step() {
    let mut file = buffer(&["one", "two"]);
    file.handle_char_input_at(screen(), 'x', 5000);
    file.handle_enter_at(screen(), 5100);
    file.handle_delete_at(5200);
    file.handle_backspace_at(5300);
    file.delete_char_at_cursor_pos_at(5400);
    assert_eq!(file.undo_depth(), 1);
    file.undo_at(6000);
    assert_eq!(file.lines(), vec!["one", "two"]);
    assert_eq!(file.cursor(), pos(1, G));
}

#[test]
fn typing_on_the_real_clock_is_undone_step_by_step() {
    let mut file = buffer(&["-"]);
    file.handle_char_input(screen(), 'a');
    file.handle_char_input(screen(), 'b');
    file.handle_char_input(screen(), 'c');
    assert_eq!(file.lines(), vec!["abc-"]);
    let steps = file.undo_depth();
    assert!(1 <= steps && steps <= 3);
    for _ in 0..steps {
        file.undo();
    }
    assert_eq!(file.lines(), vec!["-"]);
    assert_eq!(file.cursor(), pos(1, G));
    assert_eq!(file.undo_depth(), 0);
    assert_eq!(file.redo_depth(), steps);
    for _ in 0..steps {
        file.redo();
    }
    assert_eq!(file.lines(), vec!["abc-"]);
    assert_eq!(file.cursor(), pos(1, G + 3));
    assert_eq!(file.redo_depth(), 0);
}

#[test]
fn edit_in_a_running_burst_leaves_the_history_alone() {
    let mut file = buffer(&["ab"]);
    file.handle_char_input_at(screen(), 'x', 1000);
    file.undo_at(1010);
    file.redo_at(1020);
    assert_eq!((file.undo_depth(), file.redo_depth()), (1, 0));
    file.undo_at(1030);
    assert_eq!((file.undo_depth(), file.redo_depth()), (0, 1));
    file.handle_char_input_at(screen(), 'y', 1040);
    assert_eq!((file.undo_depth(), file.redo_depth()), (1, 0));
    file.handle_delete_at(1100);
    file.handle_enter_at(screen(), 1539);
    assert_eq!((file.undo_depth(), file.redo_depth()), (1, 0));
    file.handle_enter_at(screen(), 1540);
    assert_eq!((file.undo_depth(), file.redo_depth()), (2, 0));
}

#[test]
fn undo_and_redo_on_empty_stacks_change_nothing() {
    let mut file = buffer(&["ab"]);
    file.move_right(screen(), false);
    file.undo_at(10);
    file.redo_at(20);
    assert_eq!(file.lines(), vec!["ab"]);
    assert_eq!(file.cursor(), pos(1, G + 1));
    assert_eq!(file.undo_depth(), 0);
    assert_eq!(file.redo_depth(), 0);
    assert!(!file.is_modified());
}

#[test]
fn navigation_leaves_the_history_alone() {
    let mut file = buffer(&["ab", "cd"]);
    file.handle_char_input_at(screen(), 'x', 1000);
    file.undo_at(1001);
    file.move_down(screen());
    file.move_right(screen(), true);
    file.move_up();
    file.move_left();
    file.scroll_down(screen());
    file.scroll_up();
    assert_eq!(file.undo_depth(), 0);
    assert_eq!(file.redo_depth(), 1);
}

#[test]
fn edit_that_removes_nothing_still_counts_as_an_edit() {
    let mut file = buffer(&["ab"]);
    file.handle_backspace_at(1000);
    assert!(file.is_modified());
    assert_eq!(file.undo_depth(), 1);
    assert_eq!(file.lines(), vec!["ab"]);
}

#[test]
fn undo_pulls_the_cursor_back_into_the_restored_content() {
    let size = TermSize { width: 80, height: 3 };
    let mut file = buffer(&["abcdef"]);
    for _ in 0..6 {
        file.move_right(size, false);
    }
    file.handle_enter_at(size, 1000);
    file.handle_enter_at(size, 2000);
    file.handle_enter_at(size, 3000);
    assert_eq!(file.lines(), vec!["abcdef", "", "", ""]);
    assert_eq!(file.scroll_offset(), 3);
    assert_eq!(file.cursor(), pos(2, G));
    file.undo_at(4000);
    file.undo_at(4001);
    file.undo_at(4002);
    assert_eq!(file.lines(), vec!["abcdef"]);
    assert_eq!(file.scroll_offset(), 1);
    assert_eq!(file.cursor(), pos(1, G + 6));
    assert_eq!(file.redo_depth(), 3);
}

#[test]
fn undo_after_a_scrolling_edit_keeps_the_new_viewport() {
    let size = TermSize { width: 80, height: 3 };
    let mut file = buffer(&["ab", "cdef", "g"]);
    file.move_down(size);
    for _ in 0..4 {
        file.move_right(size, false);
    }
    assert_eq!(file.cursor(), pos(2, G + 4));
    file.handle_enter_at(size, 1000);
    assert_eq!(file.scroll_offset(), 2);
    file.undo_at(2000);
    assert_eq!(file.lines(), vec!["ab", "cdef", "g"]);
    assert_eq!(file.scroll_offset(), 2);
    assert_eq!(file.cursor(), pos(2, G + 1));
}
