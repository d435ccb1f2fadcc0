use rextedi::editor::{Direction, Editor, Redraw};
use rextedi::input::Command;

fn editor_with(width: usize, height: usize, lines: &[&str]) -> Editor {
    Editor::new(width, height, lines.iter().map(|l| l.to_string()).collect())
}

fn lines(e: &Editor) -> Vec<&str> {
    e.content.iter().map(|s| s.as_str()).collect()
}

#[test]
fn new_editor_starts_at_top_left() {
    let e = editor_with(80, 24, &[""]);
    let (active, x, y, h, v, repr) = e.read_state();
    assert_eq!((active, x, y, h, v), (0, 0, 0, 0, 0));
    assert_eq!(repr, "\\0");
    assert_eq!(e.cursor, (0, 0));
}

#[test]
fn typing_appends_at_cursor() {
    let mut e = editor_with(80, 24, &[""]);
    for c in "hello".chars() {
        assert_eq!(e.write_char(c), Redraw::Row(0));
    }
    assert_eq!(lines(&e), vec!["hello"]);
    assert_eq!(e.cursor, (5, 0));
}

#[test]
fn typing_in_the_middle_of_multibyte_text() {
    let mut e = editor_with(80, 24, &["añb"]);
    e.cursor = (2, 0);
    e.write_char('X');
    assert_eq!(lines(&e), vec!["añXb"]);
    assert_eq!(e.cursor, (3, 0));
}

#[test]
fn typing_goes_between_grapheme_clusters() {
    let mut e = editor_with(80, 24, &["e\u{301}x"]);
    e.cursor = (1, 0);
    e.write_char('Z');
    assert_eq!(lines(&e), vec!["e\u{301}Zx"]);
}

#[test]
fn typing_past_the_end_appends() {
    let mut e = editor_with(80, 24, &["ab"]);
    e.cursor = (7, 0);
    e.write_char('c');
    assert_eq!(lines(&e), vec!["abc"]);
    assert_eq!(e.cursor, (8, 0));
}

#[test]
fn backspace_removes_char_before_cursor() {
    let mut e = editor_with(80, 24, &["abc"]);
    e.cursor = (2, 0);
    assert_eq!(e.delete_char(), Redraw::Row(0));
    assert_eq!(lines(&e), vec!["ac"]);
    assert_eq!(e.cursor, (1, 0));
}

#[test]
fn backspace_removes_one_char_of_a_cluster() {
    let mut e = editor_with(80, 24, &["ae\u{301}"]);
    e.cursor = (2, 0);
    e.delete_char();
    assert_eq!(lines(&e), vec!["a\u{301}"]);
}

#[test]
fn backspace_at_start_of_buffer_does_nothing() {
    let mut e = editor_with(80, 24, &["abc", "d"]);
    assert_eq!(e.delete_char(), Redraw::Nothing);
    assert_eq!(lines(&e), vec!["abc", "d"]);
    assert_eq!(e.cursor, (0, 0));
}

#[test]
fn backspace_at_line_start_joins_lines() {
    let mut e = editor_with(80, 24, &["ab", "cd", "ef"]);
    e.cursor = (0, 1);
    assert_eq!(e.delete_char(), Redraw::Below(0));
    assert_eq!(lines(&e), vec!["abcd", "ef"]);
    assert_eq!(e.cursor, (2, 0));
}

#[test]
fn backspace_on_first_row_scrolls_up() {
    // area of 2 rows
    let mut e = editor_with(80, 6, &[""]);
    e.write_char('a');
    e.insert_newline();
    e.write_char('b');
    assert_eq!(e.insert_newline(), Redraw::Screen);
    // row clamped to the last row of the area, buffer scrolled by one
    let (active, _, y, _, v, _) = e.read_state();
    assert_eq!((active, y, v), (2, 1, 1));
    e.move_cursor(Direction::Up);
    let (active, x, y, _, v, _) = e.read_state();
    assert_eq!((active, x, y, v), (1, 0, 0, 1));
    assert_eq!(e.delete_char(), Redraw::Screen);
    assert_eq!(lines(&e), vec!["ab", ""]);
    let (active, x, y, h, v, _) = e.read_state();
    assert_eq!((active, x, y, h, v), (0, 1, 0, 0, 0));
}

#[test]
fn enter_splits_line_at_cursor() {
    let mut e = editor_with(80, 24, &["hello"]);
    e.cursor = (2, 0);
    assert_eq!(e.insert_newline(), Redraw::Screen);
    assert_eq!(lines(&e), vec!["he", "llo"]);
    assert_eq!(e.cursor, (0, 1));
}

#[test]
fn enter_then_backspace_restores_buffer() {
    let mut e = editor_with(80, 24, &["one", "two words", "three"]);
    e.cursor = (3, 1);
    e.insert_newline();
    e.delete_char();
    assert_eq!(lines(&e), vec!["one", "two words", "three"]);
    assert_eq!(e.read_state().0, 1);
}

#[test]
fn write_then_backspace_restores_state() {
    let mut e = editor_with(80, 24, &["abc"]);
    e.cursor = (1, 0);
    let before = e.read_state();
    e.write_char('z');
    e.delete_char();
    assert_eq!(lines(&e), vec!["abc"]);
    assert_eq!(e.read_state(), before);
}

#[test]
fn scroll_right_holds_cursor_to_line_end() {
    let mut e = editor_with(80, 24, &["hello"]);
    e.cursor = (3, 0);
    assert_eq!(e.hor_scroll(Direction::Right), Redraw::Row(0));
    let (_, x, _, h, _, _) = e.read_state();
    assert_eq!((x, h), (3, 1));
    e.hor_scroll(Direction::Right);
    let (_, x, _, h, _, _) = e.read_state();
    assert_eq!((x, h), (3, 2));
    e.hor_scroll(Direction::Left);
    let (_, x, _, h, _, _) = e.read_state();
    assert_eq!((x, h), (3, 1));
    e.hor_scroll(Direction::Up);
    let (_, x, _, h, _, _) = e.read_state();
    assert_eq!((x, h), (3, 1));
}

#[test]
fn scroll_left_stops_at_zero() {
    let mut e = editor_with(80, 24, &["hello"]);
    e.hor_scroll(Direction::Left);
    let (_, x, _, h, _, _) = e.read_state();
    assert_eq!((x, h), (0, 0));
}

#[test]
fn cursor_moves_and_is_held_to_line_end() {
    let mut e = editor_with(80, 24, &["long line", "ab"]);
    e.cursor = (7, 0);
    assert_eq!(e.move_cursor(Direction::Down), Redraw::Rows(0, 1));
    assert_eq!(e.cursor, (2, 1));
    assert_eq!(e.move_cursor(Direction::Right), Redraw::Row(1));
    assert_eq!(e.cursor, (2, 1));
    assert_eq!(e.move_cursor(Direction::Left), Redraw::Row(1));
    assert_eq!(e.cursor, (1, 1));
    assert_eq!(e.move_cursor(Direction::Up), Redraw::Rows(1, 0));
    assert_eq!(e.cursor, (1, 0));
    e.move_cursor(Direction::Up);
    assert_eq!(e.cursor, (1, 0));
    e.move_cursor(Direction::Down);
    e.move_cursor(Direction::Down);
    assert_eq!(e.cursor, (1, 1));
}

#[test]
fn cursor_right_at_area_edge_shifts_view() {
    let mut e = editor_with(3, 24, &["abcdef"]);
    e.cursor = (2, 0);
    e.move_cursor(Direction::Right);
    let (_, x, _, h, _, _) = e.read_state();
    assert_eq!((x, h), (2, 1));
    assert_eq!(e.display_line(0), "bcd");
    e.cursor = (0, 0);
    e.move_cursor(Direction::Left);
    let (_, x, _, h, _, _) = e.read_state();
    assert_eq!((x, h), (0, 0));
}

#[test]
fn cursor_down_scrolls_at_bottom_row() {
    let mut e = editor_with(80, 6, &["a", "b", "c"]);
    e.move_cursor(Direction::Down);
    assert_eq!(e.move_cursor(Direction::Down), Redraw::Screen);
    let (active, _, y, _, v, _) = e.read_state();
    assert_eq!((active, y, v), (2, 1, 1));
    assert_eq!(e.move_cursor(Direction::Up), Redraw::Rows(1, 0));
    assert_eq!(e.move_cursor(Direction::Up), Redraw::Screen);
    let (active, _, y, _, v, _) = e.read_state();
    assert_eq!((active, y, v), (0, 0, 0));
}

#[test]
fn read_state_escapes_cluster_under_cursor() {
    let mut e = editor_with(80, 24, &["a\tb"]);
    e.cursor = (1, 0);
    assert_eq!(e.read_state().5, "\\t");
    e.cursor = (0, 0);
    assert_eq!(e.read_state().5, "a");
    e.cursor = (3, 0);
    assert_eq!(e.read_state().5, "\\0");
}

#[test]
fn set_content_replaces_buffer() {
    let mut e = editor_with(80, 6, &[""]);
    let r = e.set_content(vec!["x".to_string(), "y".to_string(), "z".to_string()]);
    assert_eq!(r, Redraw::Top(2));
    assert_eq!(lines(&e), vec!["x", "y", "z"]);
    let r = e.set_content(vec!["only".to_string()]);
    assert_eq!(r, Redraw::Top(1));
}

#[test]
fn display_line_is_cut_to_width() {
    let e = editor_with(4, 24, &["abcdefgh", "e\u{301}e\u{301}e\u{301}e\u{301}e\u{301}"]);
    assert_eq!(e.display_line(0), "abcd");
    assert_eq!(e.display_line(1), "e\u{301}e\u{301}e\u{301}e\u{301}");
}

#[test]
fn lines_from_clips_wide_lines() {
    let e = editor_with(3, 7, &["abcdef", "xy", "123456", "last"]);
    // area of 3 rows
    assert_eq!(e.lines_from(0), vec!["abc", "xy", "123"]);
    assert_eq!(e.lines_from(2), vec!["123"]);
    assert_eq!(e.lines_from(3), Vec::<String>::new());
}

#[test]
fn apply_runs_commands() {
    let mut e = editor_with(80, 24, &[""]);
    assert_eq!(e.apply(Command::Write('a')), Some(Redraw::Row(0)));
    assert_eq!(e.apply(Command::Newline), Some(Redraw::Screen));
    assert_eq!(e.apply(Command::Delete), Some(Redraw::Below(0)));
    assert_eq!(e.apply(Command::Move(Direction::Left)), Some(Redraw::Row(0)));
    assert_eq!(e.apply(Command::Scroll(Direction::Right)), Some(Redraw::Row(0)));
    assert_eq!(e.apply(Command::Save), Some(Redraw::Nothing));
    assert_eq!(e.apply(Command::Quit), Some(Redraw::Nothing));
    assert_eq!(e.apply(Command::Ignore), Some(Redraw::Nothing));
    assert_eq!(lines(&e), vec!["a"]);
}

#[test]
fn apply_refuses_scroll_past_line_end() {
    let mut e = editor_with(80, 24, &[""]);
    assert_eq!(e.apply(Command::Scroll(Direction::Right)), None);
    assert_eq!(e.read_state().3, 0);
}

#[test]
fn apply_refuses_backspace_past_line_end() {
    let mut e = editor_with(80, 24, &["ab"]);
    e.cursor = (5, 0);
    assert_eq!(e.apply(Command::Delete), None);
    assert_eq!(lines(&e), vec!["ab"]);
}

#[test]
fn apply_refuses_newline_without_rows() {
    let mut e = editor_with(80, 4, &["ab"]);
    assert_eq!(e.apply(Command::Newline), None);
    assert_eq!(lines(&e), vec!["ab"]);
}

#[test]
fn cursor_stays_in_area() {
    let mut e = editor_with(10, 7, &[""]);
    let (_, height) = e.area_size();
    assert_eq!(height, 3);
    let keys = [
        Command::Write('a'),
        Command::Newline,
        Command::Newline,
        Command::Newline,
        Command::Newline,
        Command::Move(Direction::Up),
        Command::Move(Direction::Down),
        Command::Move(Direction::Down),
        Command::Delete,
        Command::Newline,
        Command::Move(Direction::Up),
        Command::Move(Direction::Up),
        Command::Move(Direction::Up),
        Command::Move(Direction::Up),
        Command::Delete,
    ];
    for k in keys {
        assert!(e.apply(k).is_some());
        assert!(e.cursor.1 < height);
    }
}

#[test]
fn try_lines_from_refuses_rows_below_area() {
    let e = editor_with(3, 7, &["abcdef", "xy"]);
    assert_eq!(e.try_lines_from(4), None);
    assert_eq!(e.try_lines_from(1), Some(vec!["xy".to_string()]));
    assert_eq!(e.try_lines_from(2), Some(Vec::new()));
    assert_eq!(e.try_lines_from(3), None);
}

#[test]
fn status_text_counts_from_one() {
    let mut e = editor_with(80, 24, &["abc", "defgh"]);
    assert_eq!(e.status_text(), "Ln 1, Col 1");
    e.cursor = (4, 1);
    assert_eq!(e.status_text(), "Ln 2, Col 5");
    e.cursor = (11, 1);
    assert_eq!(e.status_text(), "Ln 2, Col 12");
}

#[test]
fn scroll_right_then_left_restores_view() {
    let mut e = editor_with(80, 24, &["abcdefgh"]);
    e.cursor = (2, 0);
    let before = e.read_state();
    e.hor_scroll(Direction::Right);
    e.hor_scroll(Direction::Left);
    assert_eq!(e.read_state(), before);
    assert_eq!(lines(&e), vec!["abcdefgh"]);
}

#[test]
fn enter_then_backspace_restores_cursor() {
    let mut e = editor_with(80, 24, &["one", "two words"]);
    e.cursor = (3, 1);
    let before = e.read_state();
    e.insert_newline();
    e.delete_char();
    assert_eq!(e.read_state(), before);
}
