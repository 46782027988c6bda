use rust_ed::editor::{Cell, Editor, Position};
use rust_ed::vector::Vector2;

#[test]
fn round_trip_keeps_text() {
    for t in ["", "hello", "hello\nworld", "a\n\nb\n", "\n", "tab\there\n  x"] {
        assert_eq!(Editor::from(t).to_string(), t);
    }
}

#[test]
fn from_splits_rows() {
    let e = Editor::from("ab\ncde\n");
    assert_eq!(e.line_count(), 3);
    assert_eq!(e.get_cell(Vector2(1, 1)), Some(Cell { char: 'd' }));
    assert_eq!(e.get_cell(Vector2(3, 1)), None);
    assert_eq!(e.get_cell(Vector2(0, 2)), None);
    assert_eq!(e.get_cell(Vector2(-1, 0)), None);
    assert_eq!(e.get_cell(Vector2(0, 5)), None);
    assert_eq!(e.cursor_pos(), Vector2(0, 0));
}

#[test]
fn cursor_stays_in_range() {
    let mut e = Editor::from("abc\nde\n\nlonger row");
    e.move_cursor(Vector2(10, 0));
    assert_eq!(e.cursor_pos(), Vector2(3, 0));
    e.move_cursor(Vector2(0, 1));
    assert_eq!(e.cursor_pos(), Vector2(2, 1));
    e.move_cursor(Vector2(0, 100));
    assert_eq!(e.cursor_pos(), Vector2(2, 3));
    e.set_cursor(Vector2(-5, -5));
    assert_eq!(e.cursor_pos(), Vector2(0, 0));
    e.write('x');
    e.move_cursor(Vector2(0, 2));
    assert_eq!(e.cursor_pos(), Vector2(0, 2));
    e.delete();
    assert_eq!(e.cursor_pos(), Vector2(2, 1));
    assert!(e.cursor_pos().x() <= e.line_len());
    assert!((e.cursor_pos().y() as usize) < e.line_count());
}

#[test]
fn write_inserts_and_splits() {
    let mut e = Editor::from("abcd");
    e.set_cursor(Vector2(2, 0));
    e.write('X');
    assert_eq!(e.to_string(), "abXcd");
    assert_eq!(e.cursor_pos(), Vector2(3, 0));
    e.write('\n');
    assert_eq!(e.to_string(), "abX\ncd");
    assert_eq!(e.cursor_pos(), Vector2(0, 1));
    assert_eq!(e.line_count(), 2);
}

#[test]
fn write_then_delete_restores() {
    for c in ['x', ' ', '\n', 'é'] {
        let mut e = Editor::from("one\ntwo");
        e.set_cursor(Vector2(1, 1));
        e.write(c);
        assert_eq!(e.delete(), Some(Cell { char: c }));
        assert_eq!(e.to_string(), "one\ntwo");
        assert_eq!(e.cursor_pos(), Vector2(1, 1));
    }
}

#[test]
fn delete_joins_rows_and_stops_at_start() {
    let mut e = Editor::from("ab\ncd");
    e.set_cursor(Vector2(0, 1));
    assert_eq!(e.delete(), Some(Cell { char: '\n' }));
    assert_eq!(e.to_string(), "abcd");
    assert_eq!(e.cursor_pos(), Vector2(2, 0));
    e.set_cursor(Vector2(0, 0));
    assert_eq!(e.delete(), None);
    assert_eq!(e.to_string(), "abcd");
}

#[test]
fn line_markers() {
    let mut e = Editor::from("hello\nworld");
    e.set_cursor(Vector2(2, 1));
    e.move_cursor_to(Position::LineEnd);
    assert_eq!(e.cursor_pos(), Vector2(5, 1));
    e.move_cursor_to(Position::LineBeginning);
    assert_eq!(e.cursor_pos(), Vector2(0, 1));
}

#[test]
fn word_navigation_returns_to_word_start() {
    let mut e = Editor::from("foo bar  baz\nqux");
    e.set_cursor(Vector2(5, 0));
    e.move_cursor_to(Position::NextWord);
    assert_eq!(e.cursor_pos(), Vector2(9, 0));
    e.move_cursor_to(Position::PreviousWord);
    assert_eq!(e.cursor_pos(), Vector2(4, 0));
    e.set_cursor(Vector2(10, 0));
    e.move_cursor_to(Position::NextWord);
    assert_eq!(e.cursor_pos(), Vector2(0, 1));
    e.move_cursor_to(Position::NextWord);
    assert_eq!(e.cursor_pos(), Vector2(3, 1));
    e.move_cursor_to(Position::PreviousWord);
    assert_eq!(e.cursor_pos(), Vector2(0, 1));
    e.move_cursor_to(Position::PreviousWord);
    assert_eq!(e.cursor_pos(), Vector2(9, 0));
}

#[test]
fn search_scenario() {
    let e = Editor::from("ab cd ab");
    assert_eq!(e.search("ab", Vector2(0, 0), false), Some(Vector2(6, 0)));
    assert_eq!(e.search("ab", Vector2(6, 0), true), Some(Vector2(0, 0)));
    assert_eq!(e.search("ab", Vector2(6, 0), false), None);
    assert_eq!(e.search("zz", Vector2(0, 0), false), None);
}

#[test]
fn search_crosses_rows() {
    let e = Editor::from("one\ntwo\nthree");
    assert_eq!(e.search("o\nth", Vector2(0, 0), false), Some(Vector2(2, 1)));
    assert_eq!(e.search("t", Vector2(0, 2), true), Some(Vector2(0, 1)));
    assert_eq!(e.search("e", Vector2(50, 50), true), Some(Vector2(4, 2)));
}

#[test]
fn selection_copy_scenario() {
    let mut e = Editor::from("hello world\nnext");
    assert_eq!(e.copy(), None);
    e.set_cursor(Vector2(2, 0));
    e.begin_select();
    e.set_cursor(Vector2(5, 0));
    let got: Vec<char> = e.copy().unwrap().iter().map(|c| c.char).collect();
    assert_eq!(got, vec!['l', 'l', 'o']);
    assert!(e.selecting());
    e.set_cursor(Vector2(1, 1));
    let got: String = e.copy().unwrap().iter().map(|c| c.char).collect();
    assert_eq!(got, "llo world\nn");
    e.set_cursor(Vector2(0, 0));
    let got: String = e.copy().unwrap().iter().map(|c| c.char).collect();
    assert_eq!(got, "he");
    e.clear_selection();
    assert_eq!(e.copy(), None);
}

#[test]
fn new_is_empty() {
    let e = Editor::new();
    assert_eq!(e.to_string(), "");
    assert_eq!(e.line_count(), 1);
    assert_eq!(e.line_len(), 0);
    assert!(e.has_room());
}
