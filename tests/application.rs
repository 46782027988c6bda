use rust_ed::application::{
    status_cells, Action, Application, EditMode, InputEvent, KeyEvent, MouseEvent, Output,
};
use rust_ed::editor::Editor;
use rust_ed::vector::Vector2;

fn app(text: &str) -> Application {
    let mut a = Application::new(Editor::from(text), String::from("doc.txt"));
    a.update_view_size(20, 11);
    a
}

fn printed(outs: &[Output]) -> Vec<String> {
    outs.iter()
        .filter_map(|o| match o {
            Output::Print(s) => Some(s.clone()),
            _ => None,
        })
        .collect()
}

#[test]
fn starts_in_command_mode() {
    let a = app("x");
    assert!(matches!(a.edit_mode, EditMode::Command));
    assert!(!a.exit);
    assert_eq!(a.render_opts.view.width, 20);
    assert_eq!(a.render_opts.view.height, 10);
}

#[test]
fn typing_redraws_only_the_row() {
    let mut a = app("r0\nr1\nr2\nr3\nr4");
    a.process_key_event(KeyEvent::Char('i'));
    assert!(matches!(a.edit_mode, EditMode::Insert));
    a.set_cursor(1, 3);
    a.take_outputs();
    a.process_key_event(KeyEvent::Char('x'));
    let outs = a.take_outputs();
    assert_eq!(a.editor.to_string(), "r0\nr1\nr2\nrx3\nr4");
    assert!(matches!(outs[0], Output::MoveTo(0, 3)));
    let p = printed(&outs);
    assert_eq!(p, vec![String::from("rx3\n")]);
    assert!(!outs.iter().any(|o| matches!(o, Output::MoveTo(0, 0))));
    assert_eq!(a.log, "[x]");
    assert!(a.render_line_hint.is_none());
}

#[test]
fn enter_redraws_the_whole_view() {
    let mut a = app("r0\nr1\nr2\nr3\nr4");
    a.process_key_event(KeyEvent::Char('i'));
    a.set_cursor(1, 3);
    a.take_outputs();
    a.process_key_event(KeyEvent::Enter);
    let outs = a.take_outputs();
    assert_eq!(a.editor.to_string(), "r0\nr1\nr2\nr\n3\nr4");
    assert!(matches!(outs[0], Output::MoveTo(0, 0)));
    let p = printed(&outs);
    assert_eq!(p.len(), 1);
    assert_eq!(p[0].lines().count(), 10);
}

#[test]
fn backspace_over_separator_redraws_everything() {
    let mut a = app("ab\ncd");
    a.process_key_event(KeyEvent::Char('i'));
    a.set_cursor(0, 1);
    a.take_outputs();
    a.process_key_event(KeyEvent::Backspace);
    let outs = a.take_outputs();
    assert_eq!(a.editor.to_string(), "abcd");
    assert!(matches!(outs[0], Output::MoveTo(0, 0)));
    a.process_key_event(KeyEvent::Backspace);
    let outs = a.take_outputs();
    assert_eq!(a.editor.to_string(), "acd");
    assert!(matches!(outs[0], Output::MoveTo(0, 0)));
    assert_eq!(printed(&outs), vec![String::from("acd                 \n")]);
}

#[test]
fn escape_returns_to_command_mode() {
    let mut a = app("ab");
    a.process_key_event(KeyEvent::Char('i'));
    a.process_key_event(KeyEvent::Esc);
    assert!(matches!(a.edit_mode, EditMode::Command));
}

#[test]
fn quit_sets_exit() {
    let mut a = app("ab");
    a.process_event(InputEvent::Keyboard(KeyEvent::Ctrl('c')));
    assert!(a.exit);
}

#[test]
fn search_prompt_and_repeat() {
    let mut a = app("ab cd ab ab");
    a.process_key_event(KeyEvent::Char('/'));
    assert!(matches!(a.edit_mode, EditMode::Prompt(_, Some(Action::Search(false)))));
    assert_eq!(a.log, "search: ");
    a.process_key_event(KeyEvent::Char('a'));
    a.process_key_event(KeyEvent::Char('b'));
    a.process_key_event(KeyEvent::Enter);
    assert!(matches!(a.edit_mode, EditMode::Command));
    assert_eq!(a.editor.cursor_pos(), Vector2(6, 0));
    assert_eq!(a.last_search, "ab");
    a.process_key_event(KeyEvent::Char('n'));
    assert_eq!(a.editor.cursor_pos(), Vector2(9, 0));
    a.process_key_event(KeyEvent::Char('N'));
    assert_eq!(a.editor.cursor_pos(), Vector2(6, 0));
    assert_eq!(a.log, "repeating last search");
}

#[test]
fn search_out_of_view_centers() {
    let text: String = (0..40).map(|i| format!("line{}\n", i)).collect();
    let mut a = app(&text);
    a.last_search = String::from("line30");
    a.process_key_event(KeyEvent::Char('n'));
    assert_eq!(a.editor.cursor_pos(), Vector2(0, 30));
    assert_eq!(a.render_opts.view.location, Vector2(0, 25000));
}

#[test]
fn prompt_escape_restores_mode() {
    let mut a = app("x");
    a.process_key_event(KeyEvent::Char('?'));
    a.process_key_event(KeyEvent::Char('q'));
    a.process_key_event(KeyEvent::Esc);
    assert!(matches!(a.edit_mode, EditMode::Command));
    assert_eq!(a.prompt_buffer.to_string(), "");
    assert_eq!(a.editor.to_string(), "x");
}

#[test]
fn save_as_prompt() {
    let mut a = app("body");
    a.process_key_event(KeyEvent::Ctrl('x'));
    assert!(matches!(a.edit_mode, EditMode::Prompt(_, Some(Action::SaveFileAs))));
    assert_eq!(a.prompt_buffer.to_string(), "doc.txt");
    assert_eq!(a.prompt_buffer.cursor_pos(), Vector2(7, 0));
    a.process_key_event(KeyEvent::Ctrl('x'));
    assert!(matches!(a.edit_mode, EditMode::Prompt(_, Some(Action::SaveFileAs))));
    a.process_key_event(KeyEvent::Backspace);
    a.process_key_event(KeyEvent::Backspace);
    a.process_key_event(KeyEvent::Backspace);
    a.process_key_event(KeyEvent::Char('m'));
    a.process_key_event(KeyEvent::Char('d'));
    a.take_outputs();
    a.process_key_event(KeyEvent::Enter);
    assert_eq!(a.filepath, "doc.md");
    assert_eq!(a.log, "saved to file: doc.md");
    let outs = a.take_outputs();
    assert!(outs.iter().any(|o| matches!(o, Output::Save(p, t) if p == "doc.md" && t == "body")));
    assert!(matches!(a.edit_mode, EditMode::Command));
}

#[test]
fn save_queues_write() {
    let mut a = app("body");
    a.process_key_event(KeyEvent::Ctrl('s'));
    assert_eq!(a.log, "saved to doc.txt");
    let outs = a.take_outputs();
    assert!(outs.iter().any(|o| matches!(o, Output::Save(p, t) if p == "doc.txt" && t == "body")));
}

#[test]
fn delete_line_cases() {
    let mut a = app("a\nb\nc");
    a.set_cursor(0, 1);
    a.delete_line();
    assert_eq!(a.editor.to_string(), "a\nc");
    assert_eq!(a.editor.cursor_pos(), Vector2(0, 1));
    a.delete_line();
    assert_eq!(a.editor.to_string(), "a");
    assert_eq!(a.editor.cursor_pos(), Vector2(0, 0));
    a.delete_line();
    assert_eq!(a.editor.to_string(), "");
    let mut b = app("first\nsecond");
    b.process_key_event(KeyEvent::Ctrl('d'));
    assert_eq!(b.editor.to_string(), "second");
    assert_eq!(b.editor.cursor_pos(), Vector2(0, 0));
}

#[test]
fn copy_queues_selection() {
    let mut a = app("hello world");
    a.set_cursor(2, 0);
    a.process_key_event(KeyEvent::Char('v'));
    a.set_cursor(5, 0);
    a.take_outputs();
    a.process_key_event(KeyEvent::Char('c'));
    let outs = a.take_outputs();
    assert!(outs.iter().any(|o| matches!(o, Output::Copy(t) if t == "llo")));
    a.copy_done(None);
    assert_eq!(a.log, "copied to clipboard");
    a.copy_done(Some(String::from("busy")));
    assert_eq!(a.log, "error copying: busy");
    a.process_key_event(KeyEvent::Esc);
    assert!(!a.editor.selecting());
}

#[test]
fn paste_strips_carriage_returns() {
    let mut a = app("ab");
    a.set_cursor(1, 0);
    a.take_outputs();
    a.process_key_event(KeyEvent::Ctrl('v'));
    let outs = a.take_outputs();
    assert!(matches!(outs.as_slice(), [Output::Paste]));
    a.paste_text("x\r\ny");
    assert_eq!(a.editor.to_string(), "ax\nyb");
    assert_eq!(a.editor.cursor_pos(), Vector2(1, 1));
}

#[test]
fn zoom_keys() {
    let mut a = app("ab");
    a.process_key_event(KeyEvent::Char('_'));
    assert_eq!(a.render_opts.scale, 11);
    assert_eq!(a.render_opts.view.location, Vector2(-910, -455));
    a.process_key_event(KeyEvent::Char('='));
    assert_eq!(a.render_opts.scale, 10);
    assert_eq!(a.render_opts.view.location, Vector2(-1, -1));
    assert_eq!(a.log, "reset render scale to 1");
    for _ in 0..12 {
        a.process_key_event(KeyEvent::Char('+'));
    }
    assert_eq!(a.render_opts.scale, 0);
}

#[test]
fn command_motions() {
    let mut a = app("foo bar\nbaz");
    a.process_key_event(KeyEvent::Char('w'));
    assert_eq!(a.editor.cursor_pos(), Vector2(4, 0));
    a.process_key_event(KeyEvent::Char('$'));
    assert_eq!(a.editor.cursor_pos(), Vector2(7, 0));
    a.process_key_event(KeyEvent::Char('j'));
    assert_eq!(a.editor.cursor_pos(), Vector2(3, 1));
    a.process_key_event(KeyEvent::Char('0'));
    assert_eq!(a.editor.cursor_pos(), Vector2(0, 1));
    a.process_key_event(KeyEvent::Char('b'));
    assert_eq!(a.editor.cursor_pos(), Vector2(4, 0));
    a.process_key_event(KeyEvent::Char('d'));
    assert_eq!(a.editor.to_string(), "foobar\nbaz");
    a.process_key_event(KeyEvent::Char('o'));
    assert_eq!(a.editor.to_string(), "foobar\n\nbaz");
    assert!(matches!(a.edit_mode, EditMode::Insert));
}

#[test]
fn pan_keys_move_view() {
    let mut a = app("ab");
    a.process_key_event(KeyEvent::Char('J'));
    assert_eq!(a.render_opts.view.location, Vector2(0, 5000));
    a.process_key_event(KeyEvent::CtrlLeft);
    assert_eq!(a.render_opts.view.location, Vector2(-1000, 5000));
}

#[test]
fn mouse_press_sets_cursor() {
    let mut a = app("abc\ndef\nghi");
    a.render_opts.view.location = Vector2(0, 1000);
    a.process_event(InputEvent::Mouse(MouseEvent::Press(2, 1)));
    assert_eq!(a.editor.cursor_pos(), Vector2(2, 2));
    assert_eq!(a.log, "mouse: set cursor location to 2:2");
    a.render_opts.view.location = Vector2(0, -3000);
    a.process_mouse_event(MouseEvent::Press(1, 0));
    assert_eq!(a.log, "mouse: set cursor location to 1:-3");
    assert_eq!(a.editor.cursor_pos(), Vector2(1, 0));
    a.process_mouse_event(MouseEvent::Other);
    assert_eq!(a.log, "unknown mouse event");
}

#[test]
fn caret_hides_outside_view() {
    let mut a = app("abc");
    a.render_opts.view.location = Vector2(5000, 0);
    a.take_outputs();
    a.update_cursor_pos();
    let outs = a.take_outputs();
    assert!(matches!(outs.as_slice(), [Output::MoveTo(0, 0), Output::HideCaret]));
    assert!(a.cursor_hidden);
    a.render_opts.view.location = Vector2(0, 0);
    a.update_cursor_pos();
    let outs = a.take_outputs();
    assert!(matches!(outs.as_slice(), [Output::MoveTo(0, 0), Output::ShowCaret]));
}

#[test]
fn status_bar_shows_prompt_caret() {
    let mut a = app("abc");
    a.process_key_event(KeyEvent::Char('/'));
    a.process_key_event(KeyEvent::Char('z'));
    a.take_outputs();
    a.render_status_bar();
    let outs = a.take_outputs();
    match &outs[1] {
        Output::Status(s) => {
            assert_eq!(s.mode, "PROMPT");
            assert_eq!(s.prompt, "z ");
            assert_eq!(s.highlight, Some(1));
            assert_eq!(s.log, "search: ");
        }
        _ => panic!("expected a status line"),
    }
    assert!(matches!(outs[0], Output::MoveTo(0, 11)));
    assert_eq!(EditMode::Insert.to_string(), "insert");
}

#[test]
fn global_bindings() {
    let text: String = (0..30).map(|i| format!("row{}\n", i)).collect();
    let mut a = app(&text);
    a.render_opts.view.location = Vector2(0, 4000);
    a.process_key_event(KeyEvent::Ctrl('a'));
    assert_eq!(a.editor.cursor_pos(), Vector2(0, 9));
    a.process_key_event(KeyEvent::End);
    assert_eq!(a.editor.cursor_pos(), Vector2(4, 9));
    a.process_key_event(KeyEvent::Home);
    assert_eq!(a.editor.cursor_pos(), Vector2(0, 9));
    a.set_cursor(0, 20);
    a.process_key_event(KeyEvent::Ctrl('l'));
    assert_eq!(a.render_opts.view.location, Vector2(0, 15000));
    a.take_outputs();
    a.process_key_event(KeyEvent::F(1));
    assert!(matches!(a.take_outputs().as_slice(), [Output::Help]));
    a.process_key_event(KeyEvent::F(5));
    let outs = a.take_outputs();
    assert!(matches!(outs[0], Output::MoveTo(0, 0)));
    assert_eq!(printed(&outs)[0].lines().next(), Some("row15               "));
    a.process_key_event(KeyEvent::CtrlDown);
    assert_eq!(a.render_opts.view.location, Vector2(0, 16000));
    assert!(matches!(a.edit_mode, EditMode::Command));
}

#[test]
fn typing_outside_the_view_draws_nothing() {
    let mut a = app("r0\nr1\nr2");
    a.process_key_event(KeyEvent::Char('i'));
    a.render_opts.view.location = Vector2(0, 2000);
    a.take_outputs();
    a.process_key_event(KeyEvent::Char('x'));
    assert_eq!(a.editor.to_string(), "xr0\nr1\nr2");
    assert!(a.take_outputs().is_empty());
}

#[test]
fn row_redraw_with_view_panned_right() {
    let mut a = app("abc\ndef");
    a.process_key_event(KeyEvent::Char('i'));
    a.render_opts.view.location = Vector2(1000, 0);
    a.set_cursor(1, 1);
    a.take_outputs();
    a.process_key_event(KeyEvent::Char('x'));
    let outs = a.take_outputs();
    assert!(matches!(outs[0], Output::MoveTo(0, 1)));
    assert_eq!(printed(&outs), vec![String::from("xef\n")]);
}

#[test]
fn zoom_has_no_upper_bound() {
    let mut a = app("ab");
    a.render_opts.scale = 1000;
    a.process_key_event(KeyEvent::Char('_'));
    assert_eq!(a.render_opts.scale, 1001);
    a.render_opts.scale = 1;
    a.render_opts.view.location = Vector2(123, 456);
    a.process_key_event(KeyEvent::Char('+'));
    assert_eq!(a.render_opts.scale, 0);
    assert_eq!(a.render_opts.view.location, Vector2(123, 456));
}

#[test]
fn unbound_command_key_changes_nothing() {
    let mut a = app("ab");
    a.log = String::from("before");
    a.take_outputs();
    a.process_key_event(KeyEvent::Char('z'));
    assert!(a.take_outputs().is_empty());
    assert_eq!(a.log, "before");
    assert_eq!(a.editor.to_string(), "ab");
    assert!(matches!(a.edit_mode, EditMode::Command));
}

#[test]
fn failures_are_logged() {
    let mut a = app("ab");
    a.paste_failed(String::from("no clipboard"));
    assert_eq!(a.log, "error pasting: no clipboard");
    a.save_done(None);
    assert_eq!(a.log, "error pasting: no clipboard");
    a.save_done(Some(String::from("read-only")));
    assert_eq!(a.log, "error saving: read-only");
}

#[test]
fn status_row_layout() {
    let mut a = app("abc");
    a.update_view_size(8, 5);
    a.process_key_event(KeyEvent::Char('/'));
    a.process_key_event(KeyEvent::Char('q'));
    a.process_key_event(KeyEvent::Left);
    a.take_outputs();
    a.render_status_bar();
    let outs = a.take_outputs();
    let line = match &outs[1] {
        Output::Status(s) => s,
        _ => panic!("expected a status line"),
    };
    let head: Vec<char> = "ab:".chars().collect();
    let cells = status_cells(&head, line);
    let expect = vec![
        ('a', false),
        ('b', false),
        (':', false),
        ('q', true),
        (' ', false),
        (' ', false),
        (' ', false),
        (' ', false),
    ];
    assert_eq!(cells, expect);
}

#[test]
fn selection_redraws_previous_row() {
    let mut a = app("r0\nr1\nr2\nr3");
    a.process_key_event(KeyEvent::Char('v'));
    a.take_outputs();
    a.set_cursor(1, 2);
    let outs = a.take_outputs();
    assert!(outs.iter().any(|o| matches!(o, Output::MoveTo(0, 2))));
    assert!(outs.iter().any(|o| matches!(o, Output::MoveTo(0, 0))));
    assert_eq!(printed(&outs), vec![String::from("r2                  \n"), String::from("r0                  \n")]);
}
