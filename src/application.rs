//! The modal input dispatcher: key and mouse events change the buffer, the
//! view and the mode, and queue the terminal work that shows the result.

use vstd::prelude::*;
use vstd::string::{StrSliceExecFns, StringExecFns};

use crate::editor::{
    chars_of, chars_to_string, clamp_pos, delete_rows, has_room_for_one, marker_target, search_result,
    write_cursor, write_rows, Editor, Position,
};
use crate::renderer::{
    clamp_loc, opts_wf, rendered, rescaled_location, round_to_cell, round_units, RenderOpts,
    StringRenderer, clamp_units, SCALE_ONE, UNIT,
};
use crate::vector::Vector2;

verus! {

/// What a prompt does when it is confirmed.
#[derive(Clone, Copy, Debug, PartialEq, Eq, Structural)]
pub enum Action {
    SaveFileAs,
    /// Search; backwards when the flag is set.
    Search(bool),
}

/// The dispatcher's state.
#[derive(Debug)]
pub enum EditMode {
    Command,
    Insert,
    /// Free text input: the mode to return to, and what to do on confirmation.
    Prompt(Box<EditMode>, Option<Action>),
}

/// A key press.
#[derive(Clone, Copy, Debug, PartialEq, Eq, Structural)]
pub enum KeyEvent {
    Char(char),
    Ctrl(char),
    F(u8),
    Up,
    Down,
    Left,
    Right,
    CtrlUp,
    CtrlDown,
    CtrlLeft,
    CtrlRight,
    Home,
    End,
    Esc,
    Backspace,
    Enter,
    Other,
}

/// A mouse event: a press at a screen cell (column, row), or anything else.
#[derive(Clone, Copy, Debug, PartialEq, Eq, Structural)]
pub enum MouseEvent {
    Press(u16, u16),
    Other,
}

/// An input event.
#[derive(Clone, Copy, Debug, PartialEq, Eq, Structural)]
pub enum InputEvent {
    Keyboard(KeyEvent),
    Mouse(MouseEvent),
    Other,
}

/// What the status line shows.
#[derive(Debug)]
pub struct StatusLine {
    pub opts: RenderOpts,
    /// The mode's name, upper case.
    pub mode: String,
    pub log: String,
    /// The prompt's text followed by a blank.
    pub prompt: String,
    /// The index in `prompt` of the character under the prompt's cursor,
    /// while a prompt is open.
    pub highlight: Option<usize>,
}

/// Work for the terminal and its host, in the order queued.
#[derive(Debug)]
pub enum Output {
    /// Move the caret to (column, row).
    MoveTo(u16, u16),
    /// Print text from the caret on.
    Print(String),
    /// Print the status line from the caret on.
    Status(StatusLine),
    ShowCaret,
    HideCaret,
    /// Clear the screen and show the help text.
    Help,
    /// Put text on the clipboard, then report with `copy_done`.
    Copy(String),
    /// Read the clipboard, then hand its text to `paste_text`.
    Paste,
    /// Write the text (second) to the file at the path (first).
    Save(String, String),
}

/// The content of a status line.
pub struct StatusView {
    pub opts: RenderOpts,
    pub mode: Seq<char>,
    pub log: Seq<char>,
    pub prompt: Seq<char>,
    pub highlight: Option<int>,
}

/// The content of an `Output`.
pub enum Draw {
    MoveTo(u16, u16),
    Print(Seq<char>),
    Status(StatusView),
    ShowCaret,
    HideCaret,
    Help,
    Copy(Seq<char>),
    Paste,
    Save(Seq<char>, Seq<char>),
}

impl View for StatusLine {
    type V = StatusView;

    open spec fn view(&self) -> StatusView {
        StatusView {
            opts: self.opts,
            mode: self.mode@,
            log: self.log@,
            prompt: self.prompt@,
            highlight: match self.highlight {
                Some(i) => Some(i as int),
                None => None,
            },
        }
    }
}

impl View for Output {
    type V = Draw;

    open spec fn view(&self) -> Draw {
        match self {
            Output::MoveTo(x, y) => Draw::MoveTo(*x, *y),
            Output::Print(s) => Draw::Print(s@),
            Output::Status(l) => Draw::Status(l@),
            Output::ShowCaret => Draw::ShowCaret,
            Output::HideCaret => Draw::HideCaret,
            Output::Help => Draw::Help,
            Output::Copy(s) => Draw::Copy(s@),
            Output::Paste => Draw::Paste,
            Output::Save(p, t) => Draw::Save(p@, t@),
        }
    }
}

/// Whether a mode is a prompt.
pub open spec fn is_prompt(m: EditMode) -> bool {
    m is Prompt
}

/// Modes the dispatcher produces: a prompt never returns to a prompt.
pub open spec fn mode_wf(m: EditMode) -> bool {
    match m {
        EditMode::Prompt(inner, _) => !is_prompt(*inner),
        _ => true,
    }
}

/// The name of a mode, upper case.
pub open spec fn mode_name(m: EditMode) -> Seq<char> {
    match m {
        EditMode::Command => "COMMAND"@,
        EditMode::Insert => "INSERT"@,
        EditMode::Prompt(_, _) => "PROMPT"@,
    }
}

/// `v` clamped to the range of `u16`.
pub open spec fn to_u16(v: int) -> u16 {
    if v < 0 {
        0
    } else if v > 0xffff {
        0xffff
    } else {
        v as u16
    }
}

/// A backspace that changes the rows shortens the text.
proof fn lemma_text_shrinks(before: Seq<Seq<char>>, after: Seq<Seq<char>>, x: int, y: int)
    requires
        crate::editor::doc_wf(before),
        crate::text::valid_pos(before, x, y),
        after == delete_rows(before, x, y),
        x > 0 || y > 0,
    ensures
        crate::text::join(after).len() < crate::text::join(before).len(),
{
    crate::text::lemma_join_total(before);
    crate::text::lemma_total_split(before, y);
    if x > 0 {
        crate::text::lemma_total_three(before.take(y), seq![after[y]], before.skip(y + 1));
        assert(after =~= before.take(y) + seq![after[y]] + before.skip(y + 1));
    } else {
        let a = before.take(y - 1);
        let b = before.skip(y + 1);
        crate::text::lemma_total_three(a, seq![before[y - 1], before[y]], b);
        crate::text::lemma_total_three(a, seq![before[y - 1] + before[y]], b);
        assert(before =~= a + seq![before[y - 1], before[y]] + b);
        assert(after =~= a + seq![before[y - 1] + before[y]] + b);
    }
    crate::text::lemma_join_total(after);
}

/// Half of `h`, rounded toward zero.
pub open spec fn half_toward_zero(h: int) -> int {
    if h >= 0 {
        h / 2
    } else {
        -((-h) / 2)
    }
}


fn clamp_u16(v: i64) -> (r: u16)
    ensures
        r == to_u16(v as int),
{
    if v < 0 {
        0
    } else if v > 0xffff {
        0xffff
    } else {
        v as u16
    }
}

/// Whether the view covers buffer cell `p`.
pub open spec fn view_contains(o: RenderOpts, p: Vector2<i32>) -> bool {
    o.view.location.0 <= p.0 * UNIT < o.view.location.0 + o.view.width * UNIT
        && o.view.location.1 <= p.1 * UNIT < o.view.location.1 + o.view.height * UNIT
}

/// The decimal digits of `n`.
pub open spec fn nat_digits(n: nat) -> Seq<char>
    decreases n,
{
    if n < 10 {
        seq![seq!['0', '1', '2', '3', '4', '5', '6', '7', '8', '9'][n as int]]
    } else {
        nat_digits(n / 10).push(seq!['0', '1', '2', '3', '4', '5', '6', '7', '8', '9'][(n % 10) as int])
    }
}

/// `n` written in decimal, with a leading `-` when negative.
pub open spec fn decimal(n: int) -> Seq<char> {
    if n < 0 {
        seq!['-'] + nat_digits((-n) as nat)
    } else {
        nat_digits(n as nat)
    }
}

/// Relies on `i64`'s `Display` through `ToString`: decimal digits, with a
/// leading `-` when negative.
#[verifier::external_body]
fn int_text(n: i64) -> (r: String)
    ensures
        r@ == decimal(n as int),
{
    n.to_string()
}

/// The rows and cursor after writing each character of `s` in turn, where
/// there is room for it.
pub open spec fn write_all(rows: Seq<Seq<char>>, c: Vector2<i32>, s: Seq<char>) -> (Seq<Seq<char>>, Vector2<i32>)
    decreases s.len(),
{
    if s.len() == 0 {
        (rows, c)
    } else {
        let (r, k) = write_all(rows, c, s.drop_last());
        if has_room_for_one(r) {
            (write_rows(r, k.0 as int, k.1 as int, s.last()), write_cursor(k.0 as int, k.1 as int, s.last()))
        } else {
            (r, k)
        }
    }
}

/// `s` without carriage returns.
pub open spec fn without_cr(s: Seq<char>) -> Seq<char> {
    s.filter(|c: char| c != '\r')
}

/// The rows after deleting row `y`: the row goes, or a sole row is emptied.
pub open spec fn delete_line_rows(rows: Seq<Seq<char>>, y: int) -> Seq<Seq<char>> {
    if rows.len() == 1 {
        seq![Seq::empty()]
    } else {
        rows.remove(y)
    }
}

/// The cursor after deleting row `y`: at the start of the row that took its
/// place, or of the row above where it was the last.
pub open spec fn delete_line_cursor(rows: Seq<Seq<char>>, y: int) -> Vector2<i32> {
    if y == 0 {
        Vector2(0i32, 0i32)
    } else if y < rows.len() - 1 {
        Vector2(0i32, y as i32)
    } else {
        Vector2(0i32, (y - 1) as i32)
    }
}

/// The direction of a search action: backwards when `true`.
pub open spec fn search_flag(a: Option<Action>) -> Option<bool> {
    match a {
        Some(Action::Search(r)) => Some(r),
        _ => None,
    }
}

/// The rows and cursor after writing `c` at `k`, where there is room for it.
pub open spec fn write_if_room(rows: Seq<Seq<char>>, k: Vector2<i32>, c: char) -> (Seq<Seq<char>>, Vector2<i32>) {
    if has_room_for_one(rows) {
        (write_rows(rows, k.0 as int, k.1 as int, c), write_cursor(k.0 as int, k.1 as int, c))
    } else {
        (rows, k)
    }
}

/// The rows and cursor after a key in insert mode: arrows move the cursor,
/// characters and Enter are written, Backspace deletes.
pub open spec fn insert_effect(rows: Seq<Seq<char>>, k: Vector2<i32>, e: KeyEvent) -> (Seq<Seq<char>>, Vector2<i32>) {
    match e {
        KeyEvent::Down => (rows, clamp_pos(rows, k.0 as int, k.1 + 1)),
        KeyEvent::Up => (rows, clamp_pos(rows, k.0 as int, k.1 - 1)),
        KeyEvent::Right => (rows, clamp_pos(rows, k.0 + 1, k.1 as int)),
        KeyEvent::Left => (rows, clamp_pos(rows, k.0 - 1, k.1 as int)),
        KeyEvent::Char(c) => write_if_room(rows, k, c),
        KeyEvent::Enter => write_if_room(rows, k, '\n'),
        KeyEvent::Backspace => (
            delete_rows(rows, k.0 as int, k.1 as int),
            crate::editor::delete_cursor(rows, k.0 as int, k.1 as int),
        ),
        _ => (rows, k),
    }
}

/// The rows and cursor after a key in command mode, for the keys that move
/// the cursor or edit the document.
pub open spec fn command_effect(rows: Seq<Seq<char>>, k: Vector2<i32>, e: KeyEvent) -> (Seq<Seq<char>>, Vector2<i32>) {
    match e {
        KeyEvent::Char('j') | KeyEvent::Down => (rows, clamp_pos(rows, k.0 as int, k.1 + 1)),
        KeyEvent::Char('k') | KeyEvent::Up => (rows, clamp_pos(rows, k.0 as int, k.1 - 1)),
        KeyEvent::Char('l') | KeyEvent::Right => (rows, clamp_pos(rows, k.0 + 1, k.1 as int)),
        KeyEvent::Char('h') | KeyEvent::Left => (rows, clamp_pos(rows, k.0 - 1, k.1 as int)),
        KeyEvent::Char('w') => (rows, marker_target(rows, k, Position::NextWord)),
        KeyEvent::Char('b') => (rows, marker_target(rows, k, Position::PreviousWord)),
        KeyEvent::Char('$') => (rows, marker_target(rows, k, Position::LineEnd)),
        KeyEvent::Char('0') => (rows, marker_target(rows, k, Position::LineBeginning)),
        KeyEvent::Char('d') => (
            delete_rows(rows, k.0 as int, k.1 as int),
            crate::editor::delete_cursor(rows, k.0 as int, k.1 as int),
        ),
        KeyEvent::Char('o') => write_if_room(rows, marker_target(rows, k, Position::LineEnd), '\n'),
        KeyEvent::Char('O') => {
            let up = clamp_pos(rows, k.0 as int, k.1 - 1);
            write_if_room(rows, marker_target(rows, up, Position::LineEnd), '\n')
        },
        _ => (rows, k),
    }
}

/// The mode after a key in command mode.
pub open spec fn command_mode_after(e: KeyEvent) -> EditMode {
    match e {
        KeyEvent::Char('i') | KeyEvent::Char('o') | KeyEvent::Char('O') => EditMode::Insert,
        KeyEvent::Char('/') => EditMode::Prompt(Box::new(EditMode::Command), Some(Action::Search(false))),
        KeyEvent::Char('?') => EditMode::Prompt(Box::new(EditMode::Command), Some(Action::Search(true))),
        _ => EditMode::Command,
    }
}

/// The scale after a zoom key in command mode: `_` zooms out a tenth (up to
/// the largest `u32`), `+` zooms in a tenth (down to 0), `=` resets to 1.
pub open spec fn zoomed_scale(s: u32, e: KeyEvent) -> u32 {
    match e {
        KeyEvent::Char('_') => if s < u32::MAX { (s + 1) as u32 } else { s },
        KeyEvent::Char('+') => if s <= 1 { 0 } else { (s - 1) as u32 },
        KeyEvent::Char('=') => SCALE_ONE,
        _ => s,
    }
}

/// Keys bound in every mode.
pub open spec fn is_global(e: KeyEvent) -> bool {
    match e {
        KeyEvent::CtrlDown | KeyEvent::CtrlUp | KeyEvent::CtrlRight | KeyEvent::CtrlLeft => true,
        KeyEvent::F(n) => n == 1 || n == 5,
        KeyEvent::Ctrl(c) => c == 'c' || c == 'd' || c == 'a' || c == 'v' || c == 'l' || c == 's' || c == 'x',
        KeyEvent::Home | KeyEvent::End => true,
        _ => false,
    }
}

/// `v` clamped to the range of `i32`.
pub open spec fn to_i32(v: int) -> i32 {
    if v < i32::MIN {
        i32::MIN
    } else if v > i32::MAX {
        i32::MAX
    } else {
        v as i32
    }
}

fn clamp_i32(v: i64) -> (r: i32)
    ensures
        r == to_i32(v as int),
{
    if v < i32::MIN as i64 {
        i32::MIN
    } else if v > i32::MAX as i64 {
        i32::MAX
    } else {
        v as i32
    }
}

/// Where the view is after a search for `text` from cursor `c`: unchanged,
/// unless the match lies outside it, which centers the view vertically on
/// the match's row.
pub open spec fn search_view(o: RenderOpts, rows: Seq<Seq<char>>, text: Seq<char>, c: Vector2<i32>, reverse: bool) -> Vector2<i64> {
    match search_result(rows, text, c, reverse) {
        Some(p) => if view_contains(o, p) {
            o.view.location
        } else {
            Vector2(
                o.view.location.0,
                clamp_loc((p.1 - half_toward_zero(o.view.height as int)) * UNIT) as i64,
            )
        },
        None => o.view.location,
    }
}

/// Work for the screen alone: no clipboard, file or help work.
pub open spec fn screen_only(d: Seq<Draw>) -> bool {
    forall|i: int|
        0 <= i < d.len() ==> (#[trigger] d[i] is MoveTo || d[i] is Print || d[i] is Status
            || d[i] is ShowCaret || d[i] is HideCaret)
}

/// What a key `e` in insert mode does, taking the application from `a` to
/// `b`: the document changes as `insert_effect` says; a character is logged
/// and its row alone is redrawn; Enter, and a Backspace that joins rows,
/// redraw the whole view; Escape switches to command mode.
#[verifier::opaque]
pub open spec fn insert_post(a: Application, b: Application, e: KeyEvent) -> bool {
    &&& (b.editor.lines(), b.editor.cursor()) == insert_effect(
        a.editor.lines(),
        a.editor.cursor(),
        e
    )
    &&& b.edit_mode == (if e == KeyEvent::Esc { EditMode::Command } else { EditMode::Insert })
    &&& b.log@ == (match e {
        KeyEvent::Char(c) => seq!['[', c, ']'],
        _ => a.log@,
    })
    &&& e is Char ==> b.drawn() == a.drawn() + b.line_draw_with(
        b.editor.cursor().1,
        true,
        a.cursor_hidden
    )
    &&& e == KeyEvent::Enter && a.render_line_hint is None ==> b.drawn()
        == a.drawn() + b.full_draw_with(a.cursor_hidden)
    &&& e == KeyEvent::Backspace && crate::editor::deleted_char(
        a.editor.lines(),
        a.editor.cursor().0 as int,
        a.editor.cursor().1 as int
    ) is Some && crate::editor::deleted_char(
        a.editor.lines(),
        a.editor.cursor().0 as int,
        a.editor.cursor().1 as int
    ) != Some('\n') ==> b.drawn() == a.drawn()
        + b.line_draw_with(
        b.editor.cursor().1,
        a.render_break_line_hint,
        a.cursor_hidden
    )
    &&& e == KeyEvent::Backspace && crate::editor::deleted_char(
        a.editor.lines(),
        a.editor.cursor().0 as int,
        a.editor.cursor().1 as int
    ) == Some('\n') && a.render_line_hint is None ==> b.drawn()
        == a.drawn() + b.full_draw_with(a.cursor_hidden)
    &&& b.filepath@ == a.filepath@
    &&& b.render_opts == a.render_opts
    &&& b.exit == a.exit
    &&& b.last_search@ == a.last_search@
    &&& b.prompt_buffer == a.prompt_buffer
    &&& b.editor.selection_active() == a.editor.selection_active()
    &&& b.editor.anchor() == a.editor.anchor()
}

/// The view's location panned by (`dx`, `dy`) cells, kept within `LOC_LIMIT`.
pub open spec fn panned(o: RenderOpts, dx: int, dy: int) -> Vector2<i64> {
    Vector2(
        clamp_loc(o.view.location.0 + dx * UNIT) as i64,
        clamp_loc(o.view.location.1 + dy * UNIT) as i64,
    )
}

/// Keys bound in command mode.
pub open spec fn command_bound(e: KeyEvent) -> bool {
    match e {
        KeyEvent::Char(c) => c == 'i' || c == 'o' || c == 'O' || c == 'J' || c == 'K' || c == 'H'
            || c == 'L' || c == 'v' || c == 'd' || c == 'c' || c == '/' || c == '?' || c == 'n'
            || c == 'N' || c == 'j' || c == 'k' || c == 'h' || c == 'l' || c == 'w' || c == 'b'
            || c == '$' || c == '0' || c == '_' || c == '+' || c == '=',
        KeyEvent::Esc | KeyEvent::Down | KeyEvent::Up | KeyEvent::Right | KeyEvent::Left => true,
        _ => false,
    }
}

/// The view's location after a key `e` in command mode: panned by the pan
/// keys, taken through the scale change by the zoom keys, moved to an
/// off-view match by the search repeats, else unchanged.
pub open spec fn command_location(a: Application, e: KeyEvent) -> Vector2<i64> {
    let o = a.render_opts;
    match e {
        KeyEvent::Char('J') => panned(o, 0, 5),
        KeyEvent::Char('K') => panned(o, 0, -5),
        KeyEvent::Char('H') => panned(o, -5, 0),
        KeyEvent::Char('L') => panned(o, 5, 0),
        KeyEvent::Char('_') | KeyEvent::Char('=') => rescaled_location(o, zoomed_scale(o.scale, e) as int),
        KeyEvent::Char('+') => if o.scale > 1 {
            rescaled_location(o, zoomed_scale(o.scale, e) as int)
        } else {
            o.view.location
        },
        KeyEvent::Char('n') | KeyEvent::Char('N') => search_view(
            o,
            a.editor.lines(),
            a.last_search@,
            a.editor.cursor(),
            e == KeyEvent::Char('N'),
        ),
        _ => o.view.location,
    }
}

/// The log after a key `e` in command mode.
pub open spec fn command_log(a: Application, e: KeyEvent) -> Seq<char> {
    match e {
        KeyEvent::Char('/') | KeyEvent::Char('?') => "search: "@,
        KeyEvent::Char('n') | KeyEvent::Char('N') => "repeating last search"@,
        KeyEvent::Char('=') => "reset render scale to 1"@,
        _ => a.log@,
    }
}

/// What a key `e` in command mode does, taking the application from `a` to
/// `b`: the document and cursor change as `command_effect` says (the search
/// repeats move the cursor to the next match of the last search); `v` and
/// Escape start and end the selection; the view, scale, log and mode change
/// as the functions above say; `c` queues the selection for the clipboard,
/// once, followed by screen work alone; an unbound key changes nothing.
#[verifier::opaque]
pub open spec fn command_post(a: Application, b: Application, e: KeyEvent) -> bool {
    let n = a.drawn().len() as int;
    &&& b.exit == a.exit
    &&& b.filepath@ == a.filepath@
    &&& b.last_search@ == a.last_search@
    &&& b.prompt_buffer == a.prompt_buffer
    &&& b.edit_mode == command_mode_after(e)
    &&& !(e == KeyEvent::Char('n') || e == KeyEvent::Char('N')) ==> (b.editor.lines(), b.editor.cursor())
        == command_effect(a.editor.lines(), a.editor.cursor(), e)
    &&& (e == KeyEvent::Char('n') || e == KeyEvent::Char('N')) ==> b.editor.lines() == a.editor.lines()
        && b.editor.cursor() == (match search_result(
        a.editor.lines(),
        a.last_search@,
        a.editor.cursor(),
        e == KeyEvent::Char('N'),
    ) {
        Some(p) => p,
        None => a.editor.cursor(),
    })
    &&& b.editor.selection_active() == (if e == KeyEvent::Char('v') {
        true
    } else if e == KeyEvent::Esc {
        false
    } else {
        a.editor.selection_active()
    })
    &&& b.editor.anchor() == (if e == KeyEvent::Char('v') {
        a.editor.cursor()
    } else {
        a.editor.anchor()
    })
    &&& b.render_opts.scale == zoomed_scale(a.render_opts.scale, e)
    &&& b.render_opts.view.width == a.render_opts.view.width
    &&& b.render_opts.view.height == a.render_opts.view.height
    &&& b.render_opts.view.location == command_location(a, e)
    &&& b.log@ == command_log(a, e)
    &&& e == KeyEvent::Char('c') && a.editor.selection_active() ==> b.drawn().len() >= n + 1
        && b.drawn().take(n + 1) == a.drawn().push(Draw::Copy(a.editor.selected_text()))
        && screen_only(b.drawn().skip(n + 1))
    &&& e == KeyEvent::Char('c') && !a.editor.selection_active() ==> b.drawn().len() >= n
        && b.drawn().take(n) == a.drawn() && screen_only(b.drawn().skip(n))
    &&& !command_bound(e) ==> b.drawn() == a.drawn() && b.editor == a.editor
}

/// The rows a prompt prefilled with `t` holds.
pub open spec fn prefill_lines(t: Seq<char>) -> Seq<Seq<char>> {
    if t.len() < i32::MAX {
        crate::text::split_lines(t)
    } else {
        seq![Seq::empty()]
    }
}

/// What a key `e` does while a prompt is open, taking the application from
/// `a` to `b`; `action` is the prompt's action and `back` the mode it
/// returns to. Characters, Backspace, Left and Right edit the prompt alone;
/// Up recalls the last search into a search prompt; Escape closes the
/// prompt; Enter closes it and saves to the path typed (queueing the
/// document's text for writing), or searches for the text typed.
#[verifier::opaque]
pub open spec fn prompt_post(a: Application, b: Application, e: KeyEvent, action: Option<Action>, back: EditMode) -> bool {
    let n = a.drawn().len() as int;
    let save = e == KeyEvent::Enter && action == Some(Action::SaveFileAs);
    let search = e == KeyEvent::Enter && search_flag(action) is Some;
    let typed = a.prompt_buffer.text();
    let pl = a.prompt_buffer.lines();
    let pc = a.prompt_buffer.cursor();
    &&& b.exit == a.exit
    &&& b.filepath@ == (if save { typed } else { a.filepath@ })
    &&& b.log@ == (if save { "saved to file: "@ + typed } else { a.log@ })
    &&& b.last_search@ == (if search { typed } else { a.last_search@ })
    &&& b.edit_mode == (if e == KeyEvent::Esc || e == KeyEvent::Enter { back } else { a.edit_mode })
    &&& !search ==> b.editor == a.editor && b.render_opts == a.render_opts
    &&& search ==> b.editor.lines() == a.editor.lines()
        && b.editor.selection_active() == a.editor.selection_active()
        && b.editor.anchor() == a.editor.anchor()
        && b.editor.cursor() == (match search_result(a.editor.lines(), typed, a.editor.cursor(), search_flag(action)->0) {
            Some(p) => p,
            None => a.editor.cursor(),
        })
        && b.render_opts.scale == a.render_opts.scale
        && b.render_opts.view.width == a.render_opts.view.width
        && b.render_opts.view.height == a.render_opts.view.height
        && b.render_opts.view.location == search_view(
            a.render_opts,
            a.editor.lines(),
            typed,
            a.editor.cursor(),
            search_flag(action)->0,
        )
    &&& match e {
        KeyEvent::Char(c) => (b.prompt_buffer.lines(), b.prompt_buffer.cursor()) == write_if_room(pl, pc, c),
        KeyEvent::Backspace => b.prompt_buffer.lines() == delete_rows(pl, pc.0 as int, pc.1 as int)
            && b.prompt_buffer.cursor() == crate::editor::delete_cursor(pl, pc.0 as int, pc.1 as int),
        KeyEvent::Left => b.prompt_buffer.lines() == pl
            && b.prompt_buffer.cursor() == clamp_pos(pl, pc.0 - 1, pc.1 as int),
        KeyEvent::Right => b.prompt_buffer.lines() == pl
            && b.prompt_buffer.cursor() == clamp_pos(pl, pc.0 + 1, pc.1 as int),
        KeyEvent::Up => if search_flag(action) is Some {
            b.prompt_buffer.lines() == prefill_lines(a.last_search@)
                && b.prompt_buffer.cursor() == Vector2(b.prompt_buffer.lines()[0].len() as i32, 0i32)
        } else {
            b.prompt_buffer == a.prompt_buffer && b.drawn() == a.drawn()
        },
        KeyEvent::Esc | KeyEvent::Enter => b.prompt_buffer.lines() == seq![Seq::<char>::empty()]
            && b.prompt_buffer.cursor() == Vector2(0i32, 0i32),
        _ => b.prompt_buffer == a.prompt_buffer && b.drawn() == a.drawn(),
    }
    &&& save ==> b.drawn().len() >= n + 1
        && b.drawn().take(n + 1) == a.drawn().push(Draw::Save(typed, a.editor.text()))
}

/// What a key `e` does in any mode, taking the application from `a` to `b`:
/// the bindings of every mode (panning, help, redraw, quit, row deletion,
/// jumping to the view's middle row, paste, centering, save, save-as, row
/// start and end), else what the current mode does with the key.
#[verifier::opaque]
pub open spec fn key_post(a: Application, b: Application, e: KeyEvent) -> bool {
    let n = a.drawn().len() as int;
    let o = a.render_opts;
    let rows = a.editor.lines();
    &&& b.exit == (a.exit || e == KeyEvent::Ctrl('c'))
    &&& is_global(e) && e != KeyEvent::Ctrl('x') ==> b.edit_mode == a.edit_mode
        && b.filepath@ == a.filepath@ && b.prompt_buffer == a.prompt_buffer
    &&& is_global(e) && e != KeyEvent::Ctrl('x') && e != KeyEvent::Ctrl('s') ==> b.log@ == a.log@
    &&& match e {
        KeyEvent::CtrlDown => b.editor == a.editor && b.render_opts.view.location == panned(o, 0, 1),
        KeyEvent::CtrlUp => b.editor == a.editor && b.render_opts.view.location == panned(o, 0, -1),
        KeyEvent::CtrlRight => b.editor == a.editor && b.render_opts.view.location == panned(o, 1, 0),
        KeyEvent::CtrlLeft => b.editor == a.editor && b.render_opts.view.location == panned(o, -1, 0),
        KeyEvent::F(1) => b.editor == a.editor && b.drawn() == a.drawn().push(Draw::Help),
        KeyEvent::F(5) => b.editor == a.editor && b.drawn() == a.drawn() + a.render_draw(),
        KeyEvent::Ctrl('c') => b.editor == a.editor && b.drawn() == a.drawn(),
        KeyEvent::Ctrl('d') => b.editor.lines() == delete_line_rows(rows, a.editor.cursor().1 as int)
            && b.editor.cursor() == delete_line_cursor(rows, a.editor.cursor().1 as int),
        KeyEvent::Ctrl('a') => b.editor.lines() == rows && b.editor.cursor() == clamp_pos(
            rows,
            0,
            to_i32(round_units(o.view.location.1 as int) + half_toward_zero(o.view.height as int)) as int,
        ),
        KeyEvent::Ctrl('v') => b.editor == a.editor && b.drawn() == a.drawn().push(Draw::Paste),
        KeyEvent::Ctrl('l') => b.editor == a.editor && b.render_opts.view.location == Vector2(
            o.view.location.0,
            clamp_loc((a.editor.cursor().1 - half_toward_zero(o.view.height as int)) * UNIT) as i64,
        ),
        KeyEvent::Ctrl('s') => b.editor == a.editor && b.log@ == "saved to "@ + a.filepath@
            && b.drawn().len() >= n + 1
            && b.drawn().take(n + 1) == a.drawn().push(Draw::Save(a.filepath@, a.editor.text())),
        KeyEvent::Ctrl('x') => b.editor == a.editor && b.filepath@ == a.filepath@ && if is_prompt(a.edit_mode) {
            b.edit_mode == a.edit_mode && b.log@ == a.log@ && b.prompt_buffer == a.prompt_buffer
                && b.drawn() == a.drawn()
        } else {
            b.edit_mode == EditMode::Prompt(Box::new(a.edit_mode), Some(Action::SaveFileAs))
                && b.log@ == "save as: "@ && b.prompt_buffer.lines() == prefill_lines(a.filepath@)
                && b.prompt_buffer.cursor() == Vector2(b.prompt_buffer.lines()[0].len() as i32, 0i32)
        },
        KeyEvent::Home => b.editor.lines() == rows && b.editor.cursor() == marker_target(
            rows,
            a.editor.cursor(),
            Position::LineBeginning,
        ),
        KeyEvent::End => b.editor.lines() == rows && b.editor.cursor() == marker_target(
            rows,
            a.editor.cursor(),
            Position::LineEnd,
        ),
        _ => match a.edit_mode {
            EditMode::Insert => insert_post(a, b, e),
            EditMode::Command => command_post(a, b, e),
            EditMode::Prompt(back, action) => prompt_post(a, b, e, action, *back),
        },
    }
}

/// What a mouse event `e` does, taking the application from `a` to `b`: a
/// press puts the cursor on the buffer cell under the pressed screen cell
/// and logs it; anything else is logged as unknown.
#[verifier::opaque]
pub open spec fn mouse_post(a: Application, b: Application, e: MouseEvent) -> bool {
    let o = a.render_opts;
    &&& b.exit == a.exit
    &&& b.edit_mode == a.edit_mode
    &&& b.filepath@ == a.filepath@
    &&& b.editor.lines() == a.editor.lines()
    &&& b.editor.selection_active() == a.editor.selection_active()
    &&& b.editor.anchor() == a.editor.anchor()
    &&& match e {
        MouseEvent::Press(x, y) => {
            let ex = x + round_units(o.view.location.0 as int);
            let ey = y + round_units(o.view.location.1 as int);
            &&& b.editor.cursor() == clamp_pos(a.editor.lines(), to_i32(ex) as int, to_i32(ey) as int)
            &&& b.log@ == "mouse: set cursor location to "@ + decimal(ex) + ":"@ + decimal(ey)
        },
        MouseEvent::Other => b.log@ == "unknown mouse event"@ && b.editor == a.editor,
    }
}

/// Cell `i` of a status row made of `head`, then the prompt text `prompt`
/// (the cell under the prompt's cursor, `highlight`, marked), then blanks.
pub open spec fn status_cell(head: Seq<char>, prompt: Seq<char>, highlight: Option<int>, i: int) -> (char, bool) {
    if i < head.len() {
        (head[i], false)
    } else if i < head.len() + prompt.len() {
        (prompt[i - head.len()], highlight == Some(i - head.len()))
    } else {
        (' ', false)
    }
}

/// Lays out the status row across the view's width: the `head` text (the
/// view's position, size and scale, the mode and the log, as app code
/// formats them), then the prompt text with the prompt's cursor marked, then
/// blanks. Each cell is a character and whether it is highlighted.
pub fn status_cells(head: &Vec<char>, line: &StatusLine) -> (r: Vec<(char, bool)>)
    ensures
        r@.len() == (if line.opts.view.width > 0 { line.opts.view.width as int } else { 0 }),
        forall|i: int| 0 <= i < r@.len() ==> #[trigger] r@[i] == status_cell(head@, line.prompt@, line@.highlight, i),
{
    let prompt = chars_of(line.prompt.as_str());
    let w: usize = if line.opts.view.width > 0 { line.opts.view.width as usize } else { 0 };
    let mut r: Vec<(char, bool)> = Vec::new();
    let mut i: usize = 0;
    while i < w
        invariant
            0 <= i <= w,
            w == (if line.opts.view.width > 0 { line.opts.view.width as int } else { 0 }),
            prompt@ == line.prompt@,
            r@.len() == i,
            forall|j: int| 0 <= j < i ==> #[trigger] r@[j] == status_cell(head@, line.prompt@, line@.highlight, j),
        decreases w - i,
    {
        let cell: (char, bool) = if i < head.len() {
            (head[i], false)
        } else if i - head.len() < prompt.len() {
            let k = i - head.len();
            let marked = match line.highlight {
                Some(h) => h == k,
                None => false,
            };
            (prompt[k], marked)
        } else {
            (' ', false)
        };
        r.push(cell);
        i = i + 1;
    }
    r
}

impl EditMode {
    /// A copy of the mode.
    pub fn duplicate(&self) -> (r: EditMode)
        ensures
            r == *self,
        decreases self,
    {
        match self {
            EditMode::Command => EditMode::Command,
            EditMode::Insert => EditMode::Insert,
            EditMode::Prompt(inner, action) => EditMode::Prompt(Box::new((**inner).duplicate()), *action),
        }
    }

    /// The mode's name.
    pub fn to_string(&self) -> (r: String)
        ensures
            r@ == (match *self {
                EditMode::Command => "command"@,
                EditMode::Insert => "insert"@,
                EditMode::Prompt(_, _) => "prompt"@,
            }),
    {
        match self {
            EditMode::Command => String::from_str("command"),
            EditMode::Insert => String::from_str("insert"),
            EditMode::Prompt(_, _) => String::from_str("prompt"),
        }
    }

    fn upper_name(&self) -> (r: String)
        ensures
            r@ == mode_name(*self),
    {
        match self {
            EditMode::Command => String::from_str("COMMAND"),
            EditMode::Insert => String::from_str("INSERT"),
            EditMode::Prompt(_, _) => String::from_str("PROMPT"),
        }
    }
}

/// The editor application: the document, a prompt buffer, the view, the mode.
pub struct Application {
    /// Where the document is saved.
    pub filepath: String,
    pub editor: Editor,
    pub render_opts: RenderOpts,
    /// Set when the application is to stop.
    pub exit: bool,
    /// The last message for the status line.
    pub log: String,
    pub edit_mode: EditMode,
    /// The text of the last search.
    pub last_search: String,
    /// The text typed into an open prompt.
    pub prompt_buffer: Editor,
    /// Redraw only this row.
    pub render_line_hint: Option<i32>,
    /// On a row redraw, stop at the end of the row's text.
    pub render_break_line_hint: bool,
    /// Whether the terminal caret is hidden.
    pub cursor_hidden: bool,
    /// Terminal work queued and not yet taken.
    pub outputs: Vec<Output>,
}

impl Application {
    pub open spec fn wf(&self) -> bool {
        &&& self.editor.wf()
        &&& self.prompt_buffer.wf()
        &&& opts_wf(self.render_opts)
        &&& mode_wf(self.edit_mode)
    }

    /// The queued terminal work.
    pub open spec fn drawn(&self) -> Seq<Draw> {
        self.outputs@.map_values(|o: Output| o@)
    }

    /// What the status line shows now.
    pub open spec fn status_view(&self) -> StatusView {
        StatusView {
            opts: self.render_opts,
            mode: mode_name(self.edit_mode),
            log: self.log@,
            prompt: self.prompt_buffer.text() + seq![' '],
            highlight: if is_prompt(self.edit_mode) {
                Some(self.prompt_buffer.cursor().0 as int)
            } else {
                None
            },
        }
    }

    /// Drawing the status line: below the text area.
    pub open spec fn status_draw(&self) -> Seq<Draw> {
        seq![
            Draw::MoveTo(0u16, to_u16(self.render_opts.view.height + 1)),
            Draw::Status(self.status_view()),
        ]
    }

    /// Placing the caret when its visibility is `hidden`: on the cursor's
    /// screen cell when the view covers it, shown if it was hidden; else
    /// hidden, at the corner.
    pub open spec fn caret_draw_with(&self, hidden: bool) -> Seq<Draw> {
        let c = self.editor.cursor();
        let o = self.render_opts;
        if view_contains(o, c) {
            seq![
                Draw::MoveTo(
                    to_u16(c.0 - round_units(o.view.location.0 as int)),
                    to_u16(c.1 - round_units(o.view.location.1 as int)),
                ),
            ] + if hidden {
                seq![Draw::ShowCaret]
            } else {
                Seq::empty()
            }
        } else {
            seq![Draw::MoveTo(0u16, 0u16)] + if !hidden {
                seq![Draw::HideCaret]
            } else {
                Seq::empty()
            }
        }
    }

    /// Placing the caret.
    pub open spec fn caret_draw(&self) -> Seq<Draw> {
        self.caret_draw_with(self.cursor_hidden)
    }

    /// Drawing the whole view, then the status line and the caret.
    pub open spec fn full_draw_with(&self, hidden: bool) -> Seq<Draw> {
        seq![
            Draw::MoveTo(0u16, 0u16),
            Draw::Print(rendered(self.editor.lines(), None, false, self.render_opts)),
        ] + self.status_draw() + self.caret_draw_with(hidden)
    }

    /// Drawing the whole view, then the status line and the caret.
    pub open spec fn full_draw(&self) -> Seq<Draw> {
        self.full_draw_with(self.cursor_hidden)
    }

    /// Whether row `line` lies in the view's vertical range.
    pub open spec fn row_in_view(&self, line: i32) -> bool {
        let v = self.render_opts.view;
        v.location.1 <= line * UNIT < v.location.1 + v.height * UNIT
    }

    /// Drawing row `line` alone (stopping at the row's end with `brk`) where
    /// it lies in the view's vertical range; else nothing.
    pub open spec fn line_draw_with(&self, line: i32, brk: bool, hidden: bool) -> Seq<Draw> {
        let o = self.render_opts;
        if self.row_in_view(line) {
            seq![
                Draw::MoveTo(0u16, to_u16(line - round_units(o.view.location.1 as int))),
                Draw::Print(rendered(self.editor.lines(), Some(line), brk, o)),
            ] + self.status_draw() + self.caret_draw_with(hidden)
        } else {
            Seq::empty()
        }
    }

    /// Drawing row `line` alone, or nothing.
    pub open spec fn line_draw(&self, line: i32) -> Seq<Draw> {
        self.line_draw_with(line, self.render_break_line_hint, self.cursor_hidden)
    }

    /// Whether the caret is hidden after `render_line(line)`.
    pub open spec fn hidden_after_line(&self, line: i32) -> bool {
        if self.row_in_view(line) {
            self.caret_hidden_after()
        } else {
            self.cursor_hidden
        }
    }

    /// Whether the caret is hidden after `render`.
    pub open spec fn hidden_after_render(&self) -> bool {
        match self.render_line_hint {
            Some(l) => self.hidden_after_line(l),
            None => self.caret_hidden_after(),
        }
    }

    /// What `render` draws.
    pub open spec fn render_draw(&self) -> Seq<Draw> {
        match self.render_line_hint {
            Some(l) => self.line_draw(l),
            None => self.full_draw(),
        }
    }

    /// Whether the caret is hidden after it is placed.
    pub open spec fn caret_hidden_after(&self) -> bool {
        !view_contains(self.render_opts, self.editor.cursor())
    }

    /// Everything but the queued work, the caret's visibility and the
    /// redraw hints is as in `o`.
    pub open spec fn same_content(&self, o: &Application) -> bool {
        &&& self.filepath@ == o.filepath@
        &&& self.editor == o.editor
        &&& self.render_opts == o.render_opts
        &&& self.exit == o.exit
        &&& self.log@ == o.log@
        &&& self.edit_mode == o.edit_mode
        &&& self.last_search@ == o.last_search@
        &&& self.prompt_buffer == o.prompt_buffer
    }

    /// `render` queues screen work alone.
    pub proof fn lemma_render_screen_only(&self)
        ensures
            screen_only(self.render_draw()),
    {
        let st = self.status_draw();
        assert(screen_only(st));
        let cd = self.caret_draw_with(self.cursor_hidden);
        assert(screen_only(cd));
        let fd = self.full_draw();
        assert forall|i: int| 0 <= i < fd.len() implies (#[trigger] fd[i] is MoveTo || fd[i] is Print
            || fd[i] is Status || fd[i] is ShowCaret || fd[i] is HideCaret) by {
            if i >= 2 + st.len() {
                assert(fd[i] == cd[i - 2 - st.len()]);
            } else if i >= 2 {
                assert(fd[i] == st[i - 2]);
            }
        }
        if let Some(l) = self.render_line_hint {
            let ld = self.line_draw(l);
            if self.row_in_view(l) {
                assert forall|i: int| 0 <= i < ld.len() implies (#[trigger] ld[i] is MoveTo || ld[i] is Print
                    || ld[i] is Status || ld[i] is ShowCaret || ld[i] is HideCaret) by {
                    if i >= 2 + st.len() {
                        assert(ld[i] == cd[i - 2 - st.len()]);
                    } else if i >= 2 {
                        assert(ld[i] == st[i - 2]);
                    }
                }
            }
        }
    }

    fn push(&mut self, o: Output)
        ensures
            final(self).drawn() == old(self).drawn().push(o@),
            final(self).same_content(old(self)),
            final(self).render_line_hint == old(self).render_line_hint,
            final(self).render_break_line_hint == old(self).render_break_line_hint,
            final(self).cursor_hidden == old(self).cursor_hidden,
    {
        let ghost before = self.outputs@;
        self.outputs.push(o);
        assert(self.outputs@.map_values(|o: Output| o@) =~= before.map_values(|o: Output| o@).push(o@));
    }

    /// Places the terminal caret on the cursor, or hides it where the view
    /// does not cover the cursor.
    pub fn update_cursor_pos(&mut self)
        requires
            old(self).wf(),
        ensures
            final(self).drawn() == old(self).drawn() + old(self).caret_draw(),
            final(self).cursor_hidden == old(self).caret_hidden_after(),
            final(self).same_content(old(self)),
            final(self).render_line_hint == old(self).render_line_hint,
            final(self).render_break_line_hint == old(self).render_break_line_hint,
    {
        let ghost start = self.drawn();
        let c = self.editor.cursor_pos();
        if self.render_opts.view.contains(c) {
            let x = round_to_cell(self.render_opts.view.x());
            let y = round_to_cell(self.render_opts.view.y());
            let rx = clamp_u16(c.0 as i64 - x);
            let ry = clamp_u16(c.1 as i64 - y);
            self.push(Output::MoveTo(rx, ry));
            if self.cursor_hidden {
                self.push(Output::ShowCaret);
                self.cursor_hidden = false;
            }
        } else {
            self.push(Output::MoveTo(0, 0));
            if !self.cursor_hidden {
                self.push(Output::HideCaret);
                self.cursor_hidden = true;
            }
        }
        assert(self.drawn() =~= start + old(self).caret_draw());
    }

    /// Draws the status line below the text area.
    pub fn render_status_bar(&mut self)
        requires
            old(self).wf(),
        ensures
            final(self).drawn() == old(self).drawn() + old(self).status_draw(),
            final(self).same_content(old(self)),
            final(self).render_line_hint == old(self).render_line_hint,
            final(self).render_break_line_hint == old(self).render_break_line_hint,
            final(self).cursor_hidden == old(self).cursor_hidden,
    {
        let ghost start = self.drawn();
        let row = clamp_u16(self.render_opts.view.height as i64 + 1);
        let mut prompt = self.prompt_buffer.to_string();
        prompt.append(" ");
        let highlight = match self.edit_mode {
            EditMode::Prompt(_, _) => Some(self.prompt_buffer.cursor_pos().0 as usize),
            _ => None,
        };
        let line = StatusLine {
            opts: self.render_opts,
            mode: self.edit_mode.upper_name(),
            log: self.log.clone(),
            prompt,
            highlight,
        };
        proof {
            reveal_strlit(" ");
        }
        assert(line@.mode == old(self).status_view().mode);
        assert(line@.log == old(self).status_view().log);
        assert(line@.prompt =~= old(self).status_view().prompt);
        assert(line@.highlight == old(self).status_view().highlight);
        assert(line@ == old(self).status_view());
        self.push(Output::MoveTo(0, row));
        self.push(Output::Status(line));
        assert(self.drawn() =~= start + old(self).status_draw());
    }

    /// Draws the whole view, the status line and the caret.
    fn render_full(&mut self)
        requires
            old(self).wf(),
        ensures
            final(self).drawn() == old(self).drawn() + old(self).full_draw(),
            final(self).cursor_hidden == old(self).caret_hidden_after(),
            final(self).same_content(old(self)),
            final(self).render_line_hint == old(self).render_line_hint,
            final(self).render_break_line_hint == old(self).render_break_line_hint,
    {
        let ghost start = self.drawn();
        let text = StringRenderer::new().render(&self.editor, self.render_opts);
        self.push(Output::MoveTo(0, 0));
        self.push(Output::Print(text));
        self.render_status_bar();
        self.update_cursor_pos();
        assert(self.drawn() =~= start + old(self).full_draw());
    }

    /// The application for `editor`, saving to `filepath`, in command mode,
    /// with an empty view at scale 1.
    pub fn new(editor: Editor, filepath: String) -> (r: Application)
        requires
            editor.wf(),
        ensures
            r.wf(),
            r.editor == editor,
            r.filepath@ == filepath@,
            r.edit_mode == EditMode::Command,
            r.render_opts == RenderOpts::default_spec(),
            !r.exit,
            r.log@ == Seq::<char>::empty(),
            r.last_search@ == Seq::<char>::empty(),
            r.prompt_buffer.lines() == seq![Seq::<char>::empty()],
            r.render_line_hint is None,
            !r.render_break_line_hint,
            !r.cursor_hidden,
            r.drawn() == Seq::<Draw>::empty(),
    {
        let r = Application {
            filepath,
            editor,
            render_opts: RenderOpts::new_default(),
            exit: false,
            log: String::new(),
            edit_mode: EditMode::Command,
            last_search: String::new(),
            prompt_buffer: Editor::new(),
            render_line_hint: None,
            render_break_line_hint: false,
            cursor_hidden: false,
            outputs: Vec::new(),
        };
        assert(r.drawn() =~= Seq::<Draw>::empty());
        r
    }

    /// Hands out the queued terminal work, in order, and empties the queue.
    pub fn take_outputs(&mut self) -> (r: Vec<Output>)
        ensures
            r@.map_values(|o: Output| o@) == old(self).drawn(),
            final(self).drawn() == Seq::<Draw>::empty(),
            final(self).same_content(old(self)),
            final(self).render_line_hint == old(self).render_line_hint,
            final(self).render_break_line_hint == old(self).render_break_line_hint,
            final(self).cursor_hidden == old(self).cursor_hidden,
    {
        let mut r: Vec<Output> = Vec::new();
        std::mem::swap(&mut r, &mut self.outputs);
        assert(self.drawn() =~= Seq::<Draw>::empty());
        r
    }

    /// Sets the view's size from the terminal's: all columns, and all rows
    /// but the status line.
    pub fn update_view_size(&mut self, cols: u16, rows: u16)
        requires
            old(self).wf(),
        ensures
            final(self).wf(),
            final(self).render_opts.view.width == cols as i32,
            final(self).render_opts.view.height == rows as i32 - 1,
            final(self).render_opts.view.location == old(self).render_opts.view.location,
            final(self).render_opts.scale == old(self).render_opts.scale,
            final(self).editor == old(self).editor,
            final(self).edit_mode == old(self).edit_mode,
            final(self).drawn() == old(self).drawn(),
    {
        self.render_opts.view.width = cols as i32;
        self.render_opts.view.height = rows as i32 - 1;
    }

    /// Forgets the redraw hints.
    pub fn clear_render_hints(&mut self)
        ensures
            final(self).render_line_hint is None,
            !final(self).render_break_line_hint,
            final(self).same_content(old(self)),
            final(self).cursor_hidden == old(self).cursor_hidden,
            final(self).drawn() == old(self).drawn(),
    {
        self.render_break_line_hint = false;
        self.render_line_hint = None;
    }

    /// Redraws row `line` alone where it lies in the view's vertical range;
    /// draws nothing otherwise. Clears the redraw hints.
    pub fn render_line(&mut self, line: i32)
        requires
            old(self).wf(),
        ensures
            final(self).drawn() == old(self).drawn() + old(self).line_draw(line),
            final(self).cursor_hidden == old(self).hidden_after_line(line),
            final(self).render_line_hint is None,
            !final(self).render_break_line_hint,
            final(self).same_content(old(self)),
    {
        let ghost start = self.drawn();
        let top = self.render_opts.view.location.1 as i128;
        let bottom = top + self.render_opts.view.height as i128 * 1000;
        let ly = line as i128 * 1000;
        if top <= ly && ly < bottom {
            let y = clamp_u16(line as i64 - round_to_cell(self.render_opts.view.y()));
            self.push(Output::MoveTo(0, y));
            let renderer = StringRenderer {
                line_hint: Some(line),
                break_on_line_end: self.render_break_line_hint,
            };
            let text = renderer.render(&self.editor, self.render_opts);
            self.push(Output::Print(text));
            self.render_status_bar();
            self.update_cursor_pos();
            self.clear_render_hints();
            assert(self.drawn() =~= start + old(self).line_draw(line));
        } else {
            self.clear_render_hints();
            assert(self.drawn() =~= start + old(self).line_draw(line));
        }
    }

    /// Redraws the screen: the hinted row alone where there is a line hint,
    /// else the whole view, with the status line and the caret.
    pub fn render(&mut self)
        requires
            old(self).wf(),
        ensures
            final(self).drawn() == old(self).drawn() + old(self).render_draw(),
            final(self).cursor_hidden == old(self).hidden_after_render(),
            old(self).render_line_hint is Some ==> final(self).render_line_hint is None
                && !final(self).render_break_line_hint,
            old(self).render_line_hint is None ==> final(self).render_line_hint is None
                && final(self).render_break_line_hint == old(self).render_break_line_hint,
            final(self).same_content(old(self)),
    {
        match self.render_line_hint {
            Some(line) => self.render_line(line),
            None => self.render_full(),
        }
    }


    /// Everything but the document, the queued work, the caret's visibility
    /// and the redraw hints is as in `o`.
    pub open spec fn same_settings(&self, o: &Application) -> bool {
        &&& self.filepath@ == o.filepath@
        &&& self.render_opts == o.render_opts
        &&& self.exit == o.exit
        &&& self.log@ == o.log@
        &&& self.edit_mode == o.edit_mode
        &&& self.last_search@ == o.last_search@
        &&& self.prompt_buffer == o.prompt_buffer
    }

    /// The document is as in `o`, but for the cursor.
    pub open spec fn same_document(&self, o: &Application) -> bool {
        &&& self.editor.lines() == o.editor.lines()
        &&& self.editor.selection_active() == o.editor.selection_active()
        &&& self.editor.anchor() == o.editor.anchor()
    }

    /// Redraws the cursor's row and the row `prev` it came from, while
    /// selecting.
    fn redraw_selection(&mut self, prev: i32)
        requires
            old(self).wf(),
        ensures
            final(self).wf(),
            final(self).editor == old(self).editor,
            final(self).same_settings(old(self)),
    {
        if self.editor.selecting() {
            let cy = self.editor.cursor_pos().1;
            self.render_line_hint = Some(cy);
            self.render();
            self.render_line_hint = Some(prev);
            self.render();
        }
    }

    /// Puts the cursor at (`x`, `y`), clamped to the document, and places
    /// the caret.
    pub fn set_cursor(&mut self, x: i32, y: i32)
        requires
            old(self).wf(),
        ensures
            final(self).wf(),
            final(self).editor.cursor() == clamp_pos(old(self).editor.lines(), x as int, y as int),
            final(self).same_document(old(self)),
            final(self).same_settings(old(self)),
    {
        let prev = self.editor.cursor_pos().1;
        self.editor.set_cursor(Vector2(x, y));
        self.update_cursor_pos();
        self.redraw_selection(prev);
    }

    /// Shifts the cursor by (`x`, `y`), clamped to the document, and places
    /// the caret.
    pub fn move_cursor(&mut self, x: i32, y: i32)
        requires
            old(self).wf(),
        ensures
            final(self).wf(),
            final(self).editor.cursor() == clamp_pos(
                old(self).editor.lines(),
                old(self).editor.cursor().0 + x,
                old(self).editor.cursor().1 + y,
            ),
            final(self).same_document(old(self)),
            final(self).same_settings(old(self)),
    {
        let prev = self.editor.cursor_pos().1;
        self.editor.move_cursor(Vector2(x, y));
        self.update_cursor_pos();
        self.redraw_selection(prev);
    }

    /// Pans the view by (`x`, `y`) cells (its location kept within
    /// `LOC_LIMIT`) and redraws.
    pub fn move_view(&mut self, x: i32, y: i32)
        requires
            old(self).wf(),
        ensures
            final(self).wf(),
            final(self).render_opts.view.location == Vector2(
                clamp_loc(old(self).render_opts.view.location.0 + x * UNIT) as i64,
                clamp_loc(old(self).render_opts.view.location.1 + y * UNIT) as i64,
            ),
            final(self).render_opts.view.width == old(self).render_opts.view.width,
            final(self).render_opts.view.height == old(self).render_opts.view.height,
            final(self).render_opts.scale == old(self).render_opts.scale,
            final(self).editor == old(self).editor,
            final(self).edit_mode == old(self).edit_mode,
            final(self).log@ == old(self).log@,
            final(self).filepath@ == old(self).filepath@,
            final(self).last_search@ == old(self).last_search@,
            final(self).exit == old(self).exit,
            final(self).prompt_buffer == old(self).prompt_buffer,
    {
        let lx = clamp_units(self.render_opts.view.location.0 as i128 + x as i128 * 1000);
        let ly = clamp_units(self.render_opts.view.location.1 as i128 + y as i128 * 1000);
        self.render_opts.view.location = Vector2(lx, ly);
        self.render();
    }

    /// Scrolls the view vertically so that row `loc.1` is in its middle.
    pub fn center_renderer(&mut self, loc: Vector2<i32>)
        requires
            old(self).wf(),
        ensures
            final(self).wf(),
            final(self).render_opts.view.location == Vector2(
                old(self).render_opts.view.location.0,
                clamp_loc((loc.1 - half_toward_zero(old(self).render_opts.view.height as int)) * UNIT) as i64,
            ),
            final(self).render_opts.view.width == old(self).render_opts.view.width,
            final(self).render_opts.view.height == old(self).render_opts.view.height,
            final(self).render_opts.scale == old(self).render_opts.scale,
            final(self).editor == old(self).editor,
            final(self).edit_mode == old(self).edit_mode,
            final(self).log@ == old(self).log@,
            final(self).filepath@ == old(self).filepath@,
            final(self).last_search@ == old(self).last_search@,
            final(self).exit == old(self).exit,
            final(self).prompt_buffer == old(self).prompt_buffer,
            final(self).drawn() == old(self).drawn(),
    {
        let h = self.render_opts.view.height as i128;
        let half = if h >= 0 { h / 2 } else { -((-h) / 2) };
        let y = clamp_units((loc.1 as i128 - half) * 1000);
        self.render_opts.view.location = Vector2(self.render_opts.view.location.0, y);
    }

    /// Moves the cursor to the start of its row.
    pub fn go_to_line_home(&mut self)
        requires
            old(self).wf(),
        ensures
            final(self).wf(),
            final(self).editor.cursor() == marker_target(old(self).editor.lines(), old(self).editor.cursor(), Position::LineBeginning),
            final(self).same_document(old(self)),
            final(self).same_settings(old(self)),
            final(self).drawn() == old(self).drawn(),
    {
        self.editor.move_cursor_to(Position::LineBeginning);
    }

    /// Moves the cursor to the end of its row.
    pub fn go_to_line_end(&mut self)
        requires
            old(self).wf(),
        ensures
            final(self).wf(),
            final(self).editor.cursor() == marker_target(old(self).editor.lines(), old(self).editor.cursor(), Position::LineEnd),
            final(self).same_document(old(self)),
            final(self).same_settings(old(self)),
            final(self).drawn() == old(self).drawn(),
    {
        self.editor.move_cursor_to(Position::LineEnd);
    }

    /// Moves the cursor to the next word (`forward`) or the previous one, and
    /// places the caret.
    pub fn next_word(&mut self, forward: bool)
        requires
            old(self).wf(),
        ensures
            final(self).wf(),
            final(self).editor.cursor() == marker_target(
                old(self).editor.lines(),
                old(self).editor.cursor(),
                if forward { Position::NextWord } else { Position::PreviousWord },
            ),
            final(self).same_document(old(self)),
            final(self).same_settings(old(self)),
    {
        self.editor.move_cursor_to(if forward { Position::NextWord } else { Position::PreviousWord });
        self.update_cursor_pos();
    }

    /// Remembers `text` as the last search and moves the cursor to its next
    /// occurrence after the cursor (before it, with `reverse`), if there is
    /// one; where the view does not cover the match, centers the view on it.
    pub fn search_next(&mut self, text: String, reverse: bool)
        requires
            old(self).wf(),
        ensures
            final(self).wf(),
            final(self).last_search@ == text@,
            final(self).same_document(old(self)),
            final(self).editor.cursor() == (match search_result(old(self).editor.lines(), text@, old(self).editor.cursor(), reverse) {
                Some(p) => p,
                None => old(self).editor.cursor(),
            }),
            final(self).edit_mode == old(self).edit_mode,
            final(self).log@ == old(self).log@,
            final(self).filepath@ == old(self).filepath@,
            final(self).exit == old(self).exit,
            final(self).prompt_buffer == old(self).prompt_buffer,
            final(self).render_opts.scale == old(self).render_opts.scale,
            final(self).render_opts.view.width == old(self).render_opts.view.width,
            final(self).render_opts.view.height == old(self).render_opts.view.height,
            final(self).render_opts.view.location == search_view(
                old(self).render_opts,
                old(self).editor.lines(),
                text@,
                old(self).editor.cursor(),
                reverse,
            ),
    {
        let start = self.editor.cursor_pos();
        let found = self.editor.search(text.as_str(), start, reverse);
        self.last_search = text;
        if let Some(p) = found {
            proof {
                let rows = old(self).editor.lines();
                let t = crate::text::join(rows);
                let cp = clamp_pos(rows, start.0 as int, start.1 as int);
                let o = crate::editor::offset_at(rows, cp);
                crate::text::lemma_offset_bound(rows, cp.0 as int, cp.1 as int);
                old(self).editor.lemma_bounds();
                let i = crate::editor::search_offset(t, text@, o, reverse)->0;
                if reverse {
                    crate::text::lemma_find_back(t, text@, o - 1);
                } else {
                    crate::text::lemma_find_fwd(t, text@, o + 1);
                }
                crate::editor::lemma_pos_vec(rows, i);
            }
            self.set_cursor(p.0, p.1);
            if !self.render_opts.view.contains(p) {
                self.center_renderer(p);
                self.render();
            }
        }
    }

    /// Queues writing the document to the file at `filename`.
    pub fn save_to_file(&mut self, filename: &String)
        requires
            old(self).wf(),
        ensures
            final(self).drawn() == old(self).drawn().push(Draw::Save(filename@, old(self).editor.text())),
            final(self).same_content(old(self)),
            final(self).render_line_hint == old(self).render_line_hint,
            final(self).render_break_line_hint == old(self).render_break_line_hint,
            final(self).cursor_hidden == old(self).cursor_hidden,
    {
        let text = self.editor.to_string();
        self.push(Output::Save(filename.clone(), text));
    }

    /// Writes the clipboard's text at the cursor, carriage returns left out,
    /// and redraws.
    pub fn paste_text(&mut self, text: &str)
        requires
            old(self).wf(),
        ensures
            final(self).wf(),
            (final(self).editor.lines(), final(self).editor.cursor()) == write_all(
                old(self).editor.lines(),
                old(self).editor.cursor(),
                without_cr(text@),
            ),
            final(self).same_settings(old(self)),
    {
        let chars = chars_of(text);
        let mut i: usize = 0;
        while i < chars.len()
            invariant
                self.wf(),
                0 <= i <= chars@.len(),
                (self.editor.lines(), self.editor.cursor()) == write_all(
                    old(self).editor.lines(),
                    old(self).editor.cursor(),
                    without_cr(chars@.take(i as int)),
                ),
                self.same_settings(old(self)),
            decreases chars@.len() - i,
        {
            let c = chars[i];
            let ghost prev = without_cr(chars@.take(i as int));
            proof {
                reveal(Seq::filter);
                assert(chars@.take(i + 1).drop_last() =~= chars@.take(i as int));
                if c != '\r' {
                    assert(without_cr(chars@.take(i + 1)) == prev.push(c));
                    assert(prev.push(c).drop_last() =~= prev);
                }
            }
            if c != '\r' && self.editor.has_room() {
                self.editor.write(c);
            }
            i = i + 1;
        }
        assert(chars@.take(i as int) =~= chars@);
        self.render();
    }

    /// Records how copying to the clipboard went: `None` on success, else
    /// the error's text.
    pub fn copy_done(&mut self, error: Option<String>)
        requires
            old(self).wf(),
        ensures
            final(self).wf(),
            final(self).log@ == (match error {
                None => "copied to clipboard"@,
                Some(e) => "error copying: "@ + e@,
            }),
            final(self).editor == old(self).editor,
            final(self).edit_mode == old(self).edit_mode,
    {
        match error {
            None => {
                self.log = String::from_str("copied to clipboard");
            },
            Some(e) => {
                let mut l = String::from_str("error copying: ");
                l.append(e.as_str());
                self.log = l;
            },
        }
        self.render_status_bar();
        self.update_cursor_pos();
    }


    /// Deletes the cursor's row: its characters and the separator before it
    /// (for the first row, the one after it); the cursor goes to the start of
    /// the row that takes its place.
    pub fn delete_line(&mut self)
        requires
            old(self).wf(),
        ensures
            final(self).wf(),
            final(self).editor.lines() == delete_line_rows(old(self).editor.lines(), old(self).editor.cursor().1 as int),
            final(self).editor.cursor() == delete_line_cursor(old(self).editor.lines(), old(self).editor.cursor().1 as int),
            final(self).editor.selection_active() == old(self).editor.selection_active(),
            final(self).editor.anchor() == old(self).editor.anchor(),
            final(self).same_settings(old(self)),
            final(self).drawn() == old(self).drawn(),
    {
        let ghost rows = self.editor.lines();
        let pos = self.editor.cursor_pos();
        let ghost y = pos.1 as int;
        self.go_to_line_end();
        proof {
            old(self).editor.lemma_bounds();
            assert(rows[y].take(rows[y].len() as int) =~= rows[y]);
            assert(rows.update(y, rows[y]) =~= rows);
        }
        let mut going = true;
        while going
            invariant
                self.wf(),
                self.same_settings(old(self)),
                self.drawn() == old(self).drawn(),
                self.editor.selection_active() == old(self).editor.selection_active(),
                self.editor.anchor() == old(self).editor.anchor(),
                rows == old(self).editor.lines(),
                0 <= y < rows.len(),
                going ==> self.editor.cursor().0 <= rows[y].len(),
                going ==> self.editor.cursor().1 == y && self.editor.lines() == rows.update(
                    y,
                    rows[y].take(self.editor.cursor().0 as int),
                ),
                !going && y > 0 ==> self.editor.lines() == rows.remove(y) && self.editor.cursor()
                    == Vector2(rows[y - 1].len() as i32, (y - 1) as i32),
                !going && y == 0 ==> self.editor.lines() == rows.update(0, Seq::empty())
                    && self.editor.cursor() == Vector2(0i32, 0i32),
            decreases self.editor.text().len() + (if going { 1int } else { 0int }),
        {
            let ghost before = self.editor.lines();
            let ghost k = self.editor.cursor().0 as int;
            proof {
                crate::text::lemma_join_total(before);
            }
            match self.editor.delete() {
                Some(c) => {
                    proof {
                        lemma_text_shrinks(before, self.editor.lines(), k, y);
                    }
                    if c.char == '\n' {
                        going = false;
                        proof {
                            assert(before[y - 1] + before[y] =~= rows[y - 1]);
                            assert(self.editor.lines() =~= rows.remove(y));
                        }
                    } else {
                        assert(rows[y].take(k).remove(k - 1) =~= rows[y].take(k - 1));
                        assert(self.editor.lines() =~= rows.update(y, rows[y].take(k - 1)));
                    }
                },
                None => {
                    going = false;
                    assert(rows[y].take(0) =~= Seq::<char>::empty());
                },
            }
        }
        self.go_to_line_home();
        self.editor.move_cursor(Vector2(0, 1));
        if pos.1 == 0 {
            self.editor.delete();
            proof {
                if rows.len() > 1 {
                    assert(Seq::<char>::empty() + rows[1] =~= rows[1]);
                    assert(rows.update(0, Seq::empty()).take(0) + seq![rows[1]] + rows.skip(2) =~= rows.remove(0));
                } else {
                    assert(rows.update(0, Seq::empty()) =~= seq![Seq::<char>::empty()]);
                }
            }
        }
    }


    /// Handles a key in insert mode: arrows move the cursor; a character is
    /// written and its row redrawn alone; Escape switches to command mode;
    /// Backspace deletes, redrawing the row alone unless rows were joined;
    /// Enter splits the row and redraws everything.
    pub fn process_insert_mode(&mut self, event: KeyEvent)
        requires
            old(self).wf(),
            old(self).edit_mode == EditMode::Insert,
        ensures
            final(self).wf(),
            insert_post(*old(self), *final(self), event),
            final(self).exit == old(self).exit,
    {
        reveal(insert_post);
        match event {
            KeyEvent::Down => self.move_cursor(0, 1),
            KeyEvent::Up => self.move_cursor(0, -1),
            KeyEvent::Right => self.move_cursor(1, 0),
            KeyEvent::Left => self.move_cursor(-1, 0),
            KeyEvent::Char(x) => {
                let v: Vec<char> = vec!['[', x, ']'];
                self.log = chars_to_string(&v);
                if self.editor.has_room() {
                    self.editor.write(x);
                }
                self.render_break_line_hint = true;
                self.render_line_hint = Some(self.editor.cursor_pos().1);
                self.render();
            },
            KeyEvent::Esc => {
                self.edit_mode = EditMode::Command;
                self.render();
            },
            KeyEvent::Backspace => {
                if let Some(c) = self.editor.delete() {
                    if c.char != '\n' {
                        self.render_line_hint = Some(self.editor.cursor_pos().1);
                    }
                }
                self.render();
            },
            KeyEvent::Enter => {
                if self.editor.has_room() {
                    self.editor.write('\n');
                }
                self.render();
            },
            _ => {},
        }
    }


    /// A buffer holding `text`, with the cursor at the end of its first row;
    /// an empty one where `text` is too long for a buffer.
    fn prefilled(text: &String) -> (r: Editor)
        ensures
            r.wf(),
            text@.len() < i32::MAX ==> r.lines() == crate::text::split_lines(text@),
            text@.len() >= i32::MAX ==> r.lines() == seq![Seq::<char>::empty()],
            r.cursor() == Vector2(r.lines()[0].len() as i32, 0i32),
    {
        let mut e = if text.as_str().unicode_len() < i32::MAX as usize {
            Editor::from(text.as_str())
        } else {
            Editor::new()
        };
        e.move_cursor_to(Position::LineEnd);
        e
    }

    /// Handles a key while a prompt is open: characters, Backspace, Left and
    /// Right edit the prompt's text; Up recalls the last search into a search
    /// prompt; Escape closes the prompt; Enter closes it and runs its action:
    /// saving to the path typed, or searching for the text typed.
    pub fn process_prompt_mode(&mut self, event: KeyEvent, action: Option<Action>, edit_mode: EditMode)
        requires
            old(self).wf(),
            !is_prompt(edit_mode),
        ensures
            final(self).wf(),
            prompt_post(*old(self), *final(self), event, action, edit_mode),
            final(self).exit == old(self).exit,
    {
        reveal(prompt_post);
        let ghost start = self.drawn();
        match event {
            KeyEvent::Char(x) => {
                if self.prompt_buffer.has_room() {
                    self.prompt_buffer.write(x);
                }
                self.render_status_bar();
                self.update_cursor_pos();
            },
            KeyEvent::Backspace => {
                self.prompt_buffer.delete();
                self.render_status_bar();
                self.update_cursor_pos();
            },
            KeyEvent::Esc => {
                self.prompt_buffer = Editor::new();
                self.edit_mode = edit_mode;
                self.render_status_bar();
                self.update_cursor_pos();
            },
            KeyEvent::Left => {
                self.prompt_buffer.move_cursor(Vector2(-1, 0));
                self.render_status_bar();
                self.update_cursor_pos();
            },
            KeyEvent::Right => {
                self.prompt_buffer.move_cursor(Vector2(1, 0));
                self.render_status_bar();
                self.update_cursor_pos();
            },
            KeyEvent::Up => {
                if let Some(Action::Search(_)) = action {
                    self.prompt_buffer = Application::prefilled(&self.last_search);
                    self.render();
                }
            },
            KeyEvent::Enter => {
                match action {
                    Some(Action::SaveFileAs) => {
                        let text = self.prompt_buffer.to_string();
                        self.filepath = text.clone();
                        let mut l = String::from_str("saved to file: ");
                        l.append(text.as_str());
                        self.log = l;
                        self.save_to_file(&text);
                        let ghost saved = self.drawn();
                        self.prompt_buffer = Editor::new();
                        self.edit_mode = edit_mode;
                        self.render_status_bar();
                        self.update_cursor_pos();
                        assert(self.drawn().take(saved.len() as int) =~= saved);
                        return;
                    },
                    Some(Action::Search(reverse)) => {
                        let text = self.prompt_buffer.to_string();
                        self.search_next(text, reverse);
                    },
                    None => {},
                }
                self.prompt_buffer = Editor::new();
                self.edit_mode = edit_mode;
                self.render_status_bar();
                self.update_cursor_pos();
            },
            _ => {},
        }
    }


    /// Queues the selected text for the clipboard, where there is a selection.
    fn copy_selection(&mut self)
        requires
            old(self).wf(),
        ensures
            final(self).wf(),
            old(self).editor.selection_active() ==> final(self).drawn() == old(self).drawn().push(
                Draw::Copy(old(self).editor.selected_text()),
            ),
            !old(self).editor.selection_active() ==> final(self).drawn() == old(self).drawn(),
            final(self).same_content(old(self)),
    {
        if let Some(cells) = self.editor.copy() {
            let mut chars: Vec<char> = Vec::new();
            let mut i: usize = 0;
            while i < cells.len()
                invariant
                    0 <= i <= cells@.len(),
                    chars@ == crate::editor::cells_text(cells@).take(i as int),
                decreases cells@.len() - i,
            {
                chars.push(cells[i].char);
                i = i + 1;
                assert(chars@ =~= crate::editor::cells_text(cells@).take(i as int));
            }
            assert(chars@ =~= crate::editor::cells_text(cells@));
            let text = chars_to_string(&chars);
            self.push(Output::Copy(text));
        }
    }

    /// Handles a key in command mode: motions, view panning and zooming,
    /// selection, deletion, copying, searches, and switching to insert mode.
    #[verifier::rlimit(100)]
    pub fn process_command_mode(&mut self, event: KeyEvent)
        requires
            old(self).wf(),
            old(self).edit_mode == EditMode::Command,
        ensures
            final(self).wf(),
            command_post(*old(self), *final(self), event),
            final(self).exit == old(self).exit,
    {
        reveal(command_post);
        let ghost start = self.drawn();
        match event {
            KeyEvent::Char('i') => {
                self.edit_mode = EditMode::Insert;
                self.render();
            },
            KeyEvent::Char('o') => {
                self.go_to_line_end();
                if self.editor.has_room() {
                    self.editor.write('\n');
                }
                self.edit_mode = EditMode::Insert;
                self.render();
            },
            KeyEvent::Char('O') => {
                self.move_cursor(0, -1);
                self.go_to_line_end();
                if self.editor.has_room() {
                    self.editor.write('\n');
                }
                self.edit_mode = EditMode::Insert;
                self.render();
            },
            KeyEvent::Char('J') => self.move_view(0, 5),
            KeyEvent::Char('K') => self.move_view(0, -5),
            KeyEvent::Char('H') => self.move_view(-5, 0),
            KeyEvent::Char('L') => self.move_view(5, 0),
            KeyEvent::Char('v') => self.editor.begin_select(),
            KeyEvent::Char('d') => {
                self.editor.delete();
                self.render();
            },
            KeyEvent::Char('c') => {
                self.copy_selection();
                let ghost copied = self.drawn();
                proof {
                    self.lemma_render_screen_only();
                }
                let ghost added = self.render_draw();
                self.render();
                proof {
                    assert(self.drawn().take(copied.len() as int) =~= copied);
                    assert(self.drawn().skip(copied.len() as int) =~= added);
                }
            },
            KeyEvent::Esc => {
                self.editor.clear_selection();
                self.render();
            },
            KeyEvent::Char('/') => {
                self.log = String::from_str("search: ");
                self.edit_mode = EditMode::Prompt(Box::new(EditMode::Command), Some(Action::Search(false)));
                self.render();
            },
            KeyEvent::Char('?') => {
                self.log = String::from_str("search: ");
                self.edit_mode = EditMode::Prompt(Box::new(EditMode::Command), Some(Action::Search(true)));
                self.render();
            },
            KeyEvent::Char('n') => {
                self.log = String::from_str("repeating last search");
                let text = self.last_search.clone();
                self.search_next(text, false);
                self.render();
            },
            KeyEvent::Char('N') => {
                self.log = String::from_str("repeating last search");
                let text = self.last_search.clone();
                self.search_next(text, true);
                self.render();
            },
            KeyEvent::Char('j') | KeyEvent::Down => self.move_cursor(0, 1),
            KeyEvent::Char('k') | KeyEvent::Up => self.move_cursor(0, -1),
            KeyEvent::Char('h') | KeyEvent::Left => self.move_cursor(-1, 0),
            KeyEvent::Char('l') | KeyEvent::Right => self.move_cursor(1, 0),
            KeyEvent::Char('w') => self.next_word(true),
            KeyEvent::Char('b') => self.next_word(false),
            KeyEvent::Char('$') => {
                self.go_to_line_end();
                self.update_cursor_pos();
            },
            KeyEvent::Char('0') => {
                self.go_to_line_home();
                self.update_cursor_pos();
            },
            KeyEvent::Char('_') => {
                let s = self.render_opts.scale;
                let s2 = if s < u32::MAX { s + 1 } else { s };
                self.render_opts.set_scale(s2);
                self.render();
            },
            KeyEvent::Char('+') => {
                let s = self.render_opts.scale;
                if s <= 1 {
                    self.render_opts.scale = 0;
                } else {
                    self.render_opts.set_scale(s - 1);
                }
                self.render();
            },
            KeyEvent::Char('=') => {
                self.render_opts.set_scale(SCALE_ONE);
                self.log = String::from_str("reset render scale to 1");
                self.render();
            },
            _ => {},
        }
    }


    /// Handles a key: the bindings of every mode first (panning, help,
    /// redraw, quit, line deletion, jumping to the view's middle row, paste,
    /// centering, save, save-as, row start and end), then those of the mode.
    #[verifier::rlimit(100)]
    pub fn process_key_event(&mut self, event: KeyEvent)
        requires
            old(self).wf(),
        ensures
            final(self).wf(),
            key_post(*old(self), *final(self), event),
    {
        reveal(key_post);
        match event {
            KeyEvent::CtrlDown => self.move_view(0, 1),
            KeyEvent::CtrlUp => self.move_view(0, -1),
            KeyEvent::CtrlRight => self.move_view(1, 0),
            KeyEvent::CtrlLeft => self.move_view(-1, 0),
            KeyEvent::F(1) => self.push(Output::Help),
            KeyEvent::F(5) => self.render(),
            KeyEvent::Ctrl('c') => {
                self.exit = true;
            },
            KeyEvent::Ctrl('d') => {
                self.delete_line();
                self.render();
            },
            KeyEvent::Ctrl('a') => {
                let top = round_to_cell(self.render_opts.view.y());
                let h = self.render_opts.view.height as i64;
                let half = if h >= 0 { h / 2 } else { -((-h) / 2) };
                self.set_cursor(0, clamp_i32(top + half));
            },
            KeyEvent::Ctrl('v') => self.push(Output::Paste),
            KeyEvent::Ctrl('l') => {
                let c = self.editor.cursor_pos();
                self.center_renderer(c);
                self.render();
            },
            KeyEvent::Ctrl('s') => {
                let path = self.filepath.clone();
                self.save_to_file(&path);
                let ghost saved = self.drawn();
                let mut l = String::from_str("saved to ");
                l.append(path.as_str());
                self.log = l;
                self.render();
                assert(self.drawn().take(saved.len() as int) =~= saved);
            },
            KeyEvent::Ctrl('x') => {
                if !matches!(self.edit_mode, EditMode::Prompt(_, _)) {
                    let back = self.edit_mode.duplicate();
                    self.edit_mode = EditMode::Prompt(Box::new(back), Some(Action::SaveFileAs));
                    self.log = String::from_str("save as: ");
                    self.prompt_buffer = Application::prefilled(&self.filepath);
                    self.render();
                }
            },
            KeyEvent::Home => {
                self.go_to_line_home();
                self.update_cursor_pos();
            },
            KeyEvent::End => {
                self.go_to_line_end();
                self.update_cursor_pos();
            },
            _ => {
                match &self.edit_mode {
                    EditMode::Insert => self.process_insert_mode(event),
                    EditMode::Command => self.process_command_mode(event),
                    EditMode::Prompt(mode, action) => {
                        let back = (**mode).duplicate();
                        let a = *action;
                        self.process_prompt_mode(event, a, back);
                    },
                }
            },
        }
    }

    /// Handles a mouse event: a press puts the cursor on the buffer cell
    /// under the pressed screen cell.
    pub fn process_mouse_event(&mut self, event: MouseEvent)
        requires
            old(self).wf(),
        ensures
            final(self).wf(),
            mouse_post(*old(self), *final(self), event),
    {
        reveal(mouse_post);
        self.log = String::from_str("Processing mouse event");
        match event {
            MouseEvent::Press(x, y) => {
                let ex = x as i64 + round_to_cell(self.render_opts.view.x());
                let ey = y as i64 + round_to_cell(self.render_opts.view.y());
                let mut l = String::from_str("mouse: set cursor location to ");
                l.append(int_text(ex).as_str());
                l.append(":");
                l.append(int_text(ey).as_str());
                self.log = l;
                self.editor.set_cursor(Vector2(clamp_i32(ex), clamp_i32(ey)));
                self.render();
            },
            MouseEvent::Other => {
                self.log = String::from_str("unknown mouse event");
            },
        }
    }

    /// Handles an input event.
    pub fn process_event(&mut self, event: InputEvent)
        requires
            old(self).wf(),
        ensures
            final(self).wf(),
            match event {
                InputEvent::Keyboard(k) => key_post(*old(self), *final(self), k),
                InputEvent::Mouse(m) => mouse_post(*old(self), *final(self), m),
                InputEvent::Other => final(self).editor == old(self).editor && final(self).exit
                    == old(self).exit && final(self).edit_mode == old(self).edit_mode
                    && final(self).drawn() == old(self).drawn(),
            },
    {
        match event {
            InputEvent::Keyboard(k) => self.process_key_event(k),
            InputEvent::Mouse(m) => self.process_mouse_event(m),
            InputEvent::Other => {},
        }
    }


    /// Records a failed paste: the error's text goes to the log.
    pub fn paste_failed(&mut self, error: String)
        requires
            old(self).wf(),
        ensures
            final(self).wf(),
            final(self).log@ == "error pasting: "@ + error@,
            final(self).editor == old(self).editor,
            final(self).edit_mode == old(self).edit_mode,
            final(self).filepath@ == old(self).filepath@,
    {
        let mut l = String::from_str("error pasting: ");
        l.append(error.as_str());
        self.log = l;
        self.render_status_bar();
        self.update_cursor_pos();
    }

    /// Records how writing a file went: `None` on success, which keeps the
    /// log, else the error's text.
    pub fn save_done(&mut self, error: Option<String>)
        requires
            old(self).wf(),
        ensures
            final(self).wf(),
            final(self).log@ == (match error {
                None => old(self).log@,
                Some(e) => "error saving: "@ + e@,
            }),
            final(self).editor == old(self).editor,
            final(self).edit_mode == old(self).edit_mode,
            final(self).filepath@ == old(self).filepath@,
    {
        if let Some(e) = error {
            let mut l = String::from_str("error saving: ");
            l.append(e.as_str());
            self.log = l;
            self.render_status_bar();
            self.update_cursor_pos();
        }
    }

}

} // verus!
