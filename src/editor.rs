//! The text buffer: rows of characters with a cursor and a selection.

use vstd::prelude::*;

use crate::text::{
    join, lemma_join_total, lemma_rows_bounded, lemma_split_join, lemma_split_len, lemma_total_three,
    find_back, find_fwd, is_space, lemma_offset_bound, lemma_pos_of, lemma_line_start_mono,
    after_rows, before_rows, lemma_insert_middle, lemma_join_pair, lemma_join_three,
    lemma_remove_middle, lemma_line_start_before, lemma_line_start_prefix,
    lemma_next_then_prev_word, lemma_search_back_after_fwd, lemma_word_bounds, next_word_at, no_separator, occurs, offset_of, pos_of, prev_word_at,
    skip_space_back, skip_space_fwd, skip_word_back, skip_word_fwd, split_lines, valid_pos,
};
use crate::vector::Vector2;

verus! {

/// One stored character.
#[derive(Clone, Copy, Debug, PartialEq, Eq, Structural)]
pub struct Cell {
    pub char: char,
}

impl Cell {
    /// The cell holding `c`.
    pub fn of(c: char) -> (r: Cell)
        ensures
            r.char == c,
    {
        Cell { char: c }
    }
}

/// Targets of `move_cursor_to`.
#[derive(Clone, Copy, Debug, PartialEq, Eq, Structural)]
pub enum Position {
    LineBeginning,
    LineEnd,
    NextWord,
    PreviousWord,
}

/// A document of rows with a cursor and an optional selection anchor.
pub struct Editor {
    rows: Vec<Vec<char>>,
    cursor: Vector2<i32>,
    selecting: bool,
    anchor: Vector2<i32>,
    size: usize,
}

/// The characters of `s`, in order.
pub fn chars_of(s: &str) -> (r: Vec<char>)
    ensures
        r@ == s@,
{
    let mut out: Vec<char> = Vec::new();
    for c in it: s.chars()
        invariant
            it.seq() == s@,
            out@ == it.seq().take(it.index() as int),
    {
        out.push(c);
        assert(out@ =~= it.seq().take(it.index() + 1));
    }
    assert(out@ =~= s@);
    out
}

/// Relies on `String::push`: appends `c` to the string.
#[verifier::external_body]
fn push_char(s: &mut String, c: char)
    ensures
        final(s)@ == old(s)@.push(c),
{
    s.push(c)
}

/// A string of the given characters, in order.
pub fn chars_to_string(v: &Vec<char>) -> (r: String)
    ensures
        r@ == v@,
{
    let mut out = String::new();
    let mut i: usize = 0;
    while i < v.len()
        invariant
            0 <= i <= v@.len(),
            out@ == v@.take(i as int),
        decreases v@.len() - i,
    {
        push_char(&mut out, v[i]);
        i = i + 1;
        assert(out@ =~= v@.take(i as int));
    }
    assert(out@ =~= v@);
    out
}

/// A document the buffer can hold: at least one row, no separator inside a
/// row, and a length that fits an `i32`.
pub open spec fn doc_wf(rows: Seq<Seq<char>>) -> bool {
    &&& 1 <= rows.len()
    &&& join(rows).len() < i32::MAX
    &&& forall|i: int| 0 <= i < rows.len() ==> no_separator(#[trigger] rows[i])
}

pub open spec fn clamp_int(v: int, lo: int, hi: int) -> int {
    if v < lo {
        lo
    } else if v > hi {
        hi
    } else {
        v
    }
}

/// The cursor position nearest to (`x`, `y`): the row is clamped to the
/// document, then the column to that row.
pub open spec fn clamp_pos(rows: Seq<Seq<char>>, x: int, y: int) -> Vector2<i32> {
    let cy = clamp_int(y, 0, rows.len() - 1);
    let cx = clamp_int(x, 0, rows[cy].len() as int);
    Vector2(cx as i32, cy as i32)
}

/// The position of offset `o` of the joined text, as a coordinate pair.
pub open spec fn pos_vec(rows: Seq<Seq<char>>, o: int) -> Vector2<i32> {
    Vector2(pos_of(rows, o).0 as i32, pos_of(rows, o).1 as i32)
}

pub open spec fn offset_at(rows: Seq<Seq<char>>, p: Vector2<i32>) -> int {
    offset_of(rows, p.0 as int, p.1 as int)
}

/// The rows after writing `c` at (`x`, `y`): a separator splits the row there,
/// any other character is inserted into it.
pub open spec fn write_rows(rows: Seq<Seq<char>>, x: int, y: int, c: char) -> Seq<Seq<char>> {
    if c == '\n' {
        rows.take(y) + seq![rows[y].take(x), rows[y].skip(x)] + rows.skip(y + 1)
    } else {
        rows.update(y, rows[y].insert(x, c))
    }
}

/// The cursor after writing `c` at (`x`, `y`).
pub open spec fn write_cursor(x: int, y: int, c: char) -> Vector2<i32> {
    if c == '\n' {
        Vector2(0i32, (y + 1) as i32)
    } else {
        Vector2((x + 1) as i32, y as i32)
    }
}

/// Whether the document has room for one more character.
pub open spec fn has_room_for_one(rows: Seq<Seq<char>>) -> bool {
    join(rows).len() + 1 < i32::MAX
}

/// The rows after a backspace at (`x`, `y`): the character before the cursor
/// goes; at a row's start the row joins the one above; at the document's
/// start nothing changes.
pub open spec fn delete_rows(rows: Seq<Seq<char>>, x: int, y: int) -> Seq<Seq<char>> {
    if x > 0 {
        rows.update(y, rows[y].remove(x - 1))
    } else if y > 0 {
        rows.take(y - 1) + seq![rows[y - 1] + rows[y]] + rows.skip(y + 1)
    } else {
        rows
    }
}

/// The cursor after a backspace at (`x`, `y`).
pub open spec fn delete_cursor(rows: Seq<Seq<char>>, x: int, y: int) -> Vector2<i32> {
    if x > 0 {
        Vector2((x - 1) as i32, y as i32)
    } else if y > 0 {
        Vector2(rows[y - 1].len() as i32, (y - 1) as i32)
    } else {
        Vector2(x as i32, y as i32)
    }
}

/// The character a backspace at (`x`, `y`) removes.
pub open spec fn deleted_char(rows: Seq<Seq<char>>, x: int, y: int) -> Option<char> {
    if x > 0 {
        Some(rows[y][x - 1])
    } else if y > 0 {
        Some('\n')
    } else {
        None
    }
}

/// Where `move_cursor_to(m)` puts a cursor at `c`.
pub open spec fn marker_target(rows: Seq<Seq<char>>, c: Vector2<i32>, m: Position) -> Vector2<i32> {
    match m {
        Position::LineBeginning => Vector2(0i32, c.1),
        Position::LineEnd => Vector2(rows[c.1 as int].len() as i32, c.1),
        Position::NextWord => pos_vec(rows, next_word_at(join(rows), offset_at(rows, c))),
        Position::PreviousWord => pos_vec(rows, prev_word_at(join(rows), offset_at(rows, c))),
    }
}

/// The offset a search for `s` from offset `o` stops at: the first occurrence
/// after `o`, or with `reverse` the last one before it.
pub open spec fn search_offset(t: Seq<char>, s: Seq<char>, o: int, reverse: bool) -> Option<int> {
    if reverse {
        find_back(t, s, o - 1)
    } else {
        find_fwd(t, s, o + 1)
    }
}

/// What `search(s, start, reverse)` returns on a document of `rows`.
pub open spec fn search_result(
    rows: Seq<Seq<char>>,
    s: Seq<char>,
    start: Vector2<i32>,
    reverse: bool,
) -> Option<Vector2<i32>> {
    match search_offset(
        join(rows),
        s,
        offset_at(rows, clamp_pos(rows, start.0 as int, start.1 as int)),
        reverse,
    ) {
        Some(i) => Some(pos_vec(rows, i)),
        None => None,
    }
}

pub open spec fn cells_text(v: Seq<Cell>) -> Seq<char> {
    v.map_values(|c: Cell| c.char)
}

impl Editor {
    /// The document's rows.
    pub closed spec fn lines(&self) -> Seq<Seq<char>> {
        self.rows@.map_values(|r: Vec<char>| r@)
    }

    /// The stored length of the flat text.
    pub closed spec fn size(&self) -> usize {
        self.size
    }

    pub closed spec fn cursor(&self) -> Vector2<i32> {
        self.cursor
    }

    /// Whether a selection is active; it runs from the anchor to the cursor.
    pub closed spec fn selection_active(&self) -> bool {
        self.selecting
    }

    /// Where the selection started.
    pub closed spec fn anchor(&self) -> Vector2<i32> {
        self.anchor
    }

    /// The document as flat text.
    pub open spec fn text(&self) -> Seq<char> {
        join(self.lines())
    }

    pub open spec fn wf(&self) -> bool {
        &&& doc_wf(self.lines())
        &&& valid_pos(self.lines(), self.cursor().0 as int, self.cursor().1 as int)
        &&& self.size() == self.text().len()
    }

    /// Row count and row lengths fit an `i32`.
    pub proof fn lemma_bounds(&self)
        requires
            self.wf(),
        ensures
            self.lines().len() <= i32::MAX,
            forall|y: int| 0 <= y < self.lines().len() ==> (#[trigger] self.lines()[y]).len() < i32::MAX,
    {
        lemma_rows_bounded(self.lines(), 0);
        assert forall|y: int| 0 <= y < self.lines().len() implies (#[trigger] self.lines()[y]).len() < i32::MAX by {
            lemma_rows_bounded(self.lines(), y);
        }
    }

    /// An empty document with the cursor at its start.
    pub fn new() -> (r: Editor)
        ensures
            r.wf(),
            r.lines() == seq![Seq::<char>::empty()],
            r.cursor() == Vector2(0i32, 0i32),
            !r.selection_active(),
    {
        let mut rows: Vec<Vec<char>> = Vec::new();
        rows.push(Vec::new());
        let r = Editor { rows, cursor: Vector2(0, 0), selecting: false, anchor: Vector2(0, 0), size: 0 };
        assert(r.lines() =~= seq![Seq::<char>::empty()]);
        r
    }

    /// A document holding `text`, cut into rows at each `'\n'`, with the
    /// cursor at its start.
    pub fn from(text: &str) -> (r: Editor)
        requires
            text@.len() < i32::MAX,
        ensures
            r.wf(),
            r.lines() == split_lines(text@),
            r.text() == text@,
            r.cursor() == Vector2(0i32, 0i32),
            !r.selection_active(),
    {
        let t = chars_of(text);
        let mut rows: Vec<Vec<char>> = Vec::new();
        let mut cur: Vec<char> = Vec::new();
        let mut i: usize = 0;
        while i < t.len()
            invariant
                0 <= i <= t@.len(),
                t@.len() < i32::MAX,
                rows@.map_values(|r: Vec<char>| r@).push(cur@) == split_lines(t@.take(i as int)),
                rows@.len() <= i,
                cur@.len() <= i,
            decreases t@.len() - i,
        {
            let c = t[i];
            let ghost before = rows@.map_values(|r: Vec<char>| r@).push(cur@);
            assert(t@.take(i + 1).drop_last() =~= t@.take(i as int));
            if c == '\n' {
                rows.push(cur);
                cur = Vec::new();
                assert(rows@.map_values(|r: Vec<char>| r@).push(cur@) =~= before.push(
                    Seq::empty(),
                ));
            } else {
                cur.push(c);
                assert(rows@.map_values(|r: Vec<char>| r@).push(cur@) =~= before.update(
                    before.len() - 1,
                    before.last().push(c),
                ));
            }
            i = i + 1;
        }
        rows.push(cur);
        assert(t@.take(i as int) =~= t@);
        proof {
            lemma_split_join(t@);
            lemma_split_len(t@);
        }
        let r = Editor { rows, cursor: Vector2(0, 0), selecting: false, anchor: Vector2(0, 0), size: t.len() };
        assert(r.lines() =~= split_lines(text@));
        r
    }

    /// The document as flat text.
    fn text_chars(&self) -> (r: Vec<char>)
        requires
            self.wf(),
        ensures
            r@ == self.text(),
    {
        let ghost rows = self.lines();
        let mut r: Vec<char> = Vec::new();
        let mut i: usize = 0;
        while i < self.rows.len()
            invariant
                rows == self.lines(),
                doc_wf(rows),
                0 <= i <= rows.len(),
                r@ == join(rows.take(i as int)),
            decreases rows.len() - i,
        {
            let ghost prev = r@;
            if i > 0 {
                r.push('\n');
            }
            let row = &self.rows[i];
            assert(row@ == rows[i as int]);
            let mut j: usize = 0;
            while j < row.len()
                invariant
                    0 <= j <= row@.len(),
                    r@ == (if i > 0 { prev + seq!['\n'] } else { prev }) + row@.take(j as int),
                decreases row@.len() - j,
            {
                r.push(row[j]);
                j = j + 1;
                assert(r@ =~= (if i > 0 { prev + seq!['\n'] } else { prev }) + row@.take(j as int));
            }
            assert(row@.take(j as int) =~= row@);
            assert(rows.take(i + 1).drop_last() =~= rows.take(i as int));
            if i == 0 {
                assert(rows.take(1) =~= seq![rows[0]]);
                assert(r@ =~= join(rows.take(1)));
            } else {
                assert(r@ =~= join(rows.take(i + 1)));
            }
            i = i + 1;
        }
        assert(rows.take(i as int) =~= rows);
        r
    }

    /// The document as flat text, rows joined by `'\n'`.
    pub fn to_string(&self) -> (r: String)
        requires
            self.wf(),
        ensures
            r@ == self.text(),
    {
        let t = self.text_chars();
        chars_to_string(&t)
    }

    pub fn cursor_pos(&self) -> (r: Vector2<i32>)
        ensures
            r == self.cursor(),
    {
        self.cursor
    }

    /// Whether a selection is active.
    pub fn selecting(&self) -> (r: bool)
        ensures
            r == self.selection_active(),
    {
        self.selecting
    }

    /// Number of rows.
    pub fn line_count(&self) -> (r: usize)
        ensures
            r == self.lines().len(),
    {
        self.rows.len()
    }

    /// Length of the cursor's row, without the separator.
    pub fn line_len(&self) -> (r: i32)
        requires
            self.wf(),
        ensures
            r == self.lines()[self.cursor().1 as int].len(),
    {
        let y = self.cursor.1 as usize;
        assert(self.rows@[y as int]@ == self.lines()[y as int]);
        proof {
            self.lemma_bounds();
        }
        self.rows[y].len() as i32
    }

    /// The character at column `pos.0` of row `pos.1`, if there is one.
    pub fn get_cell(&self, pos: Vector2<i32>) -> (r: Option<Cell>)
        requires
            self.wf(),
        ensures
            r == (if 0 <= pos.1 < self.lines().len() && 0 <= pos.0 < self.lines()[pos.1 as int].len() {
                Some(Cell { char: self.lines()[pos.1 as int][pos.0 as int] })
            } else {
                None
            }),
    {
        if pos.1 < 0 || pos.0 < 0 || pos.1 as usize >= self.rows.len() {
            return None;
        }
        let y = pos.1 as usize;
        let x = pos.0 as usize;
        assert(self.rows@[y as int]@ == self.lines()[y as int]);
        if x < self.rows[y].len() {
            Some(Cell { char: self.rows[y][x] })
        } else {
            None
        }
    }

    /// The cursor position nearest to (`x`, `y`).
    fn clamped(&self, x: i64, y: i64) -> (r: Vector2<i32>)
        requires
            self.wf(),
        ensures
            r == clamp_pos(self.lines(), x as int, y as int),
            valid_pos(self.lines(), r.0 as int, r.1 as int),
    {
        proof {
            self.lemma_bounds();
        }
        let n = self.rows.len() as i64;
        let cy: i64 = if y < 0 {
            0
        } else if y > n - 1 {
            n - 1
        } else {
            y
        };
        assert(self.rows@[cy as int]@ == self.lines()[cy as int]);
        let len = self.rows[cy as usize].len() as i64;
        let cx: i64 = if x < 0 {
            0
        } else if x > len {
            len
        } else {
            x
        };
        Vector2(cx as i32, cy as i32)
    }

    /// Moves the cursor to `pos`, clamped to the document.
    pub fn set_cursor(&mut self, pos: Vector2<i32>)
        requires
            old(self).wf(),
        ensures
            final(self).wf(),
            final(self).cursor() == clamp_pos(old(self).lines(), pos.0 as int, pos.1 as int),
            final(self).lines() == old(self).lines(),
            final(self).selection_active() == old(self).selection_active(),
            final(self).anchor() == old(self).anchor(),
    {
        self.cursor = self.clamped(pos.0 as i64, pos.1 as i64);
    }

    /// Shifts the cursor by `d`, clamped to the document: past a row's end it
    /// stops at the end, past the last row at the last row.
    pub fn move_cursor(&mut self, d: Vector2<i32>)
        requires
            old(self).wf(),
        ensures
            final(self).wf(),
            final(self).cursor() == clamp_pos(
                old(self).lines(),
                old(self).cursor().0 + d.0,
                old(self).cursor().1 + d.1,
            ),
            final(self).lines() == old(self).lines(),
            final(self).selection_active() == old(self).selection_active(),
            final(self).anchor() == old(self).anchor(),
    {
        let x = self.cursor.0 as i64 + d.0 as i64;
        let y = self.cursor.1 as i64 + d.1 as i64;
        self.cursor = self.clamped(x, y);
    }

    /// Starts a selection anchored at the cursor.
    pub fn begin_select(&mut self)
        requires
            old(self).wf(),
        ensures
            final(self).wf(),
            final(self).selection_active(),
            final(self).anchor() == old(self).cursor(),
            final(self).cursor() == old(self).cursor(),
            final(self).lines() == old(self).lines(),
    {
        self.selecting = true;
        self.anchor = self.cursor;
    }

    /// Ends the selection.
    pub fn clear_selection(&mut self)
        requires
            old(self).wf(),
        ensures
            final(self).wf(),
            !final(self).selection_active(),
            final(self).anchor() == old(self).anchor(),
            final(self).cursor() == old(self).cursor(),
            final(self).lines() == old(self).lines(),
    {
        self.selecting = false;
    }


    /// Whether a `write` fits the document's size limit.
    pub fn has_room(&self) -> (r: bool)
        requires
            self.wf(),
        ensures
            r == has_room_for_one(self.lines()),
    {
        self.size + 1 < i32::MAX as usize
    }

    /// Inserts `c` at the cursor. A `'\n'` splits the row at the cursor and
    /// puts the cursor at the start of the new row; any other character is
    /// inserted and the cursor moves past it.
    pub fn write(&mut self, c: char)
        requires
            old(self).wf(),
            has_room_for_one(old(self).lines()),
        ensures
            final(self).wf(),
            final(self).lines() == write_rows(
                old(self).lines(),
                old(self).cursor().0 as int,
                old(self).cursor().1 as int,
                c,
            ),
            final(self).cursor() == write_cursor(
                old(self).cursor().0 as int,
                old(self).cursor().1 as int,
                c,
            ),
            final(self).text() == old(self).text().insert(offset_at(old(self).lines(), old(self).cursor()), c),
            offset_at(final(self).lines(), final(self).cursor()) == offset_at(old(self).lines(), old(self).cursor()) + 1,
            final(self).selection_active() == old(self).selection_active(),
            final(self).anchor() == old(self).anchor(),
    {
        proof {
            lemma_write_text(self.lines(), self.cursor.0 as int, self.cursor.1 as int, c);
        }
        let ghost rows = self.lines();
        proof {
            self.lemma_bounds();
        }
        let x = self.cursor.0 as usize;
        let y = self.cursor.1 as usize;
        let mut row = self.rows.remove(y);
        assert(row@ == rows[y as int]);
        if c == '\n' {
            let tail = row.split_off(x);
            self.rows.insert(y, row);
            self.rows.insert(y + 1, tail);
            self.cursor = Vector2(0, (y + 1) as i32);
            self.size = self.size + 1;
            let ghost nr = write_rows(rows, x as int, y as int, c);
            assert(self.lines() =~= nr);
            proof {
                lemma_total_three(rows.take(y as int), seq![rows[y as int]], rows.skip(y + 1));
                lemma_total_three(rows.take(y as int), seq![rows[y as int].take(x as int), rows[y as int].skip(x as int)], rows.skip(y + 1));
                assert(rows =~= rows.take(y as int) + seq![rows[y as int]] + rows.skip(y + 1));
                lemma_join_total(rows);
                lemma_join_total(nr);
            }
            assert forall|i: int| 0 <= i < nr.len() implies no_separator(#[trigger] nr[i]) by {
                if i < y {
                    assert(nr[i] == rows[i]);
                } else if i > y + 1 {
                    assert(nr[i] == rows[i - 1]);
                } else if i == y {
                    assert(forall|j: int| 0 <= j < nr[i].len() ==> nr[i][j] == rows[y as int][j]);
                } else {
                    assert(forall|j: int| 0 <= j < nr[i].len() ==> nr[i][j] == rows[y as int][j + x]);
                }
            }
        } else {
            row.insert(x, c);
            self.rows.insert(y, row);
            self.cursor = Vector2((x + 1) as i32, y as i32);
            self.size = self.size + 1;
            let ghost nr = write_rows(rows, x as int, y as int, c);
            assert(self.lines() =~= nr);
            proof {
                lemma_total_three(rows.take(y as int), seq![rows[y as int]], rows.skip(y + 1));
                lemma_total_three(rows.take(y as int), seq![nr[y as int]], rows.skip(y + 1));
                assert(rows =~= rows.take(y as int) + seq![rows[y as int]] + rows.skip(y + 1));
                assert(nr =~= rows.take(y as int) + seq![nr[y as int]] + rows.skip(y + 1));
                lemma_join_total(rows);
                lemma_join_total(nr);
            }
            assert forall|i: int| 0 <= i < nr.len() implies no_separator(#[trigger] nr[i]) by {
                if i != y {
                    assert(nr[i] == rows[i]);
                } else {
                    assert(forall|j: int| 0 <= j < nr[i].len() && j != x ==> nr[i][j] == rows[y as int][if j < x { j } else { j - 1 }]);
                }
            }
        }
    }

    /// Removes the character before the cursor, within its row.
    fn remove_before_cursor(&mut self) -> (c: char)
        requires
            old(self).wf(),
            old(self).cursor().0 > 0,
        ensures
            final(self).wf(),
            final(self).lines() == delete_rows(
                old(self).lines(),
                old(self).cursor().0 as int,
                old(self).cursor().1 as int,
            ),
            final(self).cursor() == delete_cursor(
                old(self).lines(),
                old(self).cursor().0 as int,
                old(self).cursor().1 as int,
            ),
            c == old(self).lines()[old(self).cursor().1 as int][old(self).cursor().0 - 1],
            final(self).selection_active() == old(self).selection_active(),
            final(self).anchor() == old(self).anchor(),
    {
        let ghost rows = self.lines();
        proof {
            self.lemma_bounds();
        }
        let x = self.cursor.0 as usize;
        let y = self.cursor.1 as usize;
        let mut row = self.rows.remove(y);
        assert(row@ == rows[y as int]);
        let c = row.remove(x - 1);
        self.rows.insert(y, row);
        self.cursor = Vector2((x - 1) as i32, y as i32);
        let ghost nr = delete_rows(rows, x as int, y as int);
        assert(self.lines() =~= nr);
        proof {
            lemma_total_three(rows.take(y as int), seq![rows[y as int]], rows.skip(y + 1));
            lemma_total_three(rows.take(y as int), seq![nr[y as int]], rows.skip(y + 1));
            assert(rows =~= rows.take(y as int) + seq![rows[y as int]] + rows.skip(y + 1));
            assert(nr =~= rows.take(y as int) + seq![nr[y as int]] + rows.skip(y + 1));
            lemma_join_total(rows);
            lemma_join_total(nr);
        }
        self.size = self.size - 1;
        assert forall|i: int| 0 <= i < nr.len() implies no_separator(#[trigger] nr[i]) by {
            if i != y {
                assert(nr[i] == rows[i]);
            } else {
                assert(forall|j: int| 0 <= j < nr[i].len() ==> nr[i][j] == rows[y as int][if j < x - 1 { j } else { j + 1 }]);
            }
        }
        c
    }

    /// Joins the cursor's row, the cursor being at its start, to the row above.
    fn join_with_previous(&mut self)
        requires
            old(self).wf(),
            old(self).cursor().0 == 0,
            old(self).cursor().1 > 0,
        ensures
            final(self).wf(),
            final(self).lines() == delete_rows(
                old(self).lines(),
                old(self).cursor().0 as int,
                old(self).cursor().1 as int,
            ),
            final(self).cursor() == delete_cursor(
                old(self).lines(),
                old(self).cursor().0 as int,
                old(self).cursor().1 as int,
            ),
            final(self).selection_active() == old(self).selection_active(),
            final(self).anchor() == old(self).anchor(),
    {
        let ghost rows = self.lines();
        proof {
            self.lemma_bounds();
        }
        let x = self.cursor.0 as usize;
        let y = self.cursor.1 as usize;
        let mut row = self.rows.remove(y);
        let mut prev = self.rows.remove(y - 1);
        assert(row@ == rows[y as int]);
        assert(prev@ == rows[y - 1]);
        let plen = prev.len();
        prev.append(&mut row);
        self.rows.insert(y - 1, prev);
        self.cursor = Vector2(plen as i32, (y - 1) as i32);
        let ghost nr = delete_rows(rows, x as int, y as int);
        assert(self.lines() =~= nr);
        proof {
            let a = rows.take(y - 1);
            let b = rows.skip(y + 1);
            lemma_total_three(a, seq![rows[y - 1], rows[y as int]], b);
            lemma_total_three(a, seq![rows[y - 1] + rows[y as int]], b);
            assert(rows =~= a + seq![rows[y - 1], rows[y as int]] + b);
            lemma_join_total(rows);
            lemma_join_total(nr);
        }
        self.size = self.size - 1;
        assert forall|i: int| 0 <= i < nr.len() implies no_separator(#[trigger] nr[i]) by {
            if i < y - 1 {
                assert(nr[i] == rows[i]);
            } else if i > y - 1 {
                assert(nr[i] == rows[i + 1]);
            } else {
                assert(forall|j: int| 0 <= j < nr[i].len() ==> nr[i][j] == if j < plen { rows[y - 1][j] } else { rows[y as int][j - plen] });
            }
        }
    }

    /// Backspace: removes the character before the cursor and returns it, or
    /// returns `None` at the start of the document. Removing a row separator
    /// joins the cursor's row to the one above, with the cursor at the join.
    pub fn delete(&mut self) -> (r: Option<Cell>)
        requires
            old(self).wf(),
        ensures
            final(self).wf(),
            final(self).lines() == delete_rows(
                old(self).lines(),
                old(self).cursor().0 as int,
                old(self).cursor().1 as int,
            ),
            final(self).cursor() == delete_cursor(
                old(self).lines(),
                old(self).cursor().0 as int,
                old(self).cursor().1 as int,
            ),
            r == (match deleted_char(
                old(self).lines(),
                old(self).cursor().0 as int,
                old(self).cursor().1 as int,
            ) {
                Some(c) => Some(Cell { char: c }),
                None => None,
            }),
            r is Some ==> final(self).text() == old(self).text().remove(offset_at(old(self).lines(), old(self).cursor()) - 1)
                && offset_at(final(self).lines(), final(self).cursor()) == offset_at(old(self).lines(), old(self).cursor()) - 1,
            r is None ==> final(self).lines() == old(self).lines() && final(self).cursor() == old(self).cursor(),
            final(self).selection_active() == old(self).selection_active(),
            final(self).anchor() == old(self).anchor(),
    {
        proof {
            if self.cursor.0 > 0 || self.cursor.1 > 0 {
                lemma_delete_text(self.lines(), self.cursor.0 as int, self.cursor.1 as int);
            }
        }
        if self.cursor.0 > 0 {
            let c = self.remove_before_cursor();
            Some(Cell { char: c })
        } else if self.cursor.1 > 0 {
            self.join_with_previous();
            Some(Cell { char: '\n' })
        } else {
            None
        }
    }


    /// Offset in the flat text of the valid position `p`.
    fn offset(&self, p: Vector2<i32>, Ghost(t): Ghost<Seq<char>>) -> (o: usize)
        requires
            self.wf(),
            t == self.text(),
            valid_pos(self.lines(), p.0 as int, p.1 as int),
        ensures
            o == offset_at(self.lines(), p),
            o <= t.len(),
    {
        let ghost rows = self.lines();
        proof {
            lemma_offset_bound(rows, p.0 as int, p.1 as int);
        }
        let y = p.1 as usize;
        let mut o: usize = 0;
        let mut k: usize = 0;
        while k < y
            invariant
                rows == self.lines(),
                self.wf(),
                t == self.text(),
                0 <= k <= y < rows.len(),
                o == crate::text::line_start(rows, k as int),
                crate::text::line_start(rows, y as int) <= t.len(),
            decreases y - k,
        {
            proof {
                lemma_line_start_mono(rows, k + 1, y as int);
            }
            assert(self.rows@[k as int]@ == rows[k as int]);
            assert(crate::text::line_start(rows, k + 1) == o + rows[k as int].len() + 1);
            o = o + self.rows[k].len() + 1;
            k = k + 1;
        }
        o + p.0 as usize
    }

    /// The position of offset `o` of the flat text.
    fn pos_at(&self, o: usize, Ghost(t): Ghost<Seq<char>>) -> (r: Vector2<i32>)
        requires
            self.wf(),
            t == self.text(),
            o <= t.len(),
        ensures
            r == pos_vec(self.lines(), o as int),
            valid_pos(self.lines(), r.0 as int, r.1 as int),
            offset_at(self.lines(), r) == o,
    {
        let ghost rows = self.lines();
        proof {
            lemma_pos_of(rows, o as int);
            self.lemma_bounds();
        }
        let mut y: usize = 0;
        let mut rem: usize = o;
        while y + 1 < self.rows.len() && rem > self.rows[y].len()
            invariant
                rows == self.lines(),
                rows.len() <= i32::MAX,
                0 <= y < rows.len(),
                crate::text::pos_from(rows, rem as int, y as int) == pos_of(rows, o as int),
            decreases rows.len() - y,
        {
            assert(self.rows@[y as int]@ == rows[y as int]);
            rem = rem - self.rows[y].len() - 1;
            y = y + 1;
        }
        assert(y + 1 < rows.len() ==> self.rows@[y as int]@ == rows[y as int]);
        Vector2(rem as i32, y as i32)
    }

    /// Moves the cursor to the start or end of its row, or to the start of
    /// the next or previous word. A word is a run of characters that are not
    /// whitespace; the row separator counts as whitespace. Without a next
    /// word the cursor goes to the end of the document, without a previous
    /// one to its start.
    pub fn move_cursor_to(&mut self, m: Position)
        requires
            old(self).wf(),
        ensures
            final(self).wf(),
            final(self).cursor() == marker_target(old(self).lines(), old(self).cursor(), m),
            final(self).lines() == old(self).lines(),
            final(self).selection_active() == old(self).selection_active(),
            final(self).anchor() == old(self).anchor(),
    {
        let ghost rows = self.lines();
        proof {
            self.lemma_bounds();
        }
        match m {
            Position::LineBeginning => {
                self.cursor = Vector2(0, self.cursor.1);
            },
            Position::LineEnd => {
                let y = self.cursor.1 as usize;
                assert(self.rows@[y as int]@ == rows[y as int]);
                self.cursor = Vector2(self.rows[y].len() as i32, self.cursor.1);
            },
            Position::NextWord => {
                let t = self.text_chars();
                let o0 = self.offset(self.cursor, Ghost(t@));
                let mut o = o0;
                while o < t.len() && !is_space_char(t[o])
                    invariant
                        o0 <= o <= t@.len(),
                        skip_word_fwd(t@, o as int) == skip_word_fwd(t@, o0 as int),
                    decreases t@.len() - o,
                {
                    o = o + 1;
                }
                let o1 = o;
                while o < t.len() && is_space_char(t[o])
                    invariant
                        o1 <= o <= t@.len(),
                        skip_space_fwd(t@, o as int) == skip_space_fwd(t@, o1 as int),
                    decreases t@.len() - o,
                {
                    o = o + 1;
                }
                self.cursor = self.pos_at(o, Ghost(t@));
            },
            Position::PreviousWord => {
                let t = self.text_chars();
                let o0 = self.offset(self.cursor, Ghost(t@));
                let mut o = o0;
                while o > 0 && is_space_char(t[o - 1])
                    invariant
                        0 <= o <= o0 <= t@.len(),
                        skip_space_back(t@, o as int) == skip_space_back(t@, o0 as int),
                    decreases o,
                {
                    o = o - 1;
                }
                let o1 = o;
                while o > 0 && !is_space_char(t[o - 1])
                    invariant
                        0 <= o <= o1 <= t@.len(),
                        skip_word_back(t@, o as int) == skip_word_back(t@, o1 as int),
                    decreases o,
                {
                    o = o - 1;
                }
                self.cursor = self.pos_at(o, Ghost(t@));
            },
        }
    }

    /// The position of the nearest occurrence of `s` after `start` (before
    /// it, with `reverse`) in the flat text, separators included; `start` is
    /// first clamped to the document. The search does not wrap around.
    pub fn search(&self, s: &str, start: Vector2<i32>, reverse: bool) -> (r: Option<Vector2<i32>>)
        requires
            self.wf(),
        ensures
            r == search_result(self.lines(), s@, start, reverse),
    {
        let t = self.text_chars();
        let pat = chars_of(s);
        let p = self.clamped(start.0 as i64, start.1 as i64);
        let o = self.offset(p, Ghost(t@));
        if !reverse {
            let mut i: usize = o + 1;
            while i <= t.len() && pat.len() <= t.len() - i
                invariant
                    self.wf(),
                    t@ == self.text(),
                    pat@ == s@,
                    p == clamp_pos(self.lines(), start.0 as int, start.1 as int),
                    o == offset_at(self.lines(), p),
                    !reverse,
                    o + 1 <= i <= t@.len() + 1,
                    find_fwd(t@, pat@, i as int) == find_fwd(t@, pat@, o + 1),
                decreases t@.len() + 1 - i,
            {
                if occurs_at(&t, &pat, i) {
                    return Some(self.pos_at(i, Ghost(t@)));
                }
                i = i + 1;
            }
            None
        } else {
            let mut k: usize = o;
            while k > 0
                invariant
                    self.wf(),
                    t@ == self.text(),
                    pat@ == s@,
                    p == clamp_pos(self.lines(), start.0 as int, start.1 as int),
                    o == offset_at(self.lines(), p),
                    reverse,
                    o <= t@.len(),
                    0 <= k <= o,
                    find_back(t@, pat@, k - 1) == find_back(t@, pat@, o - 1),
                decreases k,
            {
                if pat.len() <= t.len() - (k - 1) && occurs_at(&t, &pat, k - 1) {
                    return Some(self.pos_at(k - 1, Ghost(t@)));
                }
                k = k - 1;
            }
            None
        }
    }

    /// The selected characters, from the earlier to the later of anchor and
    /// cursor (end excluded), separators included; `None` without a selection.
    /// The anchor is first clamped to the document.
    pub fn copy(&self) -> (r: Option<Vec<Cell>>)
        requires
            self.wf(),
        ensures
            r is Some == self.selection_active(),
            r matches Some(v) ==> cells_text(v@) == self.selected_text(),
    {
        if !self.selecting {
            return None;
        }
        let t = self.text_chars();
        let a = self.clamped(self.anchor.0 as i64, self.anchor.1 as i64);
        let oa = self.offset(a, Ghost(t@));
        let oc = self.offset(self.cursor, Ghost(t@));
        let lo = if oa < oc { oa } else { oc };
        let hi = if oa < oc { oc } else { oa };
        let v = cells_between(&t, lo, hi);
        Some(v)
    }

    /// The flat text between anchor and cursor, in document order.
    pub open spec fn selected_text(&self) -> Seq<char> {
        let oa = offset_at(self.lines(), clamp_pos(self.lines(), self.anchor().0 as int, self.anchor().1 as int));
        let oc = offset_at(self.lines(), self.cursor());
        if oa < oc {
            self.text().subrange(oa, oc)
        } else {
            self.text().subrange(oc, oa)
        }
    }

}

/// A valid position of a document the buffer can hold survives the casts to
/// `i32`, and its offset maps back to it.
pub proof fn lemma_pos_vec(rows: Seq<Seq<char>>, o: int)
    requires
        doc_wf(rows),
        0 <= o <= join(rows).len(),
    ensures
        valid_pos(rows, pos_vec(rows, o).0 as int, pos_vec(rows, o).1 as int),
        offset_at(rows, pos_vec(rows, o)) == o,
        pos_vec(rows, o).0 == pos_of(rows, o).0,
        pos_vec(rows, o).1 == pos_of(rows, o).1,
{
    lemma_pos_of(rows, o);
    lemma_rows_bounded(rows, pos_of(rows, o).1);
}

/// Building a buffer from a text and serialising it gives the text back.
pub proof fn lemma_round_trip(t: Seq<char>)
    ensures
        join(split_lines(t)) == t,
{
    lemma_split_join(t);
}

/// The offset of a valid position leads back to it.
pub proof fn lemma_pos_of_offset(rows: Seq<Seq<char>>, p: Vector2<i32>)
    requires
        doc_wf(rows),
        valid_pos(rows, p.0 as int, p.1 as int),
    ensures
        pos_vec(rows, offset_at(rows, p)) == p,
{
    crate::text::lemma_pos_from_offset(rows, p.0 as int, p.1 as int, 0);
}

/// Reading order on valid positions is the order of their offsets in the
/// flat text: the selection between anchor and cursor runs from the earlier
/// position to the later one.
pub proof fn lemma_order_is_offset_order(rows: Seq<Seq<char>>, a: Vector2<i32>, b: Vector2<i32>)
    requires
        valid_pos(rows, a.0 as int, a.1 as int),
        valid_pos(rows, b.0 as int, b.1 as int),
    ensures
        crate::vector::pos_lt(a, b) <==> offset_at(rows, a) < offset_at(rows, b),
{
    if a.1 < b.1 {
        lemma_line_start_mono(rows, a.1 + 1, b.1 as int);
    } else if b.1 < a.1 {
        lemma_line_start_mono(rows, b.1 + 1, a.1 as int);
    }
}

/// Writing `c` inserts it into the flat text at the cursor's offset, and the
/// cursor's offset moves past it.
pub proof fn lemma_write_text(rows: Seq<Seq<char>>, x: int, y: int, c: char)
    requires
        doc_wf(rows),
        valid_pos(rows, x, y),
        has_room_for_one(rows),
    ensures
        join(write_rows(rows, x, y, c)) == join(rows).insert(offset_of(rows, x, y), c),
        offset_at(write_rows(rows, x, y, c), write_cursor(x, y, c)) == offset_of(rows, x, y) + 1,
{
    lemma_rows_bounded(rows, y);
    let a = rows.take(y);
    let b = rows.skip(y + 1);
    let r = rows[y];
    let p = before_rows(a);
    let q = after_rows(b);
    let w = write_rows(rows, x, y, c);
    assert(rows =~= a + seq![r] + b);
    lemma_join_pair(r, r);
    lemma_join_three(a, seq![r], b);
    lemma_line_start_before(rows, y);
    if c == '\n' {
        let m = seq![r.take(x), r.skip(x)];
        lemma_join_pair(r.take(x), r.skip(x));
        assert(w =~= a + m + b);
        lemma_join_three(a, m, b);
        lemma_insert_middle(p, r, q, x, c);
        lemma_line_start_prefix(rows, w, y);
    } else {
        let m = seq![r.insert(x, c)];
        lemma_join_pair(r.insert(x, c), r);
        assert(w =~= a + m + b);
        lemma_join_three(a, m, b);
        lemma_insert_middle(p, r, q, x, c);
        lemma_line_start_prefix(rows, w, y);
    }
}

/// A backspace that removes a character removes it from the flat text just
/// before the cursor's offset, and the cursor's offset moves back by one.
pub proof fn lemma_delete_text(rows: Seq<Seq<char>>, x: int, y: int)
    requires
        doc_wf(rows),
        valid_pos(rows, x, y),
        x > 0 || y > 0,
    ensures
        join(delete_rows(rows, x, y)) == join(rows).remove(offset_of(rows, x, y) - 1),
        offset_at(delete_rows(rows, x, y), delete_cursor(rows, x, y)) == offset_of(rows, x, y) - 1,
{
    lemma_rows_bounded(rows, y);
    let d = delete_rows(rows, x, y);
    if x > 0 {
        let a = rows.take(y);
        let b = rows.skip(y + 1);
        let r = rows[y];
        let p = before_rows(a);
        let q = after_rows(b);
        assert(rows =~= a + seq![r] + b);
        lemma_join_pair(r, r);
        lemma_join_three(a, seq![r], b);
        let m = seq![r.remove(x - 1)];
        lemma_join_pair(r.remove(x - 1), r);
        assert(d =~= a + m + b);
        lemma_join_three(a, m, b);
        lemma_line_start_before(rows, y);
        lemma_remove_middle(p, r, q, x - 1);
        lemma_line_start_prefix(rows, d, y);
    } else {
        let a = rows.take(y - 1);
        let b = rows.skip(y + 1);
        let u = rows[y - 1];
        let r = rows[y];
        let p = before_rows(a);
        let q = after_rows(b);
        let m = seq![u, r];
        assert(rows =~= a + m + b);
        lemma_join_pair(u, r);
        lemma_join_three(a, m, b);
        let m2 = seq![u + r];
        lemma_join_pair(u + r, r);
        assert(d =~= a + m2 + b);
        lemma_join_three(a, m2, b);
        lemma_rows_bounded(rows, y - 1);
        lemma_line_start_before(rows, y - 1);
        lemma_remove_middle(p, u + seq!['\n'] + r, q, u.len() as int);
        assert((u + seq!['\n'] + r).remove(u.len() as int) =~= u + r);
        lemma_line_start_prefix(rows, d, y - 1);
    }
}

/// In every well-formed buffer, which every operation keeps, the cursor is on
/// an existing row and at most at that row's end.
pub proof fn lemma_cursor_in_range(e: &Editor)
    requires
        e.wf(),
    ensures
        0 <= e.cursor().1 < e.lines().len(),
        0 <= e.cursor().0 <= e.lines()[e.cursor().1 as int].len(),
{
}

/// Writing a character and then deleting returns that character and restores
/// the rows and the cursor.
pub proof fn lemma_write_then_delete(rows: Seq<Seq<char>>, x: int, y: int, c: char)
    requires
        doc_wf(rows),
        valid_pos(rows, x, y),
        has_room_for_one(rows),
    ensures
        delete_rows(write_rows(rows, x, y, c), write_cursor(x, y, c).0 as int, write_cursor(x, y, c).1 as int) == rows,
        delete_cursor(write_rows(rows, x, y, c), write_cursor(x, y, c).0 as int, write_cursor(x, y, c).1 as int) == Vector2(x as i32, y as i32),
        deleted_char(write_rows(rows, x, y, c), write_cursor(x, y, c).0 as int, write_cursor(x, y, c).1 as int) == Some(c),
{
    lemma_rows_bounded(rows, y);
    let w = write_rows(rows, x, y, c);
    if c == '\n' {
        assert(w[y + 1] == rows[y].skip(x));
        assert(w[y] == rows[y].take(x));
        assert(w[y] + w[y + 1] =~= rows[y]);
        assert(w.take(y) + seq![w[y] + w[y + 1]] + w.skip(y + 2) =~= rows);
    } else {
        assert(rows[y].insert(x, c).remove(x) =~= rows[y]);
        assert(w.update(y, w[y].remove(x)) =~= rows);
    }
}

/// From a position on a word character, moving to the next word and then to
/// the previous word ends at the start of the word the position was in.
pub proof fn lemma_next_then_previous_word(rows: Seq<Seq<char>>, c: Vector2<i32>)
    requires
        doc_wf(rows),
        valid_pos(rows, c.0 as int, c.1 as int),
        offset_at(rows, c) < join(rows).len(),
        !is_space(join(rows)[offset_at(rows, c)]),
    ensures
        marker_target(rows, marker_target(rows, c, Position::NextWord), Position::PreviousWord)
            == pos_vec(rows, skip_word_back(join(rows), offset_at(rows, c))),
        ({
            let t = join(rows);
            let s = offset_at(
                rows,
                marker_target(rows, marker_target(rows, c, Position::NextWord), Position::PreviousWord),
            );
            &&& s <= offset_at(rows, c)
            &&& forall|i: int| s <= i <= offset_at(rows, c) ==> !is_space(#[trigger] t[i])
            &&& s == 0 || is_space(t[s - 1])
        }),
{
    let t = join(rows);
    let o = offset_at(rows, c);
    lemma_offset_bound(rows, c.0 as int, c.1 as int);
    lemma_word_bounds(t, o);
    lemma_pos_vec(rows, next_word_at(t, o));
    lemma_next_then_prev_word(t, o);
    crate::text::lemma_word_start(t, o);
    lemma_pos_vec(rows, skip_word_back(t, o));
}

/// A forward search that finds `q`, followed by a backward search from `q`,
/// finds an occurrence before `q` wherever there is one (at offset `j`); and
/// where the forward search started on an occurrence, the backward search
/// returns to it.
pub proof fn lemma_search_symmetry(rows: Seq<Seq<char>>, s: Seq<char>, p: Vector2<i32>, q: Vector2<i32>, j: int)
    requires
        doc_wf(rows),
        search_result(rows, s, p, false) == Some(q),
        occurs(join(rows), s, j),
        j < offset_at(rows, q),
    ensures
        search_result(rows, s, q, true) matches Some(r) && offset_at(rows, r) < offset_at(rows, q)
            && occurs(join(rows), s, offset_at(rows, r)) && j <= offset_at(rows, r),
        occurs(join(rows), s, offset_at(rows, clamp_pos(rows, p.0 as int, p.1 as int)))
            ==> search_result(rows, s, q, true) == Some(clamp_pos(rows, p.0 as int, p.1 as int)),
{
    let t = join(rows);
    let cp = clamp_pos(rows, p.0 as int, p.1 as int);
    let op = offset_at(rows, cp);
    lemma_rows_bounded(rows, clamp_int(p.1 as int, 0, rows.len() - 1));
    lemma_offset_bound(rows, cp.0 as int, cp.1 as int);
    crate::text::lemma_find_fwd(t, s, op + 1);
    let qi = find_fwd(t, s, op + 1)->0;
    lemma_pos_vec(rows, qi);
    assert(offset_at(rows, q) == qi);
    lemma_rows_bounded(rows, q.1 as int);
    assert(clamp_pos(rows, q.0 as int, q.1 as int) == q);
    lemma_search_back_after_fwd(t, s, op, qi, j);
    let ri = find_back(t, s, qi - 1)->0;
    crate::text::lemma_find_back(t, s, qi - 1);
    lemma_pos_vec(rows, ri);
    if occurs(t, s, op) {
        lemma_pos_of_offset(rows, cp);
    }
}

/// Whether `c` separates words.
pub fn is_space_char(c: char) -> (r: bool)
    ensures
        r == is_space(c),
{
    c == ' ' || c == '\t' || c == '\n' || c == '\r' || c == '\x0B' || c == '\x0C'
}

/// Whether `s` occurs in `t` at offset `i`.
fn occurs_at(t: &Vec<char>, s: &Vec<char>, i: usize) -> (r: bool)
    requires
        i + s@.len() <= t@.len(),
    ensures
        r == occurs(t@, s@, i as int),
{
    let n = t.len();
    let mut j: usize = 0;
    while j < s.len()
        invariant
            n == t@.len(),
            0 <= j <= s@.len(),
            i + s@.len() <= t@.len(),
            forall|k: int| 0 <= k < j ==> t@[i + k] == s@[k],
        decreases s@.len() - j,
    {
        if t[i + j] != s[j] {
            assert(t@.subrange(i as int, i + s@.len())[j as int] != s@[j as int]);
            return false;
        }
        j = j + 1;
    }
    assert(t@.subrange(i as int, i + s@.len()) =~= s@);
    true
}

/// The characters of `t` from `lo` to `hi` (excluded), as cells.
fn cells_between(t: &Vec<char>, lo: usize, hi: usize) -> (r: Vec<Cell>)
    requires
        lo <= hi <= t@.len(),
    ensures
        cells_text(r@) == t@.subrange(lo as int, hi as int),
{
    let mut v: Vec<Cell> = Vec::new();
    let mut i: usize = lo;
    while i < hi
        invariant
            lo <= i <= hi <= t@.len(),
            v@.len() == i - lo,
            forall|j: int| 0 <= j < v@.len() ==> (#[trigger] v@[j]).char == t@[lo + j],
        decreases hi - i,
    {
        let c = t[i];
        v.push(Cell::of(c));
        i = i + 1;
    }
    assert(cells_text(v@) =~= t@.subrange(lo as int, hi as int));
    v
}

} // verus!
