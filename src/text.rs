//! The mathematical model of a document: rows of characters, the flat text
//! they make when joined by row separators, and the positions within it.

use vstd::prelude::*;

verus! {

/// The rows joined by the row separator `'\n'`.
pub open spec fn join(rows: Seq<Seq<char>>) -> Seq<char>
    decreases rows.len(),
{
    if rows.len() == 0 {
        Seq::empty()
    } else if rows.len() == 1 {
        rows[0]
    } else {
        join(rows.drop_last()) + seq!['\n'] + rows.last()
    }
}

/// The text cut at every row separator: the inverse of `join`.
pub open spec fn split_lines(t: Seq<char>) -> Seq<Seq<char>>
    decreases t.len(),
{
    if t.len() == 0 {
        seq![Seq::empty()]
    } else {
        let s = split_lines(t.drop_last());
        if t.last() == '\n' {
            s.push(Seq::empty())
        } else {
            s.update(s.len() - 1, s.last().push(t.last()))
        }
    }
}

pub open spec fn no_separator(r: Seq<char>) -> bool {
    forall|i: int| 0 <= i < r.len() ==> r[i] != '\n'
}

/// Offset in the joined text of the first character of row `y`.
pub open spec fn line_start(rows: Seq<Seq<char>>, y: int) -> int
    decreases y,
{
    if y <= 0 {
        0
    } else {
        line_start(rows, y - 1) + rows[y - 1].len() + 1
    }
}

/// Offset in the joined text of column `x` of row `y`.
pub open spec fn offset_of(rows: Seq<Seq<char>>, x: int, y: int) -> int {
    line_start(rows, y) + x
}

/// A cursor position: an existing row, and a column up to the row's end.
pub open spec fn valid_pos(rows: Seq<Seq<char>>, x: int, y: int) -> bool {
    0 <= y < rows.len() && 0 <= x <= rows[y].len()
}

/// The position (column, row) of offset `o` counted from the start of row `y`.
pub open spec fn pos_from(rows: Seq<Seq<char>>, o: int, y: int) -> (int, int)
    decreases rows.len() - y,
{
    if y + 1 >= rows.len() || o <= rows[y].len() {
        (o, y)
    } else {
        pos_from(rows, o - rows[y].len() - 1, y + 1)
    }
}

/// The position (column, row) of offset `o` of the joined text.
pub open spec fn pos_of(rows: Seq<Seq<char>>, o: int) -> (int, int) {
    pos_from(rows, o, 0)
}

pub proof fn lemma_join_push(rows: Seq<Seq<char>>, r: Seq<char>)
    requires
        rows.len() >= 1,
    ensures
        join(rows.push(r)) == join(rows) + seq!['\n'] + r,
{
    assert(rows.push(r).drop_last() =~= rows);
}

pub proof fn lemma_join_update_last(rows: Seq<Seq<char>>, r: Seq<char>)
    requires
        rows.len() >= 2,
    ensures
        join(rows.update(rows.len() - 1, r)) == join(rows.drop_last()) + seq!['\n'] + r,
{
    assert(rows.update(rows.len() - 1, r).drop_last() =~= rows.drop_last());
}

/// Cutting a text at its row separators and joining the rows again gives the
/// text back; the rows hold no separator.
pub proof fn lemma_split_join(t: Seq<char>)
    ensures
        split_lines(t).len() >= 1,
        join(split_lines(t)) == t,
        forall|i: int| 0 <= i < split_lines(t).len() ==> no_separator(#[trigger] split_lines(t)[i]),
    decreases t.len(),
{
    if t.len() > 0 {
        let d = t.drop_last();
        lemma_split_join(d);
        let s = split_lines(d);
        let c = t.last();
        if c == '\n' {
            lemma_join_push(s, Seq::empty());
            assert(join(s) + seq!['\n'] + Seq::<char>::empty() =~= t);
            assert forall|i: int| 0 <= i < split_lines(t).len() implies no_separator(
                #[trigger] split_lines(t)[i],
            ) by {
                if i < s.len() {
                    assert(split_lines(t)[i] == s[i]);
                }
            }
        } else {
            let r = s.last().push(c);
            if s.len() == 1 {
                assert(s.update(0, r) =~= seq![r]);
                assert(r =~= t);
            } else {
                lemma_join_update_last(s, r);
                assert(join(s) == join(s.drop_last()) + seq!['\n'] + s.last());
                let a = join(s.drop_last()) + seq!['\n'];
                assert(a + r =~= (a + s.last()).push(c));
                assert(t =~= d.push(c));
            }
            assert forall|i: int| 0 <= i < split_lines(t).len() implies no_separator(
                #[trigger] split_lines(t)[i],
            ) by {
                if i < s.len() - 1 {
                    assert(split_lines(t)[i] == s[i]);
                } else {
                    assert(split_lines(t)[i] == r);
                    assert(no_separator(s[s.len() - 1]));
                    assert forall|j: int| 0 <= j < r.len() implies r[j] != '\n' by {
                        if j < r.len() - 1 {
                            assert(r[j] == s.last()[j]);
                        }
                    }
                }
            }
        }
    }
}

/// No row is longer than the text, and there are no more rows than characters
/// plus one.
pub proof fn lemma_split_len(t: Seq<char>)
    ensures
        split_lines(t).len() <= t.len() + 1,
        forall|i: int| 0 <= i < split_lines(t).len() ==> (#[trigger] split_lines(t)[i]).len() <= t.len(),
    decreases t.len(),
{
    if t.len() > 0 {
        lemma_split_len(t.drop_last());
        lemma_split_join(t.drop_last());
        let s = split_lines(t.drop_last());
        assert forall|i: int| 0 <= i < split_lines(t).len() implies (#[trigger] split_lines(t)[i]).len() <= t.len() by {
            if i < s.len() {
                assert(s[i].len() <= t.len() - 1);
            }
        }
    }
}

/// Characters of the rows, each counted with one separator.
pub open spec fn total(rows: Seq<Seq<char>>) -> int
    decreases rows.len(),
{
    if rows.len() == 0 {
        0
    } else {
        total(rows.drop_last()) + rows.last().len() + 1
    }
}

pub proof fn lemma_total_concat(a: Seq<Seq<char>>, b: Seq<Seq<char>>)
    ensures
        total(a + b) == total(a) + total(b),
    decreases b.len(),
{
    if b.len() == 0 {
        assert(a + b =~= a);
    } else {
        lemma_total_concat(a, b.drop_last());
        assert((a + b).drop_last() =~= a + b.drop_last());
    }
}

/// `total` of rows cut around row `y`.
pub proof fn lemma_total_split(rows: Seq<Seq<char>>, y: int)
    requires
        0 <= y < rows.len(),
    ensures
        total(rows) == total(rows.take(y)) + rows[y].len() + 1 + total(rows.skip(y + 1)),
        rows == rows.take(y) + seq![rows[y]] + rows.skip(y + 1),
{
    assert(rows =~= rows.take(y) + seq![rows[y]] + rows.skip(y + 1));
    lemma_total_concat(rows.take(y) + seq![rows[y]], rows.skip(y + 1));
    lemma_total_concat(rows.take(y), seq![rows[y]]);
    let m = seq![rows[y]];
    assert(total(m.drop_last()) == 0);
    assert(total(m) == total(m.drop_last()) + rows[y].len() + 1);
}

/// `total` of rows `a`, then `m`, then `c`.
pub proof fn lemma_total_three(a: Seq<Seq<char>>, m: Seq<Seq<char>>, c: Seq<Seq<char>>)
    ensures
        total(a + m + c) == total(a) + total(m) + total(c),
        m.len() == 1 ==> total(m) == m[0].len() + 1,
        m.len() == 2 ==> total(m) == m[0].len() + m[1].len() + 2,
{
    lemma_total_concat(a + m, c);
    lemma_total_concat(a, m);
    if m.len() == 1 {
        assert(total(m.drop_last()) == 0);
        assert(total(m) == total(m.drop_last()) + m[0].len() + 1);
    }
    if m.len() == 2 {
        let d = m.drop_last();
        assert(total(d.drop_last()) == 0);
        assert(total(d) == total(d.drop_last()) + m[0].len() + 1);
        assert(total(m) == total(d) + m[1].len() + 1);
    }
}

pub proof fn lemma_total_nonneg(rows: Seq<Seq<char>>)
    ensures
        total(rows) >= rows.len(),
    decreases rows.len(),
{
    if rows.len() > 0 {
        lemma_total_nonneg(rows.drop_last());
    }
}

pub proof fn lemma_join_total(rows: Seq<Seq<char>>)
    requires
        rows.len() >= 1,
    ensures
        join(rows).len() == total(rows) - 1,
    decreases rows.len(),
{
    if rows.len() > 1 {
        lemma_join_total(rows.drop_last());
    } else {
        assert(total(rows.drop_last()) == 0);
    }
}

/// Row count and row lengths are bounded by the text's length.
pub proof fn lemma_rows_bounded(rows: Seq<Seq<char>>, y: int)
    requires
        0 <= y < rows.len(),
    ensures
        rows.len() <= join(rows).len() + 1,
        rows[y].len() <= join(rows).len(),
{
    lemma_join_total(rows);
    lemma_total_nonneg(rows);
    lemma_total_split(rows, y);
    lemma_total_nonneg(rows.take(y));
    lemma_total_nonneg(rows.skip(y + 1));
}

/// `line_start` of row `y` depends only on the rows before it.
pub proof fn lemma_line_start_prefix(a: Seq<Seq<char>>, b: Seq<Seq<char>>, y: int)
    requires
        0 <= y <= a.len(),
        y <= b.len(),
        forall|i: int| 0 <= i < y ==> a[i] == b[i],
    ensures
        line_start(a, y) == line_start(b, y),
    decreases y,
{
    if y > 0 {
        lemma_line_start_prefix(a, b, y - 1);
    }
}

pub proof fn lemma_join_len(rows: Seq<Seq<char>>)
    requires
        rows.len() >= 1,
    ensures
        join(rows).len() == line_start(rows, rows.len() - 1) + rows.last().len(),
    decreases rows.len(),
{
    if rows.len() > 1 {
        let d = rows.drop_last();
        lemma_join_len(d);
        lemma_line_start_prefix(rows, d, rows.len() - 2);
    }
}

pub proof fn lemma_line_start_mono(rows: Seq<Seq<char>>, a: int, b: int)
    requires
        0 <= a <= b,
    ensures
        line_start(rows, a) + (b - a) <= line_start(rows, b),
    decreases b - a,
{
    if a < b {
        lemma_line_start_mono(rows, a, b - 1);
    }
}

/// Every valid position has an offset within the joined text.
pub proof fn lemma_offset_bound(rows: Seq<Seq<char>>, x: int, y: int)
    requires
        valid_pos(rows, x, y),
    ensures
        0 <= offset_of(rows, x, y) <= join(rows).len(),
{
    lemma_join_len(rows);
    lemma_line_start_mono(rows, 0, y);
    if y < rows.len() - 1 {
        lemma_line_start_mono(rows, y + 1, rows.len() - 1);
    }
}

/// Joining two non-empty groups of rows puts one separator between them.
pub proof fn lemma_join_concat(a: Seq<Seq<char>>, b: Seq<Seq<char>>)
    requires
        a.len() >= 1,
        b.len() >= 1,
    ensures
        join(a + b) == join(a) + seq!['\n'] + join(b),
    decreases b.len(),
{
    if b.len() == 1 {
        assert((a + b).drop_last() =~= a);
        assert(b.drop_last().len() == 0);
    } else {
        lemma_join_concat(a, b.drop_last());
        assert((a + b).drop_last() =~= a + b.drop_last());
        assert(join(a) + seq!['\n'] + join(b.drop_last()) + seq!['\n'] + b.last() =~= join(a) + seq!['\n'] + (
        join(b.drop_last()) + seq!['\n'] + b.last()));
    }
}

/// The text before the rows `a`, with the separator that follows them.
pub open spec fn before_rows(a: Seq<Seq<char>>) -> Seq<char> {
    if a.len() == 0 {
        Seq::empty()
    } else {
        join(a) + seq!['\n']
    }
}

/// The text after the rows `b`, with the separator that precedes them.
pub open spec fn after_rows(b: Seq<Seq<char>>) -> Seq<char> {
    if b.len() == 0 {
        Seq::empty()
    } else {
        seq!['\n'] + join(b)
    }
}

/// Joining rows `a`, then `m`, then `b`.
pub proof fn lemma_join_three(a: Seq<Seq<char>>, m: Seq<Seq<char>>, b: Seq<Seq<char>>)
    requires
        m.len() >= 1,
    ensures
        join(a + m + b) == before_rows(a) + join(m) + after_rows(b),
{
    if a.len() > 0 {
        lemma_join_concat(a, m);
    } else {
        assert(a + m =~= m);
    }
    if b.len() > 0 {
        lemma_join_concat(a + m, b);
    } else {
        assert(a + m + b =~= a + m);
    }
    assert(before_rows(a) + join(m) + after_rows(b) =~= if a.len() > 0 {
        join(a) + seq!['\n'] + join(m)
    } else {
        join(m)
    } + after_rows(b));
}

/// The start of row `y` is just past the text of the rows before it.
pub proof fn lemma_line_start_before(rows: Seq<Seq<char>>, y: int)
    requires
        0 <= y < rows.len(),
    ensures
        line_start(rows, y) == before_rows(rows.take(y)).len(),
{
    if y > 0 {
        let a = rows.take(y);
        lemma_join_len(a);
        lemma_line_start_prefix(rows, a, y - 1);
    }
}

pub proof fn lemma_join_pair(a: Seq<char>, b: Seq<char>)
    ensures
        join(seq![a]) == a,
        join(seq![a, b]) == a + seq!['\n'] + b,
{
    let m = seq![a, b];
    assert(m.drop_last() =~= seq![a]);
    assert(join(m.drop_last()) == a);
    assert(m.last() == b);
    assert(join(m) == join(m.drop_last()) + seq!['\n'] + m.last());
}

/// Inserting into the middle part of a text.
pub proof fn lemma_insert_middle(p: Seq<char>, r: Seq<char>, q: Seq<char>, x: int, c: char)
    requires
        0 <= x <= r.len(),
    ensures
        (p + r + q).insert(p.len() + x, c) == p + r.insert(x, c) + q,
        (p + r + q).insert(p.len() + x, c) == p + (r.take(x) + seq![c] + r.skip(x)) + q,
{
    assert((p + r + q).insert(p.len() + x, c) =~= p + r.insert(x, c) + q);
    assert(r.insert(x, c) =~= r.take(x) + seq![c] + r.skip(x));
}

/// Removing from the middle part of a text.
pub proof fn lemma_remove_middle(p: Seq<char>, r: Seq<char>, q: Seq<char>, i: int)
    requires
        0 <= i < r.len(),
    ensures
        (p + r + q).remove(p.len() + i) == p + r.remove(i) + q,
{
    assert((p + r + q).remove(p.len() + i) =~= p + r.remove(i) + q);
}

/// `pos_from` finds a valid position with the given offset.
pub proof fn lemma_pos_from(rows: Seq<Seq<char>>, o: int, y: int)
    requires
        0 <= y < rows.len(),
        0 <= o,
        line_start(rows, y) + o <= join(rows).len(),
    ensures
        valid_pos(rows, pos_from(rows, o, y).0, pos_from(rows, o, y).1),
        offset_of(rows, pos_from(rows, o, y).0, pos_from(rows, o, y).1) == line_start(rows, y) + o,
    decreases rows.len() - y,
{
    lemma_join_len(rows);
    if y + 1 < rows.len() && o > rows[y].len() {
        lemma_pos_from(rows, o - rows[y].len() - 1, y + 1);
    }
}

/// The offset of a valid position leads back to it.
pub proof fn lemma_pos_from_offset(rows: Seq<Seq<char>>, x: int, y: int, k: int)
    requires
        valid_pos(rows, x, y),
        0 <= k <= y,
    ensures
        pos_from(rows, line_start(rows, y) - line_start(rows, k) + x, k) == (x, y),
    decreases y - k,
{
    if k < y {
        lemma_line_start_mono(rows, k + 1, y);
        lemma_pos_from_offset(rows, x, y, k + 1);
    }
}

/// `pos_of` gives, for each offset of the joined text, a valid position with
/// that offset.
pub proof fn lemma_pos_of(rows: Seq<Seq<char>>, o: int)
    requires
        rows.len() >= 1,
        0 <= o <= join(rows).len(),
    ensures
        valid_pos(rows, pos_of(rows, o).0, pos_of(rows, o).1),
        offset_of(rows, pos_of(rows, o).0, pos_of(rows, o).1) == o,
{
    lemma_pos_from(rows, o, 0);
}

/// Characters that separate words; the row separator is one of them.
pub open spec fn is_space(c: char) -> bool {
    c == ' ' || c == '\t' || c == '\n' || c == '\r' || c == '\x0B' || c == '\x0C'
}

/// From offset `o`, past the characters of a word.
pub open spec fn skip_word_fwd(t: Seq<char>, o: int) -> int
    decreases t.len() - o,
{
    if 0 <= o < t.len() && !is_space(t[o]) {
        skip_word_fwd(t, o + 1)
    } else {
        o
    }
}

/// From offset `o`, past whitespace.
pub open spec fn skip_space_fwd(t: Seq<char>, o: int) -> int
    decreases t.len() - o,
{
    if 0 <= o < t.len() && is_space(t[o]) {
        skip_space_fwd(t, o + 1)
    } else {
        o
    }
}

/// From offset `o`, back over the whitespace before it.
pub open spec fn skip_space_back(t: Seq<char>, o: int) -> int
    decreases o,
{
    if 0 < o <= t.len() && is_space(t[o - 1]) {
        skip_space_back(t, o - 1)
    } else {
        o
    }
}

/// From offset `o`, back over the word characters before it.
pub open spec fn skip_word_back(t: Seq<char>, o: int) -> int
    decreases o,
{
    if 0 < o <= t.len() && !is_space(t[o - 1]) {
        skip_word_back(t, o - 1)
    } else {
        o
    }
}

/// The start of the next word after offset `o`, or the end of the text.
pub open spec fn next_word_at(t: Seq<char>, o: int) -> int {
    skip_space_fwd(t, skip_word_fwd(t, o))
}

/// The start of the word before offset `o` (of the word `o` is inside, if it
/// is not at its start), or the start of the text.
pub open spec fn prev_word_at(t: Seq<char>, o: int) -> int {
    skip_word_back(t, skip_space_back(t, o))
}

proof fn lemma_skip_word_fwd(t: Seq<char>, o: int)
    requires
        0 <= o <= t.len(),
    ensures
        o <= skip_word_fwd(t, o) <= t.len(),
        forall|i: int| o <= i < skip_word_fwd(t, o) ==> !is_space(#[trigger] t[i]),
    decreases t.len() - o,
{
    if o < t.len() && !is_space(t[o]) {
        lemma_skip_word_fwd(t, o + 1);
    }
}

proof fn lemma_skip_space_fwd(t: Seq<char>, o: int)
    requires
        0 <= o <= t.len(),
    ensures
        o <= skip_space_fwd(t, o) <= t.len(),
        forall|i: int| o <= i < skip_space_fwd(t, o) ==> is_space(#[trigger] t[i]),
    decreases t.len() - o,
{
    if o < t.len() && is_space(t[o]) {
        lemma_skip_space_fwd(t, o + 1);
    }
}

proof fn lemma_skip_space_back_over(t: Seq<char>, e: int, w: int)
    requires
        0 < e <= w <= t.len(),
        !is_space(t[e - 1]),
        forall|i: int| e <= i < w ==> is_space(#[trigger] t[i]),
    ensures
        skip_space_back(t, w) == e,
    decreases w - e,
{
    if e < w {
        lemma_skip_space_back_over(t, e, w - 1);
    }
}

proof fn lemma_skip_word_back_over(t: Seq<char>, o: int, e: int)
    requires
        0 <= o <= e <= t.len(),
        forall|i: int| o <= i < e ==> !is_space(#[trigger] t[i]),
    ensures
        skip_word_back(t, e) == skip_word_back(t, o),
    decreases e - o,
{
    if o < e {
        lemma_skip_word_back_over(t, o, e - 1);
    }
}

pub proof fn lemma_skip_word_back_bound(t: Seq<char>, o: int)
    requires
        0 <= o <= t.len(),
    ensures
        0 <= skip_word_back(t, o) <= o,
    decreases o,
{
    if 0 < o && !is_space(t[o - 1]) {
        lemma_skip_word_back_bound(t, o - 1);
    }
}

pub proof fn lemma_skip_space_back_bound(t: Seq<char>, o: int)
    requires
        0 <= o <= t.len(),
    ensures
        0 <= skip_space_back(t, o) <= o,
    decreases o,
{
    if 0 < o && is_space(t[o - 1]) {
        lemma_skip_space_back_bound(t, o - 1);
    }
}

pub proof fn lemma_word_bounds(t: Seq<char>, o: int)
    requires
        0 <= o <= t.len(),
    ensures
        o <= next_word_at(t, o) <= t.len(),
        0 <= prev_word_at(t, o) <= o,
{
    lemma_skip_word_fwd(t, o);
    lemma_skip_space_fwd(t, skip_word_fwd(t, o));
    lemma_skip_space_back_bound(t, o);
    lemma_skip_word_back_bound(t, skip_space_back(t, o));
}

/// From an offset on a word character, the next word's start and then the
/// previous word's start lead to the start of the word the offset was in.
pub proof fn lemma_next_then_prev_word(t: Seq<char>, o: int)
    requires
        0 <= o < t.len(),
        !is_space(t[o]),
    ensures
        prev_word_at(t, next_word_at(t, o)) == skip_word_back(t, o),
{
    lemma_skip_word_fwd(t, o);
    let e = skip_word_fwd(t, o);
    assert(e > o) by {
        assert(skip_word_fwd(t, o) == skip_word_fwd(t, o + 1));
        lemma_skip_word_fwd(t, o + 1);
    }
    lemma_skip_space_fwd(t, e);
    let w = skip_space_fwd(t, e);
    assert(!is_space(t[e - 1]));
    lemma_skip_space_back_over(t, e, w);
    lemma_skip_word_back_over(t, o, e);
}

/// `skip_word_back(t, o)` is the start of the word that offset `o` is in:
/// word characters from it up to `o`, and the text's start or whitespace
/// just before it.
pub proof fn lemma_word_start(t: Seq<char>, o: int)
    requires
        0 <= o <= t.len(),
    ensures
        0 <= skip_word_back(t, o) <= o,
        forall|i: int| skip_word_back(t, o) <= i < o ==> !is_space(#[trigger] t[i]),
        skip_word_back(t, o) == 0 || is_space(t[skip_word_back(t, o) - 1]),
    decreases o,
{
    if 0 < o && !is_space(t[o - 1]) {
        lemma_word_start(t, o - 1);
    }
}

/// Whether `s` occurs in `t` at offset `i`.
pub open spec fn occurs(t: Seq<char>, s: Seq<char>, i: int) -> bool {
    0 <= i && i + s.len() <= t.len() && t.subrange(i, i + s.len()) == s
}

/// The first offset at or after `i` where `s` occurs in `t`.
pub open spec fn find_fwd(t: Seq<char>, s: Seq<char>, i: int) -> Option<int>
    decreases t.len() + 1 - i,
{
    if i < 0 || i + s.len() > t.len() {
        None
    } else if occurs(t, s, i) {
        Some(i)
    } else {
        find_fwd(t, s, i + 1)
    }
}

/// The last offset at or before `i` where `s` occurs in `t`.
pub open spec fn find_back(t: Seq<char>, s: Seq<char>, i: int) -> Option<int>
    decreases i + 1,
{
    if i < 0 {
        None
    } else if occurs(t, s, i) {
        Some(i)
    } else {
        find_back(t, s, i - 1)
    }
}

pub proof fn lemma_find_fwd(t: Seq<char>, s: Seq<char>, i: int)
    requires
        0 <= i,
    ensures
        find_fwd(t, s, i) matches Some(q) ==> i <= q && occurs(t, s, q) && forall|j: int|
            i <= j < q ==> !#[trigger] occurs(t, s, j),
        find_fwd(t, s, i) is None ==> forall|j: int| i <= j ==> !#[trigger] occurs(t, s, j),
    decreases t.len() + 1 - i,
{
    if i + s.len() <= t.len() && !occurs(t, s, i) {
        lemma_find_fwd(t, s, i + 1);
    }
}

pub proof fn lemma_find_back(t: Seq<char>, s: Seq<char>, i: int)
    ensures
        find_back(t, s, i) matches Some(r) ==> 0 <= r <= i && occurs(t, s, r) && forall|j: int|
            r < j <= i ==> !#[trigger] occurs(t, s, j),
        find_back(t, s, i) is None ==> forall|j: int| j <= i ==> !#[trigger] occurs(t, s, j),
    decreases i + 1,
{
    if i >= 0 && !occurs(t, s, i) {
        lemma_find_back(t, s, i - 1);
    }
}

/// A forward search from `p` that stops at `q`, followed by a backward search
/// from `q`, stops at an occurrence before `q` wherever there is one, and at
/// `p` itself where `s` occurs at `p`.
pub proof fn lemma_search_back_after_fwd(t: Seq<char>, s: Seq<char>, p: int, q: int, j: int)
    requires
        0 <= p,
        find_fwd(t, s, p + 1) == Some(q),
        occurs(t, s, j),
        j < q,
    ensures
        find_back(t, s, q - 1) matches Some(r) && r < q && occurs(t, s, r) && j <= r,
        occurs(t, s, p) ==> find_back(t, s, q - 1) == Some(p),
{
    lemma_find_fwd(t, s, p + 1);
    lemma_find_back(t, s, q - 1);
}

} // verus!
