//! Rendering a buffer through a view: a scale-aware map from screen cells to
//! buffer coordinates, drawn as text.

use vstd::prelude::*;

use crate::editor::{chars_to_string, Editor};
use crate::text::valid_pos;
use crate::vector::Vector2;

verus! {

/// View coordinates per screen cell: a view location is kept in thousandths
/// of a cell, so that zooming can leave it between cells.
pub const UNIT: i64 = 1000;

/// Scale units per 1.0: a scale is kept in tenths.
pub const SCALE_ONE: u32 = 10;

/// The largest distance from the origin, in view coordinates, of a view's location.
pub const LOC_LIMIT: i64 = 1_000_000_000_000;

/// A rectangle of the screen grid placed over the buffer: its location is in
/// view coordinates (`UNIT` per cell), its size in cells.
#[derive(Clone, Copy, Debug, PartialEq, Eq, Structural)]
pub struct Rect {
    pub location: Vector2<i64>,
    pub width: i32,
    pub height: i32,
}

/// The view and the scale at which buffer content is drawn.
#[derive(Clone, Copy, Debug, PartialEq, Eq, Structural)]
pub struct RenderOpts {
    pub view: Rect,
    /// Buffer cells per screen cell, in tenths.
    pub scale: u32,
}

/// `a / d` rounded down, for a positive `d`.
fn floor_div(a: i128, d: i128) -> (r: i128)
    requires
        d > 0,
        -0x1000_0000_0000_0000_0000_0000_0000 < a < 0x1000_0000_0000_0000_0000_0000_0000,
        d <= 0xffff_ffff,
    ensures
        r == a / d,
{
    if a >= 0 {
        a / d
    } else {
        let n = -a + d - 1;
        let q = n / d;
        assert(q * d <= n < q * d + d) by (nonlinear_arith)
            requires
                q == n / d,
                d > 0,
                n >= 0,
        ;
        assert(-q * d <= a < -q * d + d) by (nonlinear_arith)
            requires
                q * d <= n < q * d + d,
                n == -a + d - 1,
        ;
        assert(-q == a / d) by (nonlinear_arith)
            requires
                -q * d <= a < -q * d + d,
                d > 0,
        ;
        -q
    }
}

/// The cell nearest to view coordinate `l`, halves rounded away from zero.
pub open spec fn round_units(l: int) -> int {
    if l >= 0 {
        (l + UNIT / 2) / UNIT as int
    } else {
        -((-l + UNIT / 2) / UNIT as int)
    }
}

/// The buffer coordinate shown at view coordinate `v` (in `UNIT`s per cell)
/// at `scale` (in tenths), rounded down.
pub open spec fn to_buffer(v: int, scale: int) -> int {
    (v * scale) / (UNIT * SCALE_ONE) as int
}

/// The character at column `x` of row `y`, if there is one.
pub open spec fn cell_char(rows: Seq<Seq<char>>, x: int, y: int) -> Option<char> {
    if 0 <= y < rows.len() && 0 <= x < rows[y].len() {
        Some(rows[y][x])
    } else {
        None
    }
}

/// Screen columns `c` to `w` of a screen row showing buffer row `by`, for a
/// view whose left edge is at view coordinate `x0`: the character of each
/// column's buffer cell, or a blank where there is none; with `brk`, a
/// missing character past screen column 0 ends the row.
pub open spec fn screen_row(
    rows: Seq<Seq<char>>,
    by: int,
    x0: int,
    w: int,
    scale: int,
    brk: bool,
    c: int,
) -> Seq<char>
    decreases w - c,
{
    if c >= w {
        Seq::empty()
    } else {
        match cell_char(rows, to_buffer(x0 + c * UNIT, scale), by) {
            Some(ch) => seq![ch] + screen_row(rows, by, x0, w, scale, brk, c + 1),
            None => if brk && c > 0 {
                Seq::empty()
            } else {
                seq![' '] + screen_row(rows, by, x0, w, scale, brk, c + 1)
            },
        }
    }
}

/// Screen rows `r` to `h` of a view whose top-left corner is at view
/// coordinates (`x0`, `y0`), each followed by `'\n'`.
pub open spec fn frame(
    rows: Seq<Seq<char>>,
    x0: int,
    y0: int,
    w: int,
    h: int,
    scale: int,
    brk: bool,
    r: int,
) -> Seq<char>
    decreases h - r,
{
    if r >= h {
        Seq::empty()
    } else {
        screen_row(rows, to_buffer(y0 + r * UNIT, scale), x0, w, scale, brk, 0) + seq!['\n'] + frame(
            rows,
            x0,
            y0,
            w,
            h,
            scale,
            brk,
            r + 1,
        )
    }
}

/// What a renderer with `line_hint` and `brk` draws of `rows` through `opts`:
/// the whole view, or only the hinted buffer row.
pub open spec fn rendered(
    rows: Seq<Seq<char>>,
    line_hint: Option<i32>,
    brk: bool,
    opts: RenderOpts,
) -> Seq<char> {
    let loc = opts.view.location;
    match line_hint {
        Some(l) => screen_row(
            rows,
            l as int,
            loc.0 as int,
            opts.view.width as int,
            opts.scale as int,
            brk,
            0,
        ) + seq!['\n'],
        None => frame(
            rows,
            loc.0 as int,
            loc.1 as int,
            opts.view.width as int,
            opts.view.height as int,
            opts.scale as int,
            brk,
            0,
        ),
    }
}

/// The cell nearest to view coordinate `l`.
pub fn round_to_cell(l: i64) -> (r: i64)
    ensures
        r == round_units(l as int),
{
    if l >= 0 {
        ((l as i128 + 500) / 1000) as i64
    } else {
        (-((-(l as i128) + 500) / 1000)) as i64
    }
}

/// Whether a view's location is within `LOC_LIMIT` of the origin.
pub open spec fn opts_wf(o: RenderOpts) -> bool {
    &&& -LOC_LIMIT <= o.view.location.0 <= LOC_LIMIT
    &&& -LOC_LIMIT <= o.view.location.1 <= LOC_LIMIT
}

pub open spec fn clamp_loc(v: int) -> int {
    if v < -LOC_LIMIT {
        -LOC_LIMIT as int
    } else if v > LOC_LIMIT {
        LOC_LIMIT as int
    } else {
        v
    }
}

/// `p` taken from `scale` to `scale2`: `p * scale / scale2`, rounded down.
pub open spec fn transformed(p: int, scale: int, scale2: int) -> int {
    (p * scale) / scale2
}

/// Where a view of `opts` moves when its scale becomes `s2`: the view-space
/// point at its center is taken through the scale ratio, and the view is
/// placed so that the new point is at its center (kept within `LOC_LIMIT`).
pub open spec fn rescaled_location(opts: RenderOpts, s2: int) -> Vector2<i64> {
    let cx = opts.view.location.0 + opts.view.width * UNIT / 2;
    let cy = opts.view.location.1 + opts.view.height * UNIT / 2;
    Vector2(
        clamp_loc(transformed(cx, opts.scale as int, s2) - opts.view.width * UNIT / 2) as i64,
        clamp_loc(transformed(cy, opts.scale as int, s2) - opts.view.height * UNIT / 2) as i64,
    )
}

/// Finds where a view coordinate lies when content drawn at `scale` is drawn
/// at `scale2` instead.
pub fn transform_view_coordinates(p: Vector2<i64>, scale: u32, scale2: u32) -> (r: Vector2<i128>)
    requires
        0 < scale2,
    ensures
        r.0 == transformed(p.0 as int, scale as int, scale2 as int),
        r.1 == transformed(p.1 as int, scale as int, scale2 as int),
{
    let px = p.0 as i128;
    let py = p.1 as i128;
    let s = scale as i128;
    proof {
        lemma_product_bound(px as int, s as int);
        lemma_product_bound(py as int, s as int);
    }
    let x = floor_div(px * s, scale2 as i128);
    let y = floor_div(py * s, scale2 as i128);
    Vector2(x, y)
}

/// A view coordinate (with up to `2^41` added) times a scale stays far
/// within `i128`.
proof fn lemma_product_bound(v: int, s: int)
    requires
        -0x8100_0000_0000_0000 <= v <= 0x8100_0000_0000_0000,
        0 <= s <= 0xffff_ffff,
    ensures
        -0x1_0000_0000_0000_0000_0000_0000 <= v * s <= 0x1_0000_0000_0000_0000_0000_0000,
{
    assert(-0x1_0000_0000_0000_0000_0000_0000 <= v * s <= 0x1_0000_0000_0000_0000_0000_0000) by (nonlinear_arith)
        requires
            -0x8100_0000_0000_0000 <= v <= 0x8100_0000_0000_0000,
            0 <= s <= 0xffff_ffff,
    ;
}

/// `v` kept within `LOC_LIMIT` of the origin.
pub fn clamp_units(v: i128) -> (r: i64)
    ensures
        r == clamp_loc(v as int),
{
    if v < -(LOC_LIMIT as i128) {
        -LOC_LIMIT
    } else if v > LOC_LIMIT as i128 {
        LOC_LIMIT
    } else {
        v as i64
    }
}

proof fn lemma_transformed_shrinks(m: int, s2: int)
    requires
        0 < s2,
        -0x1_0000_0000_0000_0000_0000_0000 <= m <= 0x1_0000_0000_0000_0000_0000_0000,
    ensures
        -0x1_0000_0000_0000_0000_0000_0000 <= m / s2 <= 0x1_0000_0000_0000_0000_0000_0000,
{
    assert(-0x1_0000_0000_0000_0000_0000_0000 <= m / s2 <= 0x1_0000_0000_0000_0000_0000_0000) by (nonlinear_arith)
        requires
            -0x1_0000_0000_0000_0000_0000_0000 <= m <= 0x1_0000_0000_0000_0000_0000_0000,
            0 < s2,
    ;
}

impl RenderOpts {
    /// Changes the scale to `s2` and moves the view so that the point at its
    /// center stays at its center.
    pub fn set_scale(&mut self, s2: u32)
        requires
            opts_wf(*old(self)),
            0 < s2,
        ensures
            opts_wf(*final(self)),
            final(self).scale == s2,
            final(self).view.width == old(self).view.width,
            final(self).view.height == old(self).view.height,
            final(self).view.location == rescaled_location(*old(self), s2 as int),
    {
        let c1 = self.view.center_point();
        let c2 = transform_view_coordinates(c1, self.scale, s2);
        let half = self.view.center();
        proof {
            lemma_product_bound(c1.0 as int, self.scale as int);
            lemma_product_bound(c1.1 as int, self.scale as int);
            lemma_transformed_shrinks(c1.0 as int * self.scale as int, s2 as int);
            lemma_transformed_shrinks(c1.1 as int * self.scale as int, s2 as int);
        }
        let x = clamp_units(c2.0 - half.0 as i128);
        let y = clamp_units(c2.1 - half.1 as i128);
        self.view.location = Vector2(x, y);
        self.scale = s2;
    }
}

impl RenderOpts {
    /// An empty view at the origin, at scale 1.
    pub open spec fn default_spec() -> RenderOpts {
        RenderOpts {
            view: Rect { location: Vector2(0i64, 0i64), width: 0i32, height: 0i32 },
            scale: SCALE_ONE,
        }
    }

    /// An empty view at the origin, at scale 1.
    pub fn new_default() -> (r: RenderOpts)
        ensures
            r == RenderOpts::default_spec(),
    {
        RenderOpts {
            view: Rect { location: Vector2(0, 0), width: 0, height: 0 },
            scale: SCALE_ONE,
        }
    }
}

impl Default for RenderOpts {
    /// An empty view at the origin, at scale 1.
    fn default() -> (r: RenderOpts)
        ensures
            r == RenderOpts::default_spec(),
    {
        RenderOpts::new_default()
    }
}

/// Draws a buffer through a view.
pub trait Renderer {
    type Output;

    fn render(&self, editor: &Editor, opts: RenderOpts) -> Self::Output
        requires
            editor.wf(),
    ;
}

/// Draws a buffer as text.
#[derive(Clone, Copy, Debug, PartialEq, Eq, Structural)]
pub struct StringRenderer {
    /// Draw only this row.
    pub line_hint: Option<i32>,
    /// Stop a row at the first missing character past buffer column 0.
    pub break_on_line_end: bool,
}

/// The character at buffer cell (`bx`, `by`), if there is one.
fn cell_at(editor: &Editor, bx: i128, by: i128) -> (r: Option<char>)
    requires
        editor.wf(),
    ensures
        r == cell_char(editor.lines(), bx as int, by as int),
{
    if bx < 0 || by < 0 || bx > 0x7fff_ffff || by > 0x7fff_ffff {
        proof {
            editor.lemma_bounds();
        }
        return None;
    }
    match editor.get_cell(Vector2(bx as i32, by as i32)) {
        Some(c) => Some(c.char),
        None => None,
    }
}

impl StringRenderer {
    /// A renderer of the whole view.
    pub fn new() -> (r: StringRenderer)
        ensures
            r.line_hint is None,
            !r.break_on_line_end,
    {
        StringRenderer { line_hint: None, break_on_line_end: false }
    }

    /// A renderer of row `line` only.
    pub fn with_line_hint(line: i32) -> (r: StringRenderer)
        ensures
            r.line_hint == Some(line),
            !r.break_on_line_end,
    {
        StringRenderer { line_hint: Some(line), break_on_line_end: false }
    }

    /// Draws `editor` through `opts`: for each screen row (only the hinted
    /// buffer row, with a line hint) and each screen column, the buffer cell
    /// at the scaled coordinates, or a blank; each row ends in `'\n'`.
    pub fn render(&self, editor: &Editor, opts: RenderOpts) -> (r: String)
        requires
            editor.wf(),
        ensures
            r@ == rendered(editor.lines(), self.line_hint, self.break_on_line_end, opts),
    {
        let ghost rows = editor.lines();
        let brk = self.break_on_line_end;
        let x0 = opts.view.location.0 as i128;
        let y0 = opts.view.location.1 as i128;
        let w = opts.view.width as i128;
        let mut out: Vec<char> = Vec::new();
        match self.line_hint {
            Some(l) => {
                self.draw_row(editor, &mut out, l as i128, x0, w, opts.scale);
                out.push('\n');
                assert(out@ =~= rendered(rows, self.line_hint, brk, opts));
            },
            None => {
                let h = opts.view.height as i128;
                let ghost whole = frame(rows, x0 as int, y0 as int, w as int, h as int, opts.scale as int, brk, 0);
                let mut r: i128 = 0;
                while r < h
                    invariant
                        editor.wf(),
                        rows == editor.lines(),
                        brk == self.break_on_line_end,
                        0 <= r,
                        h < 0x8000_0000,
                        -0x8000_0000 <= w < 0x8000_0000,
                        -0x8000_0000_0000_0000 <= x0 < 0x8000_0000_0000_0000,
                        -0x8000_0000_0000_0000 <= y0 < 0x8000_0000_0000_0000,
                        out@ + frame(rows, x0 as int, y0 as int, w as int, h as int, opts.scale as int, brk, r as int) == whole,
                    decreases h - r,
                {
                    let ghost base = out@;
                    let vy = y0 + r * 1000;
                    let s = opts.scale as i128;
                    proof {
                        lemma_product_bound(vy as int, s as int);
                    }
                    let by = floor_div(vy * s, 10000);
                    self.draw_row(editor, &mut out, by, x0, w, opts.scale);
                    out.push('\n');
                    let ghost next = frame(rows, x0 as int, y0 as int, w as int, h as int, opts.scale as int, brk, r + 1);
                    let ghost row = screen_row(rows, by as int, x0 as int, w as int, opts.scale as int, brk, 0);
                    assert(out@ + next =~= base + (row + seq!['\n'] + next));
                    r = r + 1;
                }
                assert(out@ =~= out@ + Seq::<char>::empty());
            },
        }
        chars_to_string(&out)
    }

    /// Appends one screen row showing buffer row `by`.
    fn draw_row(&self, editor: &Editor, out: &mut Vec<char>, by: i128, x0: i128, w: i128, scale: u32)
        requires
            editor.wf(),
            -0x8000_0000_0000_0000 <= x0 < 0x8000_0000_0000_0000,
            -0x8000_0000 <= w < 0x8000_0000,
        ensures
            final(out)@ == old(out)@ + screen_row(
                editor.lines(),
                by as int,
                x0 as int,
                w as int,
                scale as int,
                self.break_on_line_end,
                0,
            ),
    {
        let ghost rows = editor.lines();
        let ghost base = old(out)@;
        let brk = self.break_on_line_end;
        let ghost row = screen_row(rows, by as int, x0 as int, w as int, scale as int, brk, 0);
        let s = scale as i128;
        let mut c: i128 = 0;
        let mut stopped = false;
        while c < w && !stopped
            invariant
                editor.wf(),
                rows == editor.lines(),
                brk == self.break_on_line_end,
                0 <= c,
                c <= w || c == 0,
                -0x8000_0000 <= w < 0x8000_0000,
                s == scale as i128,
                0 <= s <= 0xffff_ffff,
                -0x8000_0000_0000_0000 <= x0 < 0x8000_0000_0000_0000,
                stopped ==> out@ == base + row,
                !stopped ==> out@ + screen_row(rows, by as int, x0 as int, w as int, scale as int, brk, c as int) == base + row,
            decreases w - c + (if stopped { 0int } else { 1int }),
        {
            let vx = x0 + c * 1000;
            proof {
                lemma_product_bound(vx as int, s as int);
            }
            let bx = floor_div(vx * s, 10000);
            let ghost rest = screen_row(rows, by as int, x0 as int, w as int, scale as int, brk, c + 1);
            match cell_at(editor, bx, by) {
                Some(ch) => {
                    out.push(ch);
                    assert(out@ + rest =~= base + row);
                    c = c + 1;
                },
                None => {
                    if brk && c > 0 {
                        stopped = true;
                    } else {
                        out.push(' ');
                        assert(out@ + rest =~= base + row);
                        c = c + 1;
                    }
                },
            }
        }
        if !stopped {
            assert(out@ =~= out@ + Seq::<char>::empty());
        }
    }
}

impl Renderer for StringRenderer {
    type Output = String;

    fn render(&self, editor: &Editor, opts: RenderOpts) -> String {
        StringRenderer::render(self, editor, opts)
    }
}

impl Rect {
    /// Number of cells.
    pub fn area(&self) -> (r: i64)
        ensures
            r == self.width * self.height,
    {
        let w = self.width as i64;
        let h = self.height as i64;
        assert(-0x8000_0000_0000_0000 <= w * h <= 0x7fff_ffff_ffff_ffff) by (nonlinear_arith)
            requires
                -0x8000_0000 <= w <= 0x7fff_ffff,
                -0x8000_0000 <= h <= 0x7fff_ffff,
        ;
        w * h
    }

    pub fn x(&self) -> (r: i64)
        ensures
            r == self.location.0,
    {
        self.location.0
    }

    pub fn y(&self) -> (r: i64)
        ensures
            r == self.location.1,
    {
        self.location.1
    }

    /// Whether the rectangle covers buffer cell `p`, at scale 1.
    pub fn contains(&self, p: Vector2<i32>) -> (r: bool)
        ensures
            r == (self.location.0 <= p.0 * UNIT < self.location.0 + self.width * UNIT
                && self.location.1 <= p.1 * UNIT < self.location.1 + self.height * UNIT),
    {
        let px = p.0 as i128 * 1000;
        let py = p.1 as i128 * 1000;
        let lx = self.location.0 as i128;
        let ly = self.location.1 as i128;
        lx <= px && px < lx + self.width as i128 * 1000 && ly <= py && py < ly
            + self.height as i128 * 1000
    }

    /// Half the size, in view coordinates.
    pub fn center(&self) -> (r: Vector2<i64>)
        ensures
            r.0 == self.width * UNIT / 2,
            r.1 == self.height * UNIT / 2,
    {
        Vector2(self.width as i64 * 500, self.height as i64 * 500)
    }

    /// The middle of the rectangle, in view coordinates.
    pub fn center_point(&self) -> (r: Vector2<i64>)
        requires
            -LOC_LIMIT <= self.location.0 <= LOC_LIMIT,
            -LOC_LIMIT <= self.location.1 <= LOC_LIMIT,
        ensures
            r.0 == self.location.0 + self.width * UNIT / 2,
            r.1 == self.location.1 + self.height * UNIT / 2,
    {
        self.location.add(self.center())
    }
}

} // verus!
