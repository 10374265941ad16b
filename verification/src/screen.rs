//! What a terminal shows, and what the renderer's output makes of it.

use crate::framebuffer::{FrameBuffer, Rgb, GB_HEIGHT, GB_WIDTH};
use crate::renderer;
use crate::renderer::{Canvas, Cell, Geometry, Op, Pen, RenderMode};
use vstd::prelude::*;

verus! {

/// A character terminal: the painted cells by 1-based row and column, the cursor
/// and the current colors.
pub struct Screen {
    pub cells: Map<(int, int), Cell>,
    pub row: int,
    pub col: int,
    pub fg: u8,
    pub bg: u8,
}

/// The terminal after one operation.
pub open spec fn played_one(t: Screen, op: Op) -> Screen {
    match op {
        Op::Clear => Screen { cells: Map::empty(), ..t },
        Op::Move(row, col) => Screen { row: row as int, col: col as int, ..t },
        Op::Fg(color) => Screen { fg: color, ..t },
        Op::Bg(color) => Screen { bg: color, ..t },
        Op::Glyph(ch) => Screen {
            cells: t.cells.insert((t.row, t.col), Cell { ch, fg: t.fg, bg: t.bg }),
            col: t.col + 1,
            ..t
        },
        Op::Reset => Screen { fg: renderer::UNSET, bg: renderer::UNSET, ..t },
    }
}

/// The terminal after a list of operations.
pub open spec fn played(t: Screen, ops: Seq<Op>) -> Screen
    decreases ops.len(),
{
    if ops.len() == 0 {
        t
    } else {
        played_one(played(t, ops.drop_last()), ops.last())
    }
}

/// Screen position of cell `k` of the image.
pub open spec fn place(g: Geometry, k: int) -> (int, int) {
    (renderer::row_of(g, k), renderer::col_of(g, k))
}

/// The terminal shows `frame` where it is known (a sentinel stands for a cell of
/// which nothing is known).
pub open spec fn shows(t: Screen, g: Geometry, frame: Seq<Cell>) -> bool {
    forall|k: int|
        #![trigger place(g, k)]
        0 <= k < frame.len() && frame[k] != renderer::sentinel() ==> t.cells.contains_pair(
            place(g, k),
            frame[k],
        )
}

/// The position belongs to the image.
pub open spec fn in_image(g: Geometry, p: (int, int)) -> bool {
    g.top < p.0 <= g.top + g.rows && g.left < p.1 <= g.left + g.cols
}

/// Two terminals show the same at a position.
pub open spec fn agree_at(t: Screen, u: Screen, p: (int, int)) -> bool {
    t.cells.contains_key(p) == u.cells.contains_key(p) && t.cells[p] == u.cells[p]
}

/// Every color of the frame is a palette color.
pub open spec fn is_colored(frame: Seq<Cell>) -> bool {
    forall|k: int|
        0 <= k < frame.len() ==> (#[trigger] frame[k]).fg != renderer::UNSET && frame[k].bg
            != renderer::UNSET
}

proof fn lemma_played_concat(t: Screen, a: Seq<Op>, b: Seq<Op>)
    ensures
        played(t, a + b) == played(played(t, a), b),
    decreases b.len(),
{
    if b.len() == 0 {
        assert(a + b == a);
    } else {
        lemma_played_concat(t, a, b.drop_last());
        assert((a + b).drop_last() == a + b.drop_last());
    }
}

proof fn lemma_played_single(t: Screen, op: Op)
    ensures
        played(t, seq![op]) == played_one(t, op),
{
    assert(seq![op].drop_last() == Seq::<Op>::empty());
    assert(played(t, Seq::<Op>::empty()) == t);
}

proof fn lemma_place(g: Geometry, k: int, n: int)
    requires
        renderer::is_placed(g),
        0 <= k < g.rows * g.cols,
        0 <= n < g.rows * g.cols,
    ensures
        in_image(g, place(g, k)),
        place(g, k) == place(g, n) ==> k == n,
{
    vstd::arithmetic::div_mod::lemma_fundamental_div_mod(k, g.cols);
    vstd::arithmetic::div_mod::lemma_fundamental_div_mod(n, g.cols);
    vstd::arithmetic::div_mod::lemma_mod_bound(k, g.cols);
    vstd::arithmetic::div_mod::lemma_mod_bound(n, g.cols);
    vstd::arithmetic::mul::lemma_mul_is_commutative(g.rows, g.cols);
    vstd::arithmetic::div_mod::lemma_multiply_divide_lt(k, g.cols, g.rows);
    vstd::arithmetic::div_mod::lemma_div_pos_is_pos(k, g.cols);
}

/// Within a row the next cell stands one column further.
proof fn lemma_next_place(g: Geometry, n: int)
    requires
        renderer::is_placed(g),
        0 < n,
        n % g.cols != 0,
    ensures
        place(g, n) == (place(g, n - 1).0, place(g, n - 1).1 + 1),
{
    let q = n / g.cols;
    let r = n % g.cols;
    vstd::arithmetic::div_mod::lemma_fundamental_div_mod(n, g.cols);
    vstd::arithmetic::div_mod::lemma_mod_bound(n, g.cols);
    assert(n - 1 == g.cols * q + (r - 1));
    vstd::arithmetic::mul::lemma_mul_is_commutative(g.cols, q);
    vstd::arithmetic::div_mod::lemma_fundamental_div_mod_converse(n - 1, g.cols, q, r - 1);
}

/// Painting one cell shows it at its place, and nothing else changes.
proof fn lemma_paint(t: Screen, pen: Pen, row: u16, col: u16, before: Cell, cell: Cell)
    requires
        pen.drawing ==> t.row == row && t.col == col,
        pen.fg != renderer::UNSET ==> t.fg == pen.fg,
        pen.bg != renderer::UNSET ==> t.bg == pen.bg,
        cell.fg != renderer::UNSET,
        cell.bg != renderer::UNSET,
        before != cell,
    ensures
        ({
            let after = played(t, renderer::paint_ops(pen, row, col, before, cell));
            &&& after.cells == t.cells.insert((row as int, col as int), cell)
            &&& after.row == row
            &&& after.col == col + 1
            &&& after.fg == cell.fg
            &&& after.bg == cell.bg
        }),
{
    let a: Seq<Op> = if pen.drawing {
        seq![]
    } else {
        seq![Op::Move(row, col)]
    };
    let b: Seq<Op> = if pen.fg == cell.fg {
        seq![]
    } else {
        seq![Op::Fg(cell.fg)]
    };
    let c: Seq<Op> = if pen.bg == cell.bg {
        seq![]
    } else {
        seq![Op::Bg(cell.bg)]
    };
    let d = seq![Op::Glyph(cell.ch)];
    lemma_played_concat(t, a + b + c, d);
    lemma_played_concat(t, a + b, c);
    lemma_played_concat(t, a, b);
    lemma_played_single(t, Op::Move(row, col));
    let ta = played(t, a);
    assert(played(t, Seq::<Op>::empty()) == t);
    assert(ta.row == row && ta.col == col);
    lemma_played_single(ta, Op::Fg(cell.fg));
    assert(played(ta, Seq::<Op>::empty()) == ta);
    let tb = played(ta, b);
    lemma_played_single(tb, Op::Bg(cell.bg));
    assert(played(tb, Seq::<Op>::empty()) == tb);
    let tc = played(tb, c);
    lemma_played_single(tc, Op::Glyph(cell.ch));
    assert(tc.fg == cell.fg && tc.bg == cell.bg);
}

/// Where the terminal stands after the first `n` cells.
spec fn caught_up(
    t: Screen,
    now: Screen,
    g: Geometry,
    pen: Pen,
    before: Seq<Cell>,
    cells: Seq<Cell>,
    n: int,
) -> bool {
    &&& pen.drawing ==> n > 0 && now.row == place(g, n - 1).0 && now.col == place(g, n - 1).1 + 1
    &&& pen.fg != renderer::UNSET ==> now.fg == pen.fg
    &&& pen.bg != renderer::UNSET ==> now.bg == pen.bg
    &&& forall|k: int|
        #![trigger place(g, k)]
        0 <= k < n ==> now.cells.contains_pair(place(g, k), cells[k])
    &&& forall|k: int|
        #![trigger place(g, k)]
        n <= k < cells.len() && before[k] != renderer::sentinel() ==> now.cells.contains_pair(
            place(g, k),
            before[k],
        )
    &&& forall|p: (int, int)| !in_image(g, p) ==> #[trigger] agree_at(t, now, p)
}

proof fn lemma_delta(
    t: Screen,
    g: Geometry,
    pen: Pen,
    before: Seq<Cell>,
    cells: Seq<Cell>,
    n: nat,
)
    requires
        renderer::is_placed(g),
        before.len() == cells.len(),
        cells.len() == g.rows * g.cols,
        n <= cells.len(),
        is_colored(cells),
        shows(t, g, before),
        !pen.drawing,
        pen.fg != renderer::UNSET ==> t.fg == pen.fg,
        pen.bg != renderer::UNSET ==> t.bg == pen.bg,
    ensures
        caught_up(
            t,
            played(t, renderer::delta_ops(g, pen, before, cells, n)),
            g,
            renderer::pen_through(g, pen, before, cells, n),
            before,
            cells,
            n as int,
        ),
    decreases n,
{
    if n > 0 {
        let m = (n - 1) as nat;
        lemma_delta(t, g, pen, before, cells, m);
        let had = renderer::delta_ops(g, pen, before, cells, m);
        let p = renderer::pen_through(g, pen, before, cells, m);
        let was = played(t, had);
        let sent = renderer::cell_ops(g, p, m as int, before[m as int], cells[m as int]);
        lemma_played_concat(t, had, sent);
        let now = played(was, sent);
        let here = place(g, m as int);
        lemma_place(g, m as int, m as int);
        if before[m as int] == cells[m as int] {
            assert(now == was);
            assert(cells[m as int].fg != renderer::UNSET);
            assert(now.cells.contains_pair(here, cells[m as int]));
        } else {
            let at = renderer::pen_at(g, p, m as int);
            if at.drawing {
                lemma_next_place(g, m as int);
            }
            assert(renderer::row_of(g, m as int) as u16 == here.0);
            assert(renderer::col_of(g, m as int) as u16 == here.1);
            lemma_paint(
                was,
                at,
                renderer::row_of(g, m as int) as u16,
                renderer::col_of(g, m as int) as u16,
                before[m as int],
                cells[m as int],
            );
            assert forall|k: int|
                #![trigger place(g, k)]
                0 <= k < n implies now.cells.contains_pair(place(g, k), cells[k]) by {
                lemma_place(g, k, m as int);
            }
            assert forall|k: int|
                #![trigger place(g, k)]
                n <= k < cells.len() && before[k]
                    != renderer::sentinel() implies now.cells.contains_pair(
                place(g, k),
                before[k],
            ) by {
                lemma_place(g, k, m as int);
            }
            assert forall|p: (int, int)| !in_image(g, p) implies #[trigger] agree_at(
                t,
                now,
                p,
            ) by {
                assert(agree_at(t, was, p));
            }
        }
        assert(caught_up(
            t,
            now,
            g,
            renderer::pen_through(g, pen, before, cells, n),
            before,
            cells,
            n as int,
        ));
    }
}

/// **The picture arrives.** When the terminal shows the last frame, playing what
/// the renderer sends for the next one makes it show that: every cell of the
/// image, with its glyph and colors. What stands outside the image is left alone,
/// or blanked when the frame starts with a clear.
pub proof fn law_frame_arrives(t: Screen, c: Canvas, cells: Seq<Cell>)
    requires
        renderer::is_placed(c.geometry),
        cells.len() == c.geometry.rows * c.geometry.cols,
        is_colored(cells),
        c.mode == RenderMode::Ascii ==> forall|k: int|
            0 <= k < cells.len() ==> (#[trigger] cells[k]).bg == renderer::BLACK,
        !c.needs_clear && !c.force_repaint ==> shows(t, c.geometry, c.shown),
    ensures
        ({
            let after = played(t, renderer::frame_ops(c, cells));
            &&& forall|k: int|
                #![trigger place(c.geometry, k)]
                0 <= k < cells.len() ==> after.cells.contains_pair(place(c.geometry, k), cells[k])
            &&& !c.needs_clear ==> forall|p: (int, int)|
                !in_image(c.geometry, p) ==> #[trigger] agree_at(t, after, p)
            &&& c.needs_clear ==> forall|p: (int, int)|
                !in_image(c.geometry, p) ==> !(#[trigger] after.cells.contains_key(p))
            &&& after.fg == renderer::UNSET
            &&& after.bg == renderer::UNSET
        }),
{
    let g = c.geometry;
    let start = renderer::frame_start(c.mode, c.needs_clear);
    let pen = renderer::first_pen(c.mode);
    let before = renderer::baseline(c);
    let delta = renderer::delta_ops(g, pen, before, cells, cells.len());
    assert(0 <= g.rows * g.cols) by (nonlinear_arith)
        requires
            1 <= g.rows,
            1 <= g.cols,
    ;
    lemma_played_concat(t, start + delta, seq![Op::Reset]);
    lemma_played_concat(t, start, delta);
    let a: Seq<Op> = if c.needs_clear {
        seq![Op::Clear]
    } else {
        seq![]
    };
    let b: Seq<Op> = match c.mode {
        RenderMode::Block => seq![],
        RenderMode::Ascii => seq![Op::Bg(renderer::BLACK)],
    };
    lemma_played_concat(t, a, b);
    lemma_played_single(t, Op::Clear);
    assert(played(t, Seq::<Op>::empty()) == t);
    let ta = played(t, a);
    lemma_played_single(ta, Op::Bg(renderer::BLACK));
    assert(played(ta, Seq::<Op>::empty()) == ta);
    let ts = played(t, start);
    assert(start == a + b);
    assert(ts.cells == ta.cells);
    assert(shows(ts, g, before));
    lemma_delta(ts, g, pen, before, cells, cells.len());
    let td = played(ts, delta);
    lemma_played_single(td, Op::Reset);
    assert forall|p: (int, int)| !in_image(g, p) implies agree_at(ts, played_one(td, Op::Reset), p)
        by {
        assert(agree_at(ts, td, p));
    }
    if c.needs_clear {
        let after = played(t, renderer::frame_ops(c, cells));
        assert forall|p: (int, int)| !in_image(g, p) implies !(
        #[trigger] after.cells.contains_key(p)) by {
            assert(agree_at(ts, td, p));
        }
    } else {
        let after = played(t, renderer::frame_ops(c, cells));
        assert forall|p: (int, int)| !in_image(g, p) implies #[trigger] agree_at(t, after, p) by {
            assert(agree_at(ts, td, p));
        }
    }
}

proof fn lemma_cube_index(r: int, g: int, b: int)
    requires
        0 <= r < 256,
        0 <= g < 256,
        0 <= b < 256,
    ensures
        16 <= renderer::cube_index(r, g, b) <= 231,
{
    assert(0 <= r * 6 / 256 <= 5);
    assert(0 <= g * 6 / 256 <= 5);
    assert(0 <= b * 6 / 256 <= 5);
}

proof fn lemma_cell_is_colored(mode: RenderMode, top: Rgb, bottom: Rgb)
    ensures
        16 <= renderer::cell_of(mode, top, bottom).fg <= 231,
        16 <= renderer::cell_of(mode, top, bottom).bg <= 231,
        mode == RenderMode::Ascii ==> renderer::cell_of(mode, top, bottom).bg == renderer::BLACK,
{
    lemma_cube_index(top.r as int, top.g as int, top.b as int);
    lemma_cube_index(bottom.r as int, bottom.g as int, bottom.b as int);
    lemma_cube_index((top.r + bottom.r) / 2, (top.g + bottom.g) / 2, (top.b + bottom.b) / 2);
}

/// Every composed cell has palette colors, so none is mistaken for an unknown
/// one; in ASCII mode every background is black.
pub proof fn law_composed_cells_are_colored(mode: RenderMode, fb: FrameBuffer, g: Geometry)
    ensures
        is_colored(renderer::composed(mode, fb, g)),
        mode == RenderMode::Ascii ==> forall|k: int|
            0 <= k < renderer::composed(mode, fb, g).len() ==> (#[trigger] renderer::composed(
                mode,
                fb,
                g,
            )[k]).bg == renderer::BLACK,
{
    let cells = renderer::composed(mode, fb, g);
    assert forall|k: int| 0 <= k < cells.len() implies (#[trigger] cells[k]).fg != renderer::UNSET
        && cells[k].bg != renderer::UNSET && (mode == RenderMode::Ascii ==> cells[k].bg
        == renderer::BLACK) by {
        lemma_cell_is_colored(
            mode,
            renderer::sample(fb, g, k % g.cols, 2 * (k / g.cols)),
            renderer::sample(fb, g, k % g.cols, 2 * (k / g.cols) + 1),
        );
    }
}

/// A full-size frame buffer covers the image at any geometry.
pub proof fn law_native_buffer_covers(fb: FrameBuffer, g: Geometry)
    requires
        renderer::is_placed(g),
        fb.width == GB_WIDTH,
        fb.pixels@.len() >= GB_WIDTH * GB_HEIGHT,
    ensures
        renderer::covers(fb, g),
{
    assert forall|j: int, s: int|
        #![trigger renderer::source_x(g, j), renderer::source_y(g, s)]
        0 <= j < g.cols && 0 <= s < 2 * g.rows implies renderer::source_y(g, s) * fb.width
        + renderer::source_x(g, j) < fb.pixels@.len() by {
        assert(j * 160 < g.cols * 160);
        vstd::arithmetic::div_mod::lemma_multiply_divide_lt(j * 160, g.cols, 160);
        vstd::arithmetic::div_mod::lemma_multiply_divide_lt(s * 144, 2 * g.rows, 144);
    }
}

/// What happens to a renderer and its terminal in the course of a session (apart
/// from the status line, which stands outside the image and is drawn by others).
pub enum Act {
    /// The terminal changes its size, and makes of its contents what it will.
    Resize { cols: u16, rows: u16, now: Screen },
    /// Something else was drawn, anywhere, and a clear is asked for.
    Clear { now: Screen },
    /// The image was spoiled on its way, and a repaint is asked for.
    Repaint { now: Screen },
    /// A frame is drawn.
    Frame { fb: FrameBuffer },
}

/// The terminal with its image (and its cursor and colors) spoiled.
pub open spec fn spoiled(t: Screen, g: Geometry, now: Screen) -> Screen {
    Screen {
        cells: Map::new(
            |p: (int, int)|
                if in_image(g, p) {
                    now.cells.contains_key(p)
                } else {
                    t.cells.contains_key(p)
                },
            |p: (int, int)|
                if in_image(g, p) {
                    now.cells[p]
                } else {
                    t.cells[p]
                },
        ),
        ..now
    }
}

/// The renderer and the terminal after one act.
pub open spec fn acted(c: Canvas, t: Screen, act: Act) -> (Canvas, Screen) {
    match act {
        Act::Resize { cols, rows, now } => (
            renderer::resized(c, cols as int, rows as int),
            if cols == 0 || rows == 0 {
                t
            } else {
                now
            },
        ),
        Act::Clear { now } => (renderer::clearing(c), now),
        Act::Repaint { now } => (renderer::repainting(c), spoiled(t, c.geometry, now)),
        Act::Frame { fb } => (
            renderer::drawn(c, fb),
            played(t, renderer::frame_ops(c, renderer::composed(c.mode, fb, c.geometry))),
        ),
    }
}

/// The renderer and the terminal after a whole session.
pub open spec fn session(c: Canvas, t: Screen, acts: Seq<Act>) -> (Canvas, Screen)
    decreases acts.len(),
{
    if acts.len() == 0 {
        (c, t)
    } else {
        let (before, u) = session(c, t, acts.drop_last());
        acted(before, u, acts.last())
    }
}

/// What the renderer takes to be on the terminal is there, and unless a clear is
/// due nothing stands outside the image.
pub open spec fn in_step(c: Canvas, t: Screen) -> bool {
    &&& renderer::is_placed(c.geometry)
    &&& !c.needs_clear && !c.force_repaint ==> shows(t, c.geometry, c.shown)
    &&& !c.needs_clear ==> forall|p: (int, int)|
        !in_image(c.geometry, p) ==> !(#[trigger] t.cells.contains_key(p))
}

/// The terminal shows the picture and nothing else: every cell of the image, and
/// none outside it.
pub open spec fn shows_only(t: Screen, g: Geometry, cells: Seq<Cell>) -> bool {
    &&& cells.len() == g.rows * g.cols
    &&& forall|k: int|
        #![trigger place(g, k)]
        0 <= k < cells.len() ==> t.cells.contains_pair(place(g, k), cells[k])
    &&& forall|p: (int, int)| !in_image(g, p) ==> !(#[trigger] t.cells.contains_key(p))
}

proof fn lemma_frame_is_clean(c: Canvas, t: Screen, fb: FrameBuffer)
    requires
        in_step(c, t),
    ensures
        ({
            let (d, u) = acted(c, t, Act::Frame { fb });
            &&& shows_only(u, c.geometry, renderer::composed(c.mode, fb, c.geometry))
            &&& in_step(d, u)
        }),
{
    let g = c.geometry;
    let cells = renderer::composed(c.mode, fb, g);
    assert(0 <= g.rows * g.cols) by (nonlinear_arith)
        requires
            1 <= g.rows,
            1 <= g.cols,
    ;
    law_composed_cells_are_colored(c.mode, fb, g);
    law_frame_arrives(t, c, cells);
    let u = played(t, renderer::frame_ops(c, cells));
    assert forall|p: (int, int)| !in_image(g, p) implies !(#[trigger] u.cells.contains_key(p)) by {
        if !c.needs_clear {
            assert(agree_at(t, u, p));
        }
    }
}

proof fn lemma_act_keeps_step(c: Canvas, t: Screen, act: Act)
    requires
        in_step(c, t),
    ensures
        in_step(acted(c, t, act).0, acted(c, t, act).1),
{
    match act {
        Act::Resize { cols, rows, now } => {
            if cols > 0 && rows > 0 {
                renderer::law_image_fits(cols as int, rows as int);
            }
        },
        Act::Clear { now } => {},
        Act::Repaint { now } => {},
        Act::Frame { fb } => {
            lemma_frame_is_clean(c, t, fb);
        },
    }
}

/// The renderer never loses step with the terminal, however resizes, clears,
/// repaints and frames follow each other.
pub proof fn law_session_stays_in_step(c: Canvas, t: Screen, acts: Seq<Act>)
    requires
        in_step(c, t),
    ensures
        in_step(session(c, t, acts).0, session(c, t, acts).1),
    decreases acts.len(),
{
    if acts.len() > 0 {
        law_session_stays_in_step(c, t, acts.drop_last());
        let (before, u) = session(c, t, acts.drop_last());
        lemma_act_keeps_step(before, u, acts.last());
    }
}

/// **No stale cell is left.** Whatever a new renderer finds on the terminal, and
/// after any sequence of resizes, clears, repaints and frames: once the next frame
/// is drawn the terminal shows exactly that, every cell of the image, and no cell
/// outside it.
pub proof fn law_no_stale_cell_is_left(
    mode: RenderMode,
    t: Screen,
    acts: Seq<Act>,
    fb: FrameBuffer,
)
    ensures
        ({
            let (c, u) = session(renderer::fresh(mode), t, acts.push(Act::Frame { fb }));
            shows_only(u, c.geometry, renderer::composed(c.mode, fb, c.geometry))
        }),
{
    let c = renderer::fresh(mode);
    law_session_stays_in_step(c, t, acts);
    let (before, u) = session(c, t, acts);
    let all = acts.push(Act::Frame { fb });
    assert(all.drop_last() == acts);
    lemma_frame_is_clean(before, u, fb);
}

/// The number of glyphs among the operations.
pub open spec fn glyphs(ops: Seq<Op>) -> nat
    decreases ops.len(),
{
    if ops.len() == 0 {
        0
    } else {
        glyphs(ops.drop_last()) + if ops.last() is Glyph {
            1nat
        } else {
            0nat
        }
    }
}

/// The number of cells, among the first `n`, in which two frames differ.
pub open spec fn differing(before: Seq<Cell>, cells: Seq<Cell>, n: nat) -> nat
    decreases n,
{
    if n == 0 {
        0
    } else {
        differing(before, cells, (n - 1) as nat) + if before[n - 1] == cells[n - 1] {
            0nat
        } else {
            1nat
        }
    }
}

proof fn lemma_glyphs_concat(a: Seq<Op>, b: Seq<Op>)
    ensures
        glyphs(a + b) == glyphs(a) + glyphs(b),
    decreases b.len(),
{
    if b.len() == 0 {
        assert(a + b == a);
    } else {
        lemma_glyphs_concat(a, b.drop_last());
        assert((a + b).drop_last() == a + b.drop_last());
    }
}

proof fn lemma_glyphs_of_paint(pen: Pen, row: u16, col: u16, before: Cell, cell: Cell)
    ensures
        glyphs(renderer::paint_ops(pen, row, col, before, cell)) == if before == cell {
            0nat
        } else {
            1nat
        },
{
    if before != cell {
        let a: Seq<Op> = if pen.drawing {
            seq![]
        } else {
            seq![Op::Move(row, col)]
        };
        let b: Seq<Op> = if pen.fg == cell.fg {
            seq![]
        } else {
            seq![Op::Fg(cell.fg)]
        };
        let c: Seq<Op> = if pen.bg == cell.bg {
            seq![]
        } else {
            seq![Op::Bg(cell.bg)]
        };
        let d = seq![Op::Glyph(cell.ch)];
        lemma_glyphs_concat(a + b + c, d);
        lemma_glyphs_concat(a + b, c);
        lemma_glyphs_concat(a, b);
        reveal_with_fuel(glyphs, 2);
        assert(seq![Op::Glyph(cell.ch)].drop_last() == Seq::<Op>::empty());
        assert(seq![Op::Move(row, col)].drop_last() == Seq::<Op>::empty());
        assert(seq![Op::Fg(cell.fg)].drop_last() == Seq::<Op>::empty());
        assert(seq![Op::Bg(cell.bg)].drop_last() == Seq::<Op>::empty());
    }
}

proof fn lemma_delta_glyphs(
    g: Geometry,
    pen: Pen,
    before: Seq<Cell>,
    cells: Seq<Cell>,
    n: nat,
)
    ensures
        glyphs(renderer::delta_ops(g, pen, before, cells, n)) == differing(before, cells, n),
    decreases n,
{
    if n > 0 {
        let m = (n - 1) as nat;
        lemma_delta_glyphs(g, pen, before, cells, m);
        let p = renderer::pen_through(g, pen, before, cells, m);
        let sent = renderer::cell_ops(g, p, m as int, before[m as int], cells[m as int]);
        lemma_glyphs_concat(renderer::delta_ops(g, pen, before, cells, m), sent);
        lemma_glyphs_of_paint(
            renderer::pen_at(g, p, m as int),
            renderer::row_of(g, m as int) as u16,
            renderer::col_of(g, m as int) as u16,
            before[m as int],
            cells[m as int],
        );
    }
}

/// A frame repaints exactly the cells that changed.
pub proof fn law_only_changes_are_painted(c: Canvas, cells: Seq<Cell>)
    ensures
        glyphs(renderer::frame_ops(c, cells)) == differing(
            renderer::baseline(c),
            cells,
            cells.len(),
        ),
{
    let start = renderer::frame_start(c.mode, c.needs_clear);
    let delta = renderer::delta_ops(
        c.geometry,
        renderer::first_pen(c.mode),
        renderer::baseline(c),
        cells,
        cells.len(),
    );
    lemma_glyphs_concat(start + delta, seq![Op::Reset]);
    lemma_glyphs_concat(start, delta);
    lemma_delta_glyphs(
        c.geometry,
        renderer::first_pen(c.mode),
        renderer::baseline(c),
        cells,
        cells.len(),
    );
    let a: Seq<Op> = if c.needs_clear {
        seq![Op::Clear]
    } else {
        seq![]
    };
    let b: Seq<Op> = match c.mode {
        RenderMode::Block => seq![],
        RenderMode::Ascii => seq![Op::Bg(renderer::BLACK)],
    };
    lemma_glyphs_concat(a, b);
    assert(start == a + b);
    reveal_with_fuel(glyphs, 2);
    assert(seq![Op::Clear].drop_last() == Seq::<Op>::empty());
    assert(seq![Op::Bg(renderer::BLACK)].drop_last() == Seq::<Op>::empty());
    assert(seq![Op::Reset].drop_last() == Seq::<Op>::empty());
}

proof fn lemma_all_differ(cells: Seq<Cell>, n: nat)
    requires
        is_colored(cells),
        n <= cells.len(),
    ensures
        differing(renderer::unknown(cells.len() as int), cells, n) == n,
    decreases n,
{
    if n > 0 {
        lemma_all_differ(cells, (n - 1) as nat);
        assert(cells[n - 1].fg != renderer::UNSET);
    }
}

/// After a clear, a resize or a keyframe request every cell is painted anew.
pub proof fn law_repaint_is_complete(c: Canvas, cells: Seq<Cell>)
    requires
        cells.len() == c.geometry.rows * c.geometry.cols,
        is_colored(cells),
        c.needs_clear || c.force_repaint || c.shown.len() != cells.len(),
    ensures
        glyphs(renderer::frame_ops(c, cells)) == cells.len(),
{
    law_only_changes_are_painted(c, cells);
    lemma_all_differ(cells, cells.len());
}

proof fn lemma_no_delta(g: Geometry, pen: Pen, cells: Seq<Cell>, n: nat)
    ensures
        renderer::delta_ops(g, pen, cells, cells, n) == Seq::<Op>::empty(),
    decreases n,
{
    if n > 0 {
        lemma_no_delta(g, pen, cells, (n - 1) as nat);
    }
}

/// An unchanged frame draws nothing: only the colors are set up and reset.
pub proof fn law_unchanged_frame_is_silent(c: Canvas)
    requires
        !c.needs_clear,
        !c.force_repaint,
        c.shown.len() == c.geometry.rows * c.geometry.cols,
    ensures
        renderer::frame_ops(c, c.shown) == (match c.mode {
            RenderMode::Block => seq![Op::Reset],
            RenderMode::Ascii => seq![Op::Bg(renderer::BLACK), Op::Reset],
        }),
{
    lemma_no_delta(c.geometry, renderer::first_pen(c.mode), c.shown, c.shown.len());
}

} // verus!
