//! Draw the emulated screen on a character terminal.
//!
//! A frame is composed into one `Cell` per terminal cell and sent as the
//! difference to the last frame: changed cells are repainted, unchanged runs are
//! skipped with a cursor move. What is sent is a list of drawing operations
//! (`Op`), each with its byte encoding.

use crate::framebuffer;
use crate::framebuffer::{FrameBuffer, Rgb, GB_HEIGHT, GB_WIDTH};
use crate::text;
use vstd::prelude::*;

verus! {

/// Native Game Boy terminal rows (144 pixels / 2 for half-block = 72)
pub const NATIVE_COLS: u16 = 160;

pub const NATIVE_ROWS: u16 = 72;

/// ASCII character palette (ordered by brightness, dark to light):
/// `` .'`^",:;Il!i><~+_-?][}{1)(|\/tfjrxnuvczXYUJCLQ0OZmwqpdbkhao*#MW&8%B@$``
pub const ASCII_CHARS: [u8; 70] = [
    32, 46, 39, 96, 94, 34, 44, 58, 59, 73, 108, 33, 105, 62, 60, 126, 43, 95, 45, 63, 93, 91, 125,
    123, 49, 41, 40, 124, 92, 47, 116, 102, 106, 114, 120, 110, 117, 118, 99, 122, 88, 89, 85, 74,
    67, 76, 81, 48, 79, 90, 109, 119, 113, 112, 100, 98, 107, 104, 97, 111, 42, 35, 77, 87, 38, 56,
    37, 66, 64, 36,
];

#[derive(Clone, Copy, PartialEq, Eq, Debug, Structural)]
pub enum RenderMode {
    Ascii,
    Block,
}

/// One terminal cell of the last frame transmitted. Block mode keys on (fg, bg)
/// with `ch` fixed to the half-block; ASCII mode keys on (ch, fg) with `bg` fixed
/// to black. Storing all three lets both modes share one cache.
#[derive(Clone, Copy, PartialEq, Eq, Debug, Structural)]
pub struct Cell {
    pub ch: u8,
    pub fg: u8,
    pub bg: u8,
}

/// A value no real cell can take (colors are 16..=231 and a drawn glyph is 0xDF or
/// printable ASCII), so an invalidated cache forces every cell to repaint.
pub open spec fn sentinel() -> Cell {
    Cell { ch: 0, fg: 255, bg: 255 }
}

/// CP437 byte for ▀ (upper half block). Synchronet treats door output as CP437:
/// this byte passes through to CP437 clients and is mapped to U+2580 for UTF-8
/// clients. Emitting the raw UTF-8 ▀ instead would garble on both.
pub const HALF_BLOCK: u8 = 0xDF;

/// Palette index of black.
pub const BLACK: u8 = 16;

/// A palette index that no color takes: the color of an unset pen.
pub const UNSET: u8 = 255;

pub struct RenderConfig {
    pub mode: RenderMode,
}

// ---------------------------------------------------------------------------
// Drawing operations
// ---------------------------------------------------------------------------

/// One drawing operation of a terminal.
#[derive(Clone, Copy, PartialEq, Eq, Debug, Structural)]
pub enum Op {
    /// Blank the whole screen.
    Clear,
    /// Put the cursor at a 1-based row and column.
    Move(u16, u16),
    /// Set the foreground to a 256-color index.
    Fg(u8),
    /// Set the background to a 256-color index.
    Bg(u8),
    /// Print one glyph and advance the cursor.
    Glyph(u8),
    /// Back to default colors.
    Reset,
}

/// The bytes of an operation.
pub open spec fn op_bytes(op: Op) -> Seq<u8> {
    match op {
        Op::Clear => text::bytes_of("\x1b[2J"@),
        Op::Move(row, col) => text::bytes_of("\x1b["@) + text::bytes_of(text::decimal(row as nat))
            + text::bytes_of(";"@) + text::bytes_of(text::decimal(col as nat)) + text::bytes_of(
            "H"@,
        ),
        Op::Fg(color) => text::bytes_of("\x1b[38;5;"@) + text::bytes_of(
            text::decimal(color as nat),
        ) + text::bytes_of("m"@),
        Op::Bg(color) => text::bytes_of("\x1b[48;5;"@) + text::bytes_of(
            text::decimal(color as nat),
        ) + text::bytes_of("m"@),
        Op::Glyph(ch) => seq![ch],
        Op::Reset => text::bytes_of("\x1b[0m"@),
    }
}

/// The bytes of a list of operations.
pub open spec fn ops_bytes(ops: Seq<Op>) -> Seq<u8>
    decreases ops.len(),
{
    if ops.len() == 0 {
        Seq::empty()
    } else {
        ops_bytes(ops.drop_last()) + op_bytes(ops.last())
    }
}

/// Append an operation to the output.
fn emit(out: &mut Vec<u8>, op: Op)
    ensures
        final(out)@ == old(out)@ + op_bytes(op),
{
    match op {
        Op::Clear => text::push_bytes(out, "\x1b[2J"),
        Op::Move(row, col) => {
            text::push_bytes(out, "\x1b[");
            text::push_decimal_bytes(out, row as u64);
            text::push_bytes(out, ";");
            text::push_decimal_bytes(out, col as u64);
            text::push_bytes(out, "H");
        },
        Op::Fg(color) => {
            text::push_bytes(out, "\x1b[38;5;");
            text::push_decimal_bytes(out, color as u64);
            text::push_bytes(out, "m");
        },
        Op::Bg(color) => {
            text::push_bytes(out, "\x1b[48;5;");
            text::push_decimal_bytes(out, color as u64);
            text::push_bytes(out, "m");
        },
        Op::Glyph(ch) => out.push(ch),
        Op::Reset => text::push_bytes(out, "\x1b[0m"),
    }
    assert(out@ == old(out)@ + op_bytes(op));
}

proof fn lemma_ops_bytes_push(ops: Seq<Op>, op: Op)
    ensures
        ops_bytes(ops.push(op)) == ops_bytes(ops) + op_bytes(op),
{
    assert(ops.push(op).drop_last() == ops);
}

// ---------------------------------------------------------------------------
// Geometry
// ---------------------------------------------------------------------------

/// Where the image stands on the terminal, in cells.
pub struct Geometry {
    pub cols: int,
    pub rows: int,
    pub left: int,
    pub top: int,
}

/// The geometry before any terminal size is known: native size.
pub open spec fn native() -> Geometry {
    Geometry { cols: 160, rows: 72, left: 0, top: 0 }
}

/// Rows for the image: one is kept for the status line below it.
pub open spec fn usable_rows(rows: int) -> int {
    if rows <= 2 {
        1
    } else {
        rows - 1
    }
}

pub open spec fn at_least_one(n: int) -> int {
    if n < 1 {
        1
    } else {
        n
    }
}

/// The largest image of native proportions (160 columns to 72 rows) that fits,
/// rounded to whole cells, centered.
pub open spec fn fitted(cols: int, rows: int) -> Geometry {
    let usable = usable_rows(rows);
    let (c, r) = if cols * 72 <= usable * 160 {
        // width decides: 72/160 of it, rounded half up
        (cols, at_least_one((cols * 9 + 10) / 20))
    } else {
        // height decides: 160/72 of it, rounded to nearest
        (at_least_one((usable * 40 + 9) / 18), usable)
    };
    Geometry { cols: c, rows: r, left: (cols - c) / 2, top: (usable - r) / 2 }
}

/// An image that stands on a terminal with 16-bit coordinates.
pub open spec fn is_placed(g: Geometry) -> bool {
    &&& 1 <= g.cols
    &&& 1 <= g.rows
    &&& 0 <= g.left
    &&& 0 <= g.top
    &&& g.left + g.cols <= 0xffff
    &&& g.top + g.rows <= 0xffff
}

/// Source column of an image column (nearest neighbor).
pub open spec fn source_x(g: Geometry, j: int) -> int {
    j * 160 / g.cols
}

/// Source row of an image subpixel row (two to a cell).
pub open spec fn source_y(g: Geometry, s: int) -> int {
    s * 144 / (2 * g.rows)
}

/// The pixel that an image column and subpixel row show.
pub open spec fn sample(fb: FrameBuffer, g: Geometry, j: int, s: int) -> Rgb {
    fb.pixels@[source_y(g, s) * fb.width + source_x(g, j)]
}

/// Every pixel that the image shows is there.
pub open spec fn covers(fb: FrameBuffer, g: Geometry) -> bool {
    forall|j: int, s: int|
        #![trigger source_x(g, j), source_y(g, s)]
        0 <= j < g.cols && 0 <= s < 2 * g.rows ==> source_y(g, s) * fb.width + source_x(g, j)
            < fb.pixels@.len()
}

// ---------------------------------------------------------------------------
// Cells
// ---------------------------------------------------------------------------

/// 256-color palette index of a color (6x6x6 color cube: indices 16-231).
pub open spec fn cube_index(r: int, g: int, b: int) -> int {
    16 + 36 * (r * 6 / 256) + 6 * (g * 6 / 256) + b * 6 / 256
}

/// The cell that shows two pixels, one above the other.
pub open spec fn cell_of(mode: RenderMode, top: Rgb, bottom: Rgb) -> Cell {
    match mode {
        RenderMode::Block => Cell {
            ch: HALF_BLOCK,
            fg: cube_index(top.r as int, top.g as int, top.b as int) as u8,
            bg: cube_index(bottom.r as int, bottom.g as int, bottom.b as int) as u8,
        },
        RenderMode::Ascii => Cell {
            ch: ASCII_CHARS@[((framebuffer::grey_of(top) + framebuffer::grey_of(bottom)) / 2) * 69
                / 255],
            fg: cube_index(
                (top.r + bottom.r) / 2,
                (top.g + bottom.g) / 2,
                (top.b + bottom.b) / 2,
            ) as u8,
            bg: BLACK,
        },
    }
}

/// The whole image, row by row.
pub open spec fn composed(mode: RenderMode, fb: FrameBuffer, g: Geometry) -> Seq<Cell> {
    Seq::new(
        (g.rows * g.cols) as nat,
        |k: int|
            cell_of(
                mode,
                sample(fb, g, k % g.cols, 2 * (k / g.cols)),
                sample(fb, g, k % g.cols, 2 * (k / g.cols) + 1),
            ),
    )
}

// ---------------------------------------------------------------------------
// Delta encoding
// ---------------------------------------------------------------------------

/// What the encoder knows of the terminal: the colors it set, and whether the
/// cursor stands where the next cell goes.
#[derive(Clone, Copy, PartialEq, Eq, Debug, Structural)]
pub struct Pen {
    pub fg: u8,
    pub bg: u8,
    pub drawing: bool,
}

/// 1-based terminal row of cell `k`.
pub open spec fn row_of(g: Geometry, k: int) -> int {
    g.top + k / g.cols + 1
}

/// 1-based terminal column of cell `k`.
pub open spec fn col_of(g: Geometry, k: int) -> int {
    g.left + 1 + k % g.cols
}

/// The pen when cell `k` comes up: a new row ends any run.
pub open spec fn pen_at(g: Geometry, pen: Pen, k: int) -> Pen {
    Pen { drawing: pen.drawing && k % g.cols != 0, ..pen }
}

/// What paints a cell at a row and column: nothing when it stands there already.
pub open spec fn paint_ops(pen: Pen, row: u16, col: u16, before: Cell, cell: Cell) -> Seq<Op> {
    if before == cell {
        Seq::empty()
    } else {
        (if pen.drawing {
            seq![]
        } else {
            seq![Op::Move(row, col)]
        }) + (if pen.fg == cell.fg {
            seq![]
        } else {
            seq![Op::Fg(cell.fg)]
        }) + (if pen.bg == cell.bg {
            seq![]
        } else {
            seq![Op::Bg(cell.bg)]
        }) + seq![Op::Glyph(cell.ch)]
    }
}

/// What is sent for cell `k`.
pub open spec fn cell_ops(g: Geometry, pen: Pen, k: int, before: Cell, cell: Cell) -> Seq<Op> {
    paint_ops(pen_at(g, pen, k), row_of(g, k) as u16, col_of(g, k) as u16, before, cell)
}

/// The pen after cell `k`.
pub open spec fn pen_after(pen: Pen, before: Cell, cell: Cell) -> Pen {
    if before == cell {
        Pen { drawing: false, ..pen }
    } else {
        Pen { fg: cell.fg, bg: cell.bg, drawing: true }
    }
}

/// The pen after the first `n` cells.
pub open spec fn pen_through(
    g: Geometry,
    pen: Pen,
    before: Seq<Cell>,
    cells: Seq<Cell>,
    n: nat,
) -> Pen
    decreases n,
{
    if n == 0 {
        pen
    } else {
        pen_after(
            pen_through(g, pen, before, cells, (n - 1) as nat),
            before[n - 1],
            cells[n - 1],
        )
    }
}

/// What is sent for the first `n` cells.
pub open spec fn delta_ops(
    g: Geometry,
    pen: Pen,
    before: Seq<Cell>,
    cells: Seq<Cell>,
    n: nat,
) -> Seq<Op>
    decreases n,
{
    if n == 0 {
        Seq::empty()
    } else {
        delta_ops(g, pen, before, cells, (n - 1) as nat) + cell_ops(
            g,
            pen_through(g, pen, before, cells, (n - 1) as nat),
            n - 1,
            before[n - 1],
            cells[n - 1],
        )
    }
}

/// The pen at the start of a frame: the last one ended with a reset. ASCII mode
/// asserts a black background once per frame.
pub open spec fn first_pen(mode: RenderMode) -> Pen {
    Pen {
        fg: UNSET,
        bg: match mode {
            RenderMode::Block => UNSET,
            RenderMode::Ascii => BLACK,
        },
        drawing: false,
    }
}

/// What is sent before the first cell.
pub open spec fn frame_start(mode: RenderMode, clear: bool) -> Seq<Op> {
    (if clear {
        seq![Op::Clear]
    } else {
        seq![]
    }) + (match mode {
        RenderMode::Block => seq![],
        RenderMode::Ascii => seq![Op::Bg(BLACK)],
    })
}

/// What a renderer knows.
#[verifier::ext_equal]
pub struct Canvas {
    pub mode: RenderMode,
    pub geometry: Geometry,
    /// The last frame transmitted.
    pub shown: Seq<Cell>,
    /// The next frame starts with a screen clear.
    pub needs_clear: bool,
    /// The next frame repaints every cell.
    pub force_repaint: bool,
}

/// A frame in which nothing is taken to be on the screen.
pub open spec fn unknown(n: int) -> Seq<Cell> {
    Seq::new(n as nat, |k: int| sentinel())
}

/// What the next frame takes to be on the screen.
pub open spec fn baseline(c: Canvas) -> Seq<Cell> {
    let n = c.geometry.rows * c.geometry.cols;
    if c.needs_clear || c.force_repaint || c.shown.len() != n {
        unknown(n)
    } else {
        c.shown
    }
}

/// What is sent for a frame.
pub open spec fn frame_ops(c: Canvas, cells: Seq<Cell>) -> Seq<Op> {
    frame_start(c.mode, c.needs_clear) + delta_ops(
        c.geometry,
        first_pen(c.mode),
        baseline(c),
        cells,
        cells.len(),
    ) + seq![Op::Reset]
}

/// A new renderer: at native size, it clears the screen first.
pub open spec fn fresh(mode: RenderMode) -> Canvas {
    Canvas {
        mode,
        geometry: native(),
        shown: Seq::empty(),
        needs_clear: true,
        force_repaint: false,
    }
}

/// The renderer on a terminal of another size, where the next frame starts with a
/// clear. A degenerate size changes nothing.
pub open spec fn resized(c: Canvas, cols: int, rows: int) -> Canvas {
    if cols == 0 || rows == 0 {
        c
    } else {
        Canvas { geometry: fitted(cols, rows), needs_clear: true, ..c }
    }
}

/// The renderer asked for a clear.
pub open spec fn clearing(c: Canvas) -> Canvas {
    Canvas { needs_clear: true, ..c }
}

/// The renderer asked to repaint every cell.
pub open spec fn repainting(c: Canvas) -> Canvas {
    Canvas { force_repaint: true, ..c }
}

/// The renderer after a frame.
pub open spec fn drawn(c: Canvas, fb: FrameBuffer) -> Canvas {
    Canvas {
        shown: composed(c.mode, fb, c.geometry),
        needs_clear: false,
        force_repaint: false,
        ..c
    }
}

// ---------------------------------------------------------------------------
// Renderer
// ---------------------------------------------------------------------------

pub struct Renderer {
    config: RenderConfig,
    /// Set when terminal needs full clear (e.g., resize)
    needs_clear: bool,
    /// Scaled output dimensions (terminal cells)
    out_cols: u16,
    out_rows: u16,
    /// Centering offsets (terminal cells)
    left_pad: u16,
    top_pad: u16,
    /// Nearest-neighbor lookup tables (rebuilt on each dimension update):
    /// source GB x for an output column, source GB y for an output subpixel row
    col_map: Vec<usize>,
    row_map: Vec<usize>,
    /// Delta encoding: the last frame actually transmitted, one entry per output
    /// cell (row-major). Sized lazily and invalidated (all sentinels) on a full
    /// clear/resize so the next frame repaints in full and re-syncs the terminal.
    prev_cells: Vec<Cell>,
    /// When set, the next frame repaints every cell (without a screen clear) so
    /// any cell corrupted by line noise self-heals. Driven by a periodic keyframe
    /// timer in the main loop.
    force_repaint: bool,
}

impl View for Renderer {
    type V = Canvas;

    closed spec fn view(&self) -> Canvas {
        Canvas {
            mode: self.config.mode,
            geometry: Geometry {
                cols: self.out_cols as int,
                rows: self.out_rows as int,
                left: self.left_pad as int,
                top: self.top_pad as int,
            },
            shown: self.prev_cells@,
            needs_clear: self.needs_clear,
            force_repaint: self.force_repaint,
        }
    }
}

fn column_map(out_cols: u16) -> (r: Vec<usize>)
    requires
        out_cols >= 1,
    ensures
        r@.len() == out_cols,
        forall|j: int| 0 <= j < out_cols ==> #[trigger] r@[j] == j * 160 / (out_cols as int),
{
    let n: usize = out_cols as usize;
    let mut r: Vec<usize> = Vec::new();
    let mut j: usize = 0;
    while j < n
        invariant
            n == out_cols,
            n >= 1,
            j <= n,
            r@.len() == j,
            forall|k: int| 0 <= k < j ==> #[trigger] r@[k] == k * 160 / (out_cols as int),
        decreases n - j,
    {
        r.push(j * GB_WIDTH / n);
        j += 1;
    }
    r
}

fn subrow_map(out_rows: u16) -> (r: Vec<usize>)
    requires
        out_rows >= 1,
    ensures
        r@.len() == 2 * out_rows,
        forall|s: int| 0 <= s < 2 * out_rows ==> #[trigger] r@[s] == s * 144 / (2 * out_rows),
{
    let n: usize = out_rows as usize * 2;
    let mut r: Vec<usize> = Vec::new();
    let mut s: usize = 0;
    while s < n
        invariant
            n == 2 * out_rows,
            n >= 2,
            s <= n,
            r@.len() == s,
            forall|k: int| 0 <= k < s ==> #[trigger] r@[k] == k * 144 / (2 * out_rows),
        decreases n - s,
    {
        r.push(s * GB_HEIGHT / n);
        s += 1;
    }
    r
}

/// 256-color palette index of a color (6x6x6 color cube: indices 16-231).
fn rgb_to_256(r: u8, g: u8, b: u8) -> (i: u8)
    ensures
        i == cube_index(r as int, g as int, b as int),
        16 <= i <= 231,
{
    let r6: u8 = (r as u16 * 6 / 256) as u8;
    let g6: u8 = (g as u16 * 6 / 256) as u8;
    let b6: u8 = (b as u16 * 6 / 256) as u8;
    16 + 36 * r6 + 6 * g6 + b6
}

/// Map 0-255 brightness to an ASCII character using integer math.
fn brightness_to_ascii(brightness: u8) -> (ch: u8)
    ensures
        ch == ASCII_CHARS@[brightness * 69 / 255],
{
    let index: usize = brightness as usize * 69 / 255;
    ASCII_CHARS[index]
}

/// The cell that shows two pixels, one above the other.
fn compose_cell(mode: RenderMode, top: Rgb, bottom: Rgb) -> (cell: Cell)
    ensures
        cell == cell_of(mode, top, bottom),
{
    match mode {
        RenderMode::Block => Cell {
            ch: HALF_BLOCK,
            fg: rgb_to_256(top.r, top.g, top.b),
            bg: rgb_to_256(bottom.r, bottom.g, bottom.b),
        },
        RenderMode::Ascii => {
            let grey: u8 = ((top.to_grey() as u16 + bottom.to_grey() as u16) / 2) as u8;
            let r: u8 = ((top.r as u16 + bottom.r as u16) / 2) as u8;
            let g: u8 = ((top.g as u16 + bottom.g as u16) / 2) as u8;
            let b: u8 = ((top.b as u16 + bottom.b as u16) / 2) as u8;
            Cell { ch: brightness_to_ascii(grey), fg: rgb_to_256(r, g, b), bg: BLACK }
        },
    }
}

proof fn lemma_ops_bytes_concat(a: Seq<Op>, b: Seq<Op>)
    ensures
        ops_bytes(a + b) == ops_bytes(a) + ops_bytes(b),
    decreases b.len(),
{
    if b.len() == 0 {
        assert(a + b == a);
    } else {
        lemma_ops_bytes_concat(a, b.drop_last());
        assert((a + b).drop_last() == a + b.drop_last());
    }
}

/// Paint one cell, unless it is on the screen already.
fn paint(out: &mut Vec<u8>, pen: Pen, row: u16, col: u16, before: Cell, cell: Cell) -> (after: Pen)
    ensures
        final(out)@ == old(out)@ + ops_bytes(paint_ops(pen, row, col, before, cell)),
        after == pen_after(pen, before, cell),
{
    if before == cell {
        return Pen { fg: pen.fg, bg: pen.bg, drawing: false };
    }
    let ghost mut ops: Seq<Op> = Seq::empty();
    if !pen.drawing {
        emit(out, Op::Move(row, col));
        proof {
            lemma_ops_bytes_push(ops, Op::Move(row, col));
            ops = ops.push(Op::Move(row, col));
        }
    }
    if cell.fg != pen.fg {
        emit(out, Op::Fg(cell.fg));
        proof {
            lemma_ops_bytes_push(ops, Op::Fg(cell.fg));
            ops = ops.push(Op::Fg(cell.fg));
        }
    }
    if cell.bg != pen.bg {
        emit(out, Op::Bg(cell.bg));
        proof {
            lemma_ops_bytes_push(ops, Op::Bg(cell.bg));
            ops = ops.push(Op::Bg(cell.bg));
        }
    }
    emit(out, Op::Glyph(cell.ch));
    proof {
        lemma_ops_bytes_push(ops, Op::Glyph(cell.ch));
        assert(ops.push(Op::Glyph(cell.ch)) =~= paint_ops(pen, row, col, before, cell));
    }
    Pen { fg: cell.fg, bg: cell.bg, drawing: true }
}

proof fn lemma_cell_index(i: int, j: int, cols: int)
    requires
        0 <= i,
        0 <= j < cols,
    ensures
        (i * cols + j) / cols == i,
        (i * cols + j) % cols == j,
{
    vstd::arithmetic::div_mod::lemma_fundamental_div_mod_converse(i * cols + j, cols, i, j);
}

impl Renderer {
    /// The lookup tables match the geometry, which fits a terminal.
    pub closed spec fn wf(self) -> bool {
        &&& is_placed(self@.geometry)
        &&& self.col_map@.len() == self.out_cols
        &&& forall|j: int|
            0 <= j < self.out_cols ==> #[trigger] self.col_map@[j] == source_x(self@.geometry, j)
        &&& self.row_map@.len() == 2 * self.out_rows
        &&& forall|s: int|
            0 <= s < 2 * self.out_rows ==> #[trigger] self.row_map@[s] == source_y(
                self@.geometry,
                s,
            )
    }

    /// A renderer at native size (updated before the first frame via
    /// `update_dimensions`), which clears the screen first.
    pub fn new(config: RenderConfig) -> (r: Self)
        ensures
            r.wf(),
            r@ == fresh(config.mode),
    {
        Renderer {
            config,
            needs_clear: true,
            out_cols: NATIVE_COLS,
            out_rows: NATIVE_ROWS,
            left_pad: 0,
            top_pad: 0,
            col_map: column_map(NATIVE_COLS),
            row_map: subrow_map(NATIVE_ROWS),
            prev_cells: Vec::new(),
            force_repaint: false,
        }
    }

    /// Columns of the image, in terminal cells.
    pub fn out_cols(&self) -> (r: u16)
        ensures
            r == self@.geometry.cols,
    {
        self.out_cols
    }

    /// Rows of the image, in terminal cells.
    pub fn out_rows(&self) -> (r: u16)
        ensures
            r == self@.geometry.rows,
    {
        self.out_rows
    }

    /// Update output dimensions based on the current terminal size. Call on
    /// startup and on every resize event. A degenerate size changes nothing.
    pub fn update_dimensions(&mut self, cols: u16, rows: u16)
        requires
            old(self).wf(),
        ensures
            final(self).wf(),
            final(self)@ == resized(old(self)@, cols as int, rows as int),
    {
        // Guard against degenerate terminal sizes
        if cols == 0 || rows == 0 {
            return;
        }
        // Reserve 1 row for the FPS display below the game

        let usable: u16 = if rows <= 2 {
            1
        } else {
            rows - 1
        };

        // Fit both axes, preserve aspect ratio.
        let mut out_cols: u16 = cols;
        let mut out_rows: u16 = usable;
        if cols as u32 * 72 <= usable as u32 * 160 {
            out_rows = ((cols as u32 * 9 + 10) / 20) as u16;
            if out_rows < 1 {
                out_rows = 1;
            }
        } else {
            out_cols = ((usable as u32 * 40 + 9) / 18) as u16;
        }
        proof {
            law_image_fits(cols as int, rows as int);
        }

        // Center horizontally and vertically in the available space
        self.left_pad = (cols - out_cols) / 2;
        self.top_pad = (usable - out_rows) / 2;
        self.out_cols = out_cols;
        self.out_rows = out_rows;
        self.col_map = column_map(out_cols);
        self.row_map = subrow_map(out_rows);
        self.request_clear();
    }

    /// Terminal row for the FPS overlay (just below the game image, 0-based).
    pub fn fps_row(&self) -> (r: u16)
        requires
            self.wf(),
        ensures
            r == self@.geometry.top + self@.geometry.rows,
    {
        self.top_pad + self.out_rows
    }

    /// Mark that the terminal needs a full clear (e.g., after resize)
    pub fn request_clear(&mut self)
        ensures
            final(self)@ == clearing(old(self)@),
            old(self).wf() ==> final(self).wf(),
    {
        self.needs_clear = true;
    }

    /// Repaint every cell on the next frame (no screen clear). Used as a periodic
    /// keyframe so a cell corrupted by line noise self-heals on a lossy link.
    pub fn request_repaint(&mut self)
        ensures
            final(self)@ == repainting(old(self)@),
            old(self).wf() ==> final(self).wf(),
    {
        self.force_repaint = true;
    }

    /// The whole image as cells, row by row.
    fn compose(&self, fb: &FrameBuffer) -> (cells: Vec<Cell>)
        requires
            self.wf(),
            covers(*fb, self@.geometry),
        ensures
            cells@ == composed(self@.mode, *fb, self@.geometry),
    {
        let ghost g = self@.geometry;
        let mode = self.config.mode;
        let cols: usize = self.out_cols as usize;
        let rows: usize = self.out_rows as usize;
        let mut cells: Vec<Cell> = Vec::new();
        let mut i: usize = 0;
        assert(0 * g.cols == 0) by (nonlinear_arith);
        while i < rows
            invariant
                self.wf(),
                covers(*fb, g),
                g == self@.geometry,
                mode == self@.mode,
                cols == g.cols,
                rows == g.rows,
                i <= rows,
                cells@.len() == i * g.cols,
                cells@ == composed(mode, *fb, g).take(i * g.cols),
                i * g.cols <= g.rows * g.cols,
            decreases rows - i,
        {
            let top_y: usize = self.row_map[2 * i];
            let bottom_y: usize = self.row_map[2 * i + 1];
            let mut j: usize = 0;
            assert((i + 1) * g.cols == i * g.cols + g.cols && (i + 1) * g.cols <= g.rows * g.cols)
                by (nonlinear_arith)
                requires
                    i + 1 <= g.rows,
                    1 <= g.cols,
            ;
            while j < cols
                invariant
                    self.wf(),
                    covers(*fb, g),
                    g == self@.geometry,
                    mode == self@.mode,
                    cols == g.cols,
                    rows == g.rows,
                    i < rows,
                    j <= cols,
                    top_y == source_y(g, 2 * i),
                    bottom_y == source_y(g, 2 * i + 1),
                    i * g.cols + g.cols <= g.rows * g.cols,
                    0 <= i * g.cols,
                    cells@.len() == i * g.cols + j,
                    cells@ == composed(mode, *fb, g).take(i * g.cols + j),
                decreases cols - j,
            {
                let x: usize = self.col_map[j];
                assert(x == source_x(g, j as int));
                let top = fb.get_pixel(x, top_y);
                let bottom = fb.get_pixel(x, bottom_y);
                let cell = compose_cell(mode, top, bottom);
                proof {
                    lemma_cell_index(i as int, j as int, g.cols);
                    let k = i * g.cols + j;
                    assert(composed(mode, *fb, g)[k] == cell);
                }
                cells.push(cell);
                assert(cells@ =~= composed(mode, *fb, g).take(i * g.cols + j + 1));
                j += 1;
            }
            i += 1;
        }
        assert(composed(mode, *fb, g).take(g.rows * g.cols) =~= composed(mode, *fb, g));
        cells
    }

    /// Draw a frame: the bytes that bring the terminal from the last frame to this
    /// one.
    pub fn render(&mut self, fb: &FrameBuffer) -> (out: Vec<u8>)
        requires
            old(self).wf(),
            covers(*fb, old(self)@.geometry),
        ensures
            final(self).wf(),
            final(self)@ == drawn(old(self)@, *fb),
            out@ == ops_bytes(
                frame_ops(old(self)@, composed(old(self)@.mode, *fb, old(self)@.geometry)),
            ),
    {
        let cells = self.compose(fb);
        let ghost c = self@;
        let ghost g = self@.geometry;
        let ghost before = baseline(c);
        let ghost pen0 = first_pen(c.mode);
        let ghost start = frame_start(c.mode, c.needs_clear);
        let known = !self.needs_clear && !self.force_repaint && self.prev_cells.len()
            == cells.len();

        let mut out: Vec<u8> = Vec::new();
        let mut pen = Pen { fg: UNSET, bg: UNSET, drawing: false };
        if self.needs_clear {
            emit(&mut out, Op::Clear);
        }
        if let RenderMode::Ascii = self.config.mode {
            emit(&mut out, Op::Bg(BLACK));
            pen.bg = BLACK;
        }
        proof {
            let none = Seq::<Op>::empty();
            lemma_ops_bytes_push(none, Op::Clear);
            lemma_ops_bytes_push(none, Op::Bg(BLACK));
            lemma_ops_bytes_push(none.push(Op::Clear), Op::Bg(BLACK));
            assert(start =~= none || start =~= none.push(Op::Clear) || start =~= none.push(
                Op::Bg(BLACK),
            ) || start =~= none.push(Op::Clear).push(Op::Bg(BLACK)));
            assert(out@ =~= ops_bytes(start));
            assert(start + delta_ops(g, pen0, before, cells@, 0) =~= start);
        }

        let mut k: usize = 0;
        let mut i: u16 = 0;
        let mut j: u16 = 0;
        while k < cells.len()
            invariant
                self.wf(),
                self@ == c,
                g == c.geometry,
                before == baseline(c),
                cells@.len() == g.rows * g.cols,
                known == (!c.needs_clear && !c.force_repaint && c.shown.len() == cells@.len()),
                k <= cells.len(),
                k == i * g.cols + j,
                j < g.cols,
                i <= g.rows,
                pen == pen_through(g, pen0, before, cells@, k as nat),
                out@ == ops_bytes(start + delta_ops(g, pen0, before, cells@, k as nat)),
            decreases cells.len() - k,
        {
            proof {
                lemma_cell_index(i as int, j as int, g.cols);
                assert(i < g.rows) by (nonlinear_arith)
                    requires
                        i * g.cols + j < g.rows * g.cols,
                        0 <= j,
                        1 <= g.cols,
                ;
            }
            let there = if known {
                self.prev_cells[k]
            } else {
                Cell { ch: 0, fg: 255, bg: 255 }
            };
            assert(there == before[k as int]);
            // `drawing`: the cursor stands where this cell goes (mid-run). A new row
            // and an unchanged cell end the run.
            let at = Pen { fg: pen.fg, bg: pen.bg, drawing: pen.drawing && j != 0 };
            let row: u16 = self.top_pad + i + 1;
            let col: u16 = self.left_pad + 1 + j;
            pen = paint(&mut out, at, row, col, there, cells[k]);
            proof {
                let p = pen_through(g, pen0, before, cells@, k as nat);
                let sent = cell_ops(g, p, k as int, before[k as int], cells@[k as int]);
                let had = start + delta_ops(g, pen0, before, cells@, k as nat);
                lemma_ops_bytes_concat(had, sent);
                assert(had + sent =~= start + delta_ops(g, pen0, before, cells@, (k + 1) as nat));
            }
            k += 1;
            j += 1;
            if j == self.out_cols {
                j = 0;
                i += 1;
                assert(i * g.cols == (i - 1) * g.cols + g.cols) by (nonlinear_arith);
            }
        }
        emit(&mut out, Op::Reset);
        proof {
            let had = start + delta_ops(g, pen0, before, cells@, k as nat);
            lemma_ops_bytes_push(had, Op::Reset);
            assert(had.push(Op::Reset) =~= frame_ops(c, cells@));
        }
        self.prev_cells = cells;
        self.needs_clear = false;
        self.force_repaint = false;
        out
    }
}

// ---------------------------------------------------------------------------
// Laws
// ---------------------------------------------------------------------------

/// The image stands inside the terminal, above the status row, and fills it in
/// one direction.
pub proof fn law_image_fits(cols: int, rows: int)
    requires
        1 <= cols <= 0xffff,
        1 <= rows <= 0xffff,
    ensures
        is_placed(fitted(cols, rows)),
        fitted(cols, rows).left + fitted(cols, rows).cols <= cols,
        fitted(cols, rows).top + fitted(cols, rows).rows <= usable_rows(rows),
        fitted(cols, rows).cols == cols || fitted(cols, rows).rows == usable_rows(rows),
{
}

/// The image keeps the proportions of the Game Boy's screen, 160 columns to 72 rows,
/// to the nearest cell, and stands in the middle of the space above the status row:
/// the margins on both sides differ by one cell at most.
pub proof fn law_image_keeps_its_proportions(cols: int, rows: int)
    requires
        1 <= cols <= 0xffff,
        1 <= rows <= 0xffff,
    ensures
        ({
            let g = fitted(cols, rows);
            let space = if rows <= 2 {
                1
            } else {
                rows - 1
            };
            &&& g.cols == cols ==> g.rows == 1 || -10 < 20 * g.rows - 9 * cols <= 10
            &&& g.cols < cols ==> g.rows == space && -9 <= 18 * g.cols - 40 * space <= 9
            &&& g.rows <= space
            &&& g.left <= cols - g.cols - g.left <= g.left + 1
            &&& g.top <= space - g.rows - g.top <= g.top + 1
        }),
{
    law_image_fits(cols, rows);
}

/// On a terminal of native size with a status row the image is not scaled: every
/// pixel of the screen is a half cell of its own.
pub proof fn law_native_size_shows_every_pixel(x: int, y: int)
    requires
        0 <= x < 160,
        0 <= y < 144,
    ensures
        fitted(160, 73) == native(),
        source_x(native(), x) == x,
        source_y(native(), y) == y,
{
    lemma_nearest_source(x, x, 160, 160);
    lemma_nearest_source(y, y, 144, 144);
}

/// The status line stands directly below the image, and inside the terminal.
pub proof fn law_status_row_is_below_the_image(cols: int, rows: int)
    requires
        1 <= cols <= 0xffff,
        2 <= rows <= 0xffff,
    ensures
        fitted(cols, rows).top + fitted(cols, rows).rows < rows,
{
    law_image_fits(cols, rows);
}

/// Scaling takes the source pixel that lies under a column: the `j`-th of `n` parts
/// of the width begins in it.
proof fn lemma_nearest_source(j: int, x: int, size: int, n: int)
    requires
        0 <= j < n,
        0 < size,
        x * n <= j * size < (x + 1) * n,
    ensures
        j * size / n == x,
{
    let rest = j * size - x * n;
    assert((x + 1) * n == x * n + n) by (nonlinear_arith);
    vstd::arithmetic::div_mod::lemma_fundamental_div_mod_converse(j * size, n, x, rest);
}

/// The levels (0 to 5) of red, green and blue that an index of the 256-color palette
/// shows.
pub open spec fn levels_shown(index: u8) -> (int, int, int) {
    ((index - 16) / 36, (index - 16) / 6 % 6, (index - 16) % 6)
}

/// The level of a channel: 256 values spread evenly over six.
pub open spec fn is_level_of(level: int, v: int) -> bool {
    256 * level <= 6 * v < 256 * (level + 1)
}

/// The index shows the color, channel by channel.
pub open spec fn shows_color(index: u8, r: int, g: int, b: int) -> bool {
    &&& 16 <= index <= 231
    &&& is_level_of(levels_shown(index).0, r)
    &&& is_level_of(levels_shown(index).1, g)
    &&& is_level_of(levels_shown(index).2, b)
}

proof fn lemma_cube_index_shows(r: int, g: int, b: int)
    requires
        0 <= r < 256,
        0 <= g < 256,
        0 <= b < 256,
    ensures
        0 <= cube_index(r, g, b) <= 255,
        shows_color(cube_index(r, g, b) as u8, r, g, b),
{
    let (x, y, z) = (r * 6 / 256, g * 6 / 256, b * 6 / 256);
    assert(0 <= x <= 5 && 0 <= y <= 5 && 0 <= z <= 5);
    let i = 36 * x + 6 * y + z;
    assert(i / 36 == x);
    assert(i / 6 == 6 * x + y);
    assert(i % 6 == z);
}

/// What a terminal paints of a cell whose glyph is the upper half block: the upper
/// half in the foreground color, the lower half in the background color.
pub open spec fn half_shown(cell: Cell, lower: bool) -> u8 {
    if lower {
        cell.bg
    } else {
        cell.fg
    }
}

/// **Each half of a block cell shows its own pixel.** The cell at row `i` and column
/// `j` of the image is an upper half block. Its upper half shows the color of the
/// pixel under it, in the upper of its two rows, and its lower half that of the pixel
/// in the lower one.
pub proof fn law_block_cell_shows_its_pixels(
    fb: FrameBuffer,
    g: Geometry,
    i: int,
    j: int,
    x: int,
    y: int,
    lower: bool,
)
    requires
        is_placed(g),
        0 <= i < g.rows,
        0 <= j < g.cols,
        x * g.cols <= j * 160 < (x + 1) * g.cols,
        y * (2 * g.rows) <= (2 * i + if lower {
            1int
        } else {
            0int
        }) * 144 < (y + 1) * (2 * g.rows),
    ensures
        ({
            let cell = composed(RenderMode::Block, fb, g)[i * g.cols + j];
            let pixel = fb.pixels@[y * fb.width + x];
            &&& cell.ch == 0xDF
            &&& shows_color(
                half_shown(cell, lower),
                pixel.r as int,
                pixel.g as int,
                pixel.b as int,
            )
        }),
{
    let k = i * g.cols + j;
    lemma_cell_index(i, j, g.cols);
    assert(0 <= k < g.rows * g.cols) by (nonlinear_arith)
        requires
            k == i * g.cols + j,
            0 <= i < g.rows,
            0 <= j < g.cols,
    ;
    lemma_nearest_source(j, x, 160, g.cols);
    let s = 2 * i + if lower {
        1int
    } else {
        0int
    };
    lemma_nearest_source(s, y, 144, 2 * g.rows);
    let pixel = sample(fb, g, j, s);
    lemma_cube_index_shows(pixel.r as int, pixel.g as int, pixel.b as int);
}

/// **An ASCII cell shows its two pixels mixed.** Its color is their mean, channel by
/// channel, on black, and its glyph comes from the ramp, as far along it as the mean
/// of their brightness is from black to white: blank for black, the densest for
/// white.
pub proof fn law_ascii_cell_shows_its_pixels(
    fb: FrameBuffer,
    g: Geometry,
    i: int,
    j: int,
    x: int,
    above: int,
    below: int,
    step: int,
)
    requires
        is_placed(g),
        0 <= i < g.rows,
        0 <= j < g.cols,
        x * g.cols <= j * 160 < (x + 1) * g.cols,
        above * (2 * g.rows) <= (2 * i) * 144 < (above + 1) * (2 * g.rows),
        below * (2 * g.rows) <= (2 * i + 1) * 144 < (below + 1) * (2 * g.rows),
        ({
            let (p, q) = (fb.pixels@[above * fb.width + x], fb.pixels@[below * fb.width + x]);
            255 * step <= 69 * ((framebuffer::grey_of(p) + framebuffer::grey_of(q)) / 2) < 255 * (
            step + 1)
        }),
    ensures
        ({
            let cell = composed(RenderMode::Ascii, fb, g)[i * g.cols + j];
            let (p, q) = (fb.pixels@[above * fb.width + x], fb.pixels@[below * fb.width + x]);
            &&& 0 <= step < 70
            &&& cell.ch == ASCII_CHARS@[step]
            &&& shows_color(cell.fg, (p.r + q.r) / 2, (p.g + q.g) / 2, (p.b + q.b) / 2)
            &&& cell.bg == 16
        }),
        ASCII_CHARS@[0] == ' ' as u8,
        ASCII_CHARS@[69] == '$' as u8,
{
    let k = i * g.cols + j;
    lemma_cell_index(i, j, g.cols);
    assert(0 <= k < g.rows * g.cols) by (nonlinear_arith)
        requires
            k == i * g.cols + j,
            0 <= i < g.rows,
            0 <= j < g.cols,
    ;
    lemma_nearest_source(j, x, 160, g.cols);
    lemma_nearest_source(2 * i, above, 144, 2 * g.rows);
    lemma_nearest_source(2 * i + 1, below, 144, 2 * g.rows);
    let (p, q) = (sample(fb, g, j, 2 * i), sample(fb, g, j, 2 * i + 1));
    framebuffer::law_grey_is_brightness(p);
    framebuffer::law_grey_is_brightness(q);
    lemma_cube_index_shows((p.r + q.r) / 2, (p.g + q.g) / 2, (p.b + q.b) / 2);
}

/// The ASCII ramp, from the blank to the densest glyph.
pub proof fn law_ramp_glyphs(i: int)
    requires
        0 <= i < 70,
    ensures
        ASCII_CHARS@[i]
            == " .'`^\",:;Il!i><~+_-?][}{1)(|\\/tfjrxnuvczXYUJCLQ0OZmwqpdbkhao*#MW&8%B@$"@[i] as u8,
{
    reveal_strlit(" .'`^\",:;Il!i><~+_-?][}{1)(|\\/tfjrxnuvczXYUJCLQ0OZmwqpdbkhao*#MW&8%B@$");
}

/// A control sequence: ESC, `[`, the parameters with `;` between them, the last
/// character.
pub open spec fn control(params: Seq<nat>, last: char) -> Seq<u8> {
    text::bytes_of("\x1b["@ + separated(params) + seq![last])
}

/// Numbers with `;` between them.
pub open spec fn separated(params: Seq<nat>) -> Seq<char>
    decreases params.len(),
{
    if params.len() == 0 {
        Seq::empty()
    } else if params.len() == 1 {
        text::decimal(params[0])
    } else {
        separated(params.drop_last()) + seq![';'] + text::decimal(params.last())
    }
}

/// What the operations are to a terminal (ECMA-48): erase the display, cursor
/// position, and the character attributes 38;5 (foreground), 48;5 (background) and 0
/// (default).
pub proof fn law_operations_are_control_sequences(row: u16, col: u16, color: u8)
    ensures
        op_bytes(Op::Clear) == control(seq![2], 'J'),
        op_bytes(Op::Move(row, col)) == control(seq![row as nat, col as nat], 'H'),
        op_bytes(Op::Fg(color)) == control(seq![38, 5, color as nat], 'm'),
        op_bytes(Op::Bg(color)) == control(seq![48, 5, color as nat], 'm'),
        op_bytes(Op::Reset) == control(seq![0], 'm'),
        op_bytes(Op::Glyph(color)) == seq![color],
{
    reveal_strlit("\x1b[");
    reveal_strlit("\x1b[2J");
    reveal_strlit("\x1b[0m");
    reveal_strlit("\x1b[38;5;");
    reveal_strlit("\x1b[48;5;");
    reveal_strlit(";");
    reveal_strlit("H");
    reveal_strlit("m");
    reveal_with_fuel(text::decimal, 3);
    reveal_with_fuel(separated, 3);
    assert(text::decimal(0) == seq!['0'] && text::decimal(2) == seq!['2'] && text::decimal(5)
        == seq!['5']);
    assert(text::decimal(38) == seq!['3', '8'] && text::decimal(48) == seq!['4', '8']);
    let at = seq![row as nat, col as nat];
    assert(at.drop_last() == seq![row as nat]);
    let (f, b) = (seq![38, 5, color as nat], seq![48, 5, color as nat]);
    assert(f.drop_last() == seq![38nat, 5] && f.drop_last().drop_last() == seq![38nat]);
    assert(b.drop_last() == seq![48nat, 5] && b.drop_last().drop_last() == seq![48nat]);
    assert(op_bytes(Op::Clear) =~= control(seq![2], 'J'));
    assert(op_bytes(Op::Reset) =~= control(seq![0], 'm'));
    assert(op_bytes(Op::Move(row, col)) =~= control(at, 'H'));
    assert(op_bytes(Op::Fg(color)) =~= control(f, 'm'));
    assert(op_bytes(Op::Bg(color)) =~= control(b, 'm'));
}

/// What changes the renderer, and what of it: a size fits the image anew and starts with a
/// clear, unless it is no size; a clear and a repaint are asked for until a frame is drawn.
pub proof fn law_renderer_changes(c: Canvas, cols: int, rows: int, fb: FrameBuffer)
    ensures
        resized(c, 0, rows) == c && resized(c, cols, 0) == c,
        cols != 0 && rows != 0 ==> resized(c, cols, rows).geometry == fitted(cols, rows) && resized(
            c,
            cols,
            rows,
        ).needs_clear && resized(c, cols, rows).mode == c.mode && resized(c, cols, rows).shown
            == c.shown && resized(c, cols, rows).force_repaint == c.force_repaint,
        clearing(c).needs_clear && clearing(c).force_repaint == c.force_repaint && clearing(c).shown
            == c.shown && clearing(c).geometry == c.geometry && clearing(c).mode == c.mode,
        repainting(c).force_repaint && repainting(c).needs_clear == c.needs_clear && repainting(
            c,
        ).shown == c.shown && repainting(c).geometry == c.geometry && repainting(c).mode == c.mode,
        !drawn(c, fb).needs_clear && !drawn(c, fb).force_repaint && drawn(c, fb).geometry
            == c.geometry && drawn(c, fb).mode == c.mode && drawn(c, fb).shown == composed(
            c.mode,
            fb,
            c.geometry,
        ),
{
}

/// Cells stand row by row, from the top left corner of the image, which is inset by its
/// margins.
pub proof fn law_cells_stand_row_by_row(g: Geometry, i: int, j: int)
    requires
        0 <= i,
        0 <= j < g.cols,
    ensures
        row_of(g, i * g.cols + j) == g.top + 1 + i,
        col_of(g, i * g.cols + j) == g.left + 1 + j,
{
    let cols = g.cols as int;
    assert((i * cols + j) / cols == i && (i * cols + j) % cols == j) by (nonlinear_arith)
        requires
            0 <= i,
            0 <= j < cols,
    ;
}

} // verus!
