//! Full-screen startup splash from an 80x32 CP437 `.bin` graphic
//! (`lameboy_splash.bin`, char/attr pairs + SAUCE trailer, which is ignored).
//!
//! Shown once at door start, dismissed by any key or a 10s timeout. Placement:
//!   - Terminal >= the graphic: centered, and every surrounding cell is filled
//!     MAGENTA (the graphic's own border color) so it blends with no black frame.
//!   - Terminal shorter than the graphic (the common 24/25-row case): the top
//!     rows are truncated and the bottom rows are shown (they carry the wordmark).
//!
//! Bytes are written raw (already CP437); the whole session runs with autowrap
//! off, so painting the bottom-right cell can't scroll the screen.

use crate::color;
use crate::color::{ColorDepth, ColorSetting};
use crate::keys;
use crate::keys::{Decoder, Input};
use crate::session;
use crate::text;
use vstd::prelude::*;

verus! {

/// Graphic dimensions (the SAUCE says DataType 5, FileType 40, so 80 wide; the
/// 5120-byte body is 80x32 char/attr cells).
pub const GW: usize = 80;

pub const GH: usize = 32;

pub const BODY: usize = 5120;

/// The 16-color VGA text palette in **attribute-index order** (what a `.bin`'s
/// attribute nibbles index): 0-7 normal, 8-15 bright. Note this differs from the
/// ANSI SGR order used elsewhere (here 1=blue, 4=red); `cell_sgr` re-maps it to
/// the caller's depth via the RGB values.
pub const VGA16: [[u8; 3]; 16] = [
    [0, 0, 0],
    [0, 0, 170],
    [0, 170, 0],
    [0, 170, 170],
    [170, 0, 0],
    [170, 0, 170],
    [170, 85, 0],
    [170, 170, 170],
    [85, 85, 85],
    [85, 85, 255],
    [85, 255, 85],
    [85, 255, 255],
    [255, 85, 85],
    [255, 85, 255],
    [255, 255, 85],
    [255, 255, 255],
];

/// The magenta the graphic's border uses (VGA 5), for the surrounding fill.
pub const MAGENTA: [u8; 3] = [170, 0, 170];

/// Whether a file holds at least one full 80x32 body.
pub fn is_splash(data: &[u8]) -> (r: bool)
    ensures
        r == (data@.len() >= BODY),
        r == is_whole(data@),
{
    data.len() >= BODY
}

// ---------------------------------------------------------------------------
// Placement
// ---------------------------------------------------------------------------

/// The data hold a whole graphic.
pub open spec fn is_whole(data: Seq<u8>) -> bool {
    data.len() >= BODY
}

/// The graphic row at terminal row `r` of `h`, if it isn't a fill row.
pub open spec fn row_shown(r: int, h: int) -> Option<int> {
    if h >= GH {
        let top = (h - GH) / 2;
        if top <= r < top + GH {
            Some(r - top)
        } else {
            None
        }
    } else {
        Some(GH - h + r)
    }
}

/// Map terminal row `r` (0-based) to a graphic row, or None if it's a
/// surround/fill row. Tall enough terminals center the graphic; shorter ones
/// bottom-align it (truncating the top).
pub fn graphic_row(r: usize, h: usize) -> (g: Option<usize>)
    requires
        h < GH ==> r <= usize::MAX - GH,
    ensures
        match g {
            Some(i) => row_shown(r as int, h as int) == Some(i as int),
            None => row_shown(r as int, h as int) is None,
        },
{
    if h >= GH {
        let top: usize = (h - GH) / 2;
        if r >= top && r - top < GH {
            Some(r - top)
        } else {
            None
        }
    } else {
        Some((GH - h) + r)  // r in 0..h: bottom h rows of the graphic
    }
}

/// The graphic column at terminal column `c` of `w`, if it isn't a fill column.
pub open spec fn col_shown(c: int, w: int) -> Option<int> {
    if w >= GW {
        let left = (w - GW) / 2;
        if left <= c < left + GW {
            Some(c - left)
        } else {
            None
        }
    } else {
        Some((GW - w) / 2 + c)
    }
}

/// Map terminal column `c` to a graphic column, or None for a fill column. Wider
/// terminals center the graphic; narrower ones show its middle columns.
pub fn graphic_col(c: usize, w: usize) -> (g: Option<usize>)
    requires
        w < GW ==> c <= usize::MAX - GW,
    ensures
        match g {
            Some(i) => col_shown(c as int, w as int) == Some(i as int),
            None => col_shown(c as int, w as int) is None,
        },
{
    if w >= GW {
        let left: usize = (w - GW) / 2;
        if c >= left && c - left < GW {
            Some(c - left)
        } else {
            None
        }
    } else {
        Some((GW - w) / 2 + c)  // c in 0..w
    }
}

// ---------------------------------------------------------------------------
// Painting
// ---------------------------------------------------------------------------

/// A screen cell: its character and its SGR parameters.
#[verifier::ext_equal]
pub struct Tile {
    pub ch: u8,
    pub sgr: Seq<char>,
}

/// A cell of the graphic; the null character shows as a space.
pub open spec fn art_tile(data: Seq<u8>, depth: ColorDepth, gr: int, gc: int) -> Tile {
    let o = (gr * GW + gc) * 2;
    let attr = data[o + 1];
    let fg = VGA16[attr as int % 16];
    let bg = VGA16[(attr as int / 16) % 8];
    Tile {
        ch: if data[o] == 0 {
            0x20
        } else {
            data[o]
        },
        sgr: color::cell_sgr_text(depth, fg[0], fg[1], fg[2], bg[0], bg[1], bg[2]),
    }
}

/// A cell around the graphic.
pub open spec fn fill_tile(depth: ColorDepth) -> Tile {
    Tile { ch: 0x20, sgr: color::cell_sgr_text(depth, 170, 0, 170, 170, 0, 170) }
}

/// The cell at a place of a `w`x`h` screen.
pub open spec fn tile_at(data: Seq<u8>, depth: ColorDepth, w: int, h: int, r: int, c: int) -> Tile {
    match (row_shown(r, h), col_shown(c, w)) {
        (Some(gr), Some(gc)) => art_tile(data, depth, gr, gc),
        _ => fill_tile(depth),
    }
}

/// The SGR parameters of the cell painted before this one; none before the first.
pub open spec fn sgr_before(
    data: Seq<u8>,
    depth: ColorDepth,
    w: int,
    h: int,
    r: int,
    c: int,
) -> Seq<char> {
    if c > 0 {
        tile_at(data, depth, w, h, r, c - 1).sgr
    } else if r > 0 {
        tile_at(data, depth, w, h, r - 1, w - 1).sgr
    } else {
        Seq::empty()
    }
}

/// What a cell sends: its SGR, where it differs from the cell before (to keep the
/// byte count down on a slow link), and its character.
pub open spec fn tile_bytes(data: Seq<u8>, depth: ColorDepth, w: int, h: int, r: int, c: int) -> Seq<
    u8,
> {
    let t = tile_at(data, depth, w, h, r, c);
    (if t.sgr != sgr_before(data, depth, w, h, r, c) {
        text::bytes_of("\x1b["@) + text::bytes_of(t.sgr) + text::bytes_of("m"@)
    } else {
        Seq::empty()
    }) + seq![t.ch]
}

/// The first `n` cells of a row.
pub open spec fn row_bytes(
    data: Seq<u8>,
    depth: ColorDepth,
    w: int,
    h: int,
    r: int,
    n: nat,
) -> Seq<u8>
    decreases n,
{
    if n == 0 {
        text::bytes_of("\x1b["@) + text::bytes_of(text::decimal((r + 1) as nat)) + text::bytes_of(
            ";1H"@,
        )
    } else {
        row_bytes(data, depth, w, h, r, (n - 1) as nat) + tile_bytes(data, depth, w, h, r, n - 1)
    }
}

/// The first `n` rows.
pub open spec fn rows_bytes(data: Seq<u8>, depth: ColorDepth, w: int, h: int, n: nat) -> Seq<u8>
    decreases n,
{
    if n == 0 {
        Seq::empty()
    } else {
        rows_bytes(data, depth, w, h, (n - 1) as nat) + row_bytes(data, depth, w, h, n - 1, w as nat)
    }
}

/// The whole screen; nothing for an empty one.
pub open spec fn splash_bytes(data: Seq<u8>, depth: ColorDepth, w: int, h: int) -> Seq<u8> {
    if w == 0 || h == 0 {
        Seq::empty()
    } else {
        rows_bytes(data, depth, w, h, h as nat) + text::bytes_of("\x1b[0m"@)
    }
}

/// The character and the SGR parameters of a cell.
fn compose(data: &[u8], depth: ColorDepth, w: usize, h: usize, r: usize, c: usize) -> (t: (
    u8,
    String,
))
    requires
        data@.len() >= BODY,
        r < h <= 0xffff,
        c < w <= 0xffff,
    ensures
        t.0 == tile_at(data@, depth, w as int, h as int, r as int, c as int).ch,
        t.1@ == tile_at(data@, depth, w as int, h as int, r as int, c as int).sgr,
{
    if let Some(gr) = graphic_row(r, h) {
        if let Some(gc) = graphic_col(c, w) {
            let o: usize = (gr * GW + gc) * 2;
            let ch: u8 = data[o];
            let attr: u8 = data[o + 1];
            assert(attr & 0x0F == attr % 16) by (bit_vector);
            assert((attr >> 4) & 0x07 == (attr / 16) % 8) by (bit_vector);
            let fg = VGA16[(attr & 0x0F) as usize];
            let bg = VGA16[((attr >> 4) & 0x07) as usize];
            let shown: u8 = if ch == 0 {
                0x20
            } else {
                ch
            };
            return (shown, color::cell_sgr(depth, fg[0], fg[1], fg[2], bg[0], bg[1], bg[2]));
        }
    }
    let m = MAGENTA;
    (0x20, color::cell_sgr(depth, m[0], m[1], m[2], m[0], m[1], m[2]))
}

/// Paint one cell, after one with the SGR parameters `last`; returns its own.
fn push_tile(
    buf: &mut Vec<u8>,
    last: String,
    data: &[u8],
    depth: ColorDepth,
    w: usize,
    h: usize,
    r: usize,
    c: usize,
) -> (sgr: String)
    requires
        data@.len() >= BODY,
        r < h <= 0xffff,
        c < w <= 0xffff,
        last@ == sgr_before(data@, depth, w as int, h as int, r as int, c as int),
    ensures
        sgr@ == tile_at(data@, depth, w as int, h as int, r as int, c as int).sgr,
        final(buf)@ == old(buf)@ + tile_bytes(
            data@,
            depth,
            w as int,
            h as int,
            r as int,
            c as int,
        ),
{
    let (ch, sgr) = compose(data, depth, w, h, r, c);
    if !text::same_str(sgr.as_str(), last.as_str()) {
        text::push_bytes(buf, "\x1b[");
        text::push_bytes(buf, sgr.as_str());
        text::push_bytes(buf, "m");
    }
    buf.push(ch);
    sgr
}

/// Paint one row, after a cell with the SGR parameters `last`; returns those of the
/// row's last cell.
fn push_row(
    buf: &mut Vec<u8>,
    last: String,
    data: &[u8],
    depth: ColorDepth,
    w: usize,
    h: usize,
    r: usize,
) -> (sgr: String)
    requires
        data@.len() >= BODY,
        r < h <= 0xffff,
        0 < w <= 0xffff,
        last@ == sgr_before(data@, depth, w as int, h as int, r as int, 0),
    ensures
        sgr@ == sgr_before(data@, depth, w as int, h as int, r + 1, 0),
        final(buf)@ == old(buf)@ + row_bytes(data@, depth, w as int, h as int, r as int, w as nat),
{
    let ghost above = buf@;
    text::push_bytes(buf, "\x1b[");
    text::push_decimal_bytes(buf, r as u64 + 1);
    text::push_bytes(buf, ";1H");
    let mut sgr = last;
    let mut c: usize = 0;
    while c < w
        invariant
            data@.len() >= BODY,
            r < h <= 0xffff,
            0 < w <= 0xffff,
            c <= w,
            buf@ == above + row_bytes(data@, depth, w as int, h as int, r as int, c as nat),
            sgr@ == sgr_before(data@, depth, w as int, h as int, r as int, c as int),
        decreases w - c,
    {
        sgr = push_tile(buf, sgr, data, depth, w, h, r, c);
        c += 1;
    }
    sgr
}

/// Paint the whole `w`x`h` screen: the graphic where it lands, magenta elsewhere.
/// SGR is deduped run-to-run to keep the byte count down on a slow link.
pub fn render_splash(data: &[u8], depth: ColorDepth, w: u16, h: u16) -> (buf: Vec<u8>)
    requires
        data@.len() >= BODY,
    ensures
        buf@ == splash_bytes(data@, depth, w as int, h as int),
{
    let mut buf: Vec<u8> = Vec::new();
    if w == 0 || h == 0 {
        return buf;
    }
    let cols: usize = w as usize;
    let rows: usize = h as usize;
    let mut last: String = String::new();
    let mut r: usize = 0;
    while r < rows
        invariant
            data@.len() >= BODY,
            0 < rows == h,
            0 < cols == w,
            r <= rows,
            buf@ == rows_bytes(data@, depth, cols as int, rows as int, r as nat),
            last@ == sgr_before(data@, depth, cols as int, rows as int, r as int, 0),
        decreases rows - r,
    {
        last = push_row(&mut buf, last, data, depth, cols, rows, r);
        r += 1;
    }
    text::push_bytes(&mut buf, "\x1b[0m");
    buf
}

// ---------------------------------------------------------------------------
// The wait
// ---------------------------------------------------------------------------

/// How long the first probe's replies are drained, ns.
pub const SETTLE_NS: u64 = 400_000_000;

/// How long a splash stays, ns.
pub const SHOW_NS: u64 = 10_000_000_000;

/// Time between two size probes, ns.
pub const PROBE_NS: u64 = 1_000_000_000;

/// A splash on the screen.
#[derive(Clone, Copy, PartialEq, Eq, Debug, Structural)]
pub struct Splash {
    pub cols: u16,
    pub rows: u16,
    pub depth: ColorDepth,
    pub shown_at: u64,
    pub probed_at: u64,
}

/// What a poll of the splash comes to.
pub struct SplashStep {
    /// A key came: the splash is done.
    pub dismissed: bool,
    /// The terminal was resized: this repaints the splash.
    pub paint: Option<Vec<u8>>,
    /// A size probe to send.
    pub probe: Option<String>,
}

/// A usable size (columns, rows) of a cursor report (row, column).
pub open spec fn size_of(report: Option<(u16, u16)>) -> Option<(u16, u16)> {
    match report {
        Some((row, col)) => if col > 0 && row > 0 {
            Some((col, row))
        } else {
            None
        },
        None => None,
    }
}

/// Drain what a read brought while the first probe is out. `size` is what is known
/// so far, columns first; returns what is known then. The keys are dropped.
pub fn settle(input: &mut Input, bytes: &[u8], size: (u16, u16)) -> (r: (u16, u16))
    ensures
        ({
            let d = keys::polled(old(input)@, bytes@).0;
            &&& final(input)@ == (Decoder { cursor: None, ..d })
            &&& r == (match size_of(d.cursor) {
                Some(found) => found,
                None => size,
            })
        }),
{
    let _keys = input.poll(bytes);
    match input.take_cursor() {
        Some((row, col)) => if col > 0 && row > 0 {
            (col, row)
        } else {
            size
        },
        None => size,
    }
}

/// Time passed since `t`.
pub open spec fn since(now: u64, t: u64) -> int {
    if now < t {
        0
    } else {
        now - t
    }
}

/// The splash was shown for its time.
pub open spec fn is_over(s: Splash, now: u64) -> bool {
    since(now, s.shown_at) >= SHOW_NS
}

/// The size that a report brings to a shown splash, if it is another one.
pub open spec fn resized(s: Splash, report: Option<(u16, u16)>) -> Option<(u16, u16)> {
    match size_of(report) {
        Some(size) => if size != (s.cols, s.rows) {
            Some(size)
        } else {
            None
        },
        None => None,
    }
}

/// A shown splash after a poll without a key.
pub open spec fn waited(s: Splash, report: Option<(u16, u16)>, now: u64) -> Splash {
    let sized = match resized(s, report) {
        Some((cols, rows)) => Splash { cols, rows, ..s },
        None => s,
    };
    if since(now, s.probed_at) >= PROBE_NS {
        Splash { probed_at: now, ..sized }
    } else {
        sized
    }
}

impl Splash {
    /// A splash shown at `now`, in the color depth that the probe resolved.
    pub fn new(size: (u16, u16), setting: ColorSetting, input: &Input, now: u64) -> (r: Self)
        ensures
            r == (Splash {
                cols: size.0,
                rows: size.1,
                depth: color::depth_of(setting, input@.color_probe),
                shown_at: now,
                probed_at: now,
            }),
    {
        Splash {
            cols: size.0,
            rows: size.1,
            depth: setting.resolve(input.color_probe()),
            shown_at: now,
            probed_at: now,
        }
    }

    /// Whether the splash had its time.
    pub fn expired(&self, now: u64) -> (r: bool)
        ensures
            r == (since(now, self.shown_at) >= SHOW_NS),
            r == is_over(*self, now),
    {
        now.saturating_sub(self.shown_at) >= SHOW_NS
    }

    /// One poll of a shown splash: any key dismisses it; it is repainted if the
    /// terminal resizes meanwhile; the size is probed once a second.
    pub fn step(&mut self, input: &mut Input, bytes: &[u8], data: &[u8], now: u64) -> (r: SplashStep)
        requires
            data@.len() >= BODY,
        ensures
            ({
                let (d, keys) = keys::polled(old(input)@, bytes@);
                if keys.len() > 0 {
                    &&& r.dismissed && r.paint is None && r.probe is None
                    &&& *final(self) == *old(self)
                    &&& final(input)@ == d
                } else {
                    &&& !r.dismissed
                    &&& *final(self) == waited(*old(self), d.cursor, now)
                    &&& final(input)@ == (Decoder { cursor: None, ..d })
                    &&& match (r.paint, resized(*old(self), d.cursor)) {
                        (Some(buf), Some((cols, rows))) => buf@ == splash_bytes(
                            data@,
                            old(self).depth,
                            cols as int,
                            rows as int,
                        ),
                        (None, None) => true,
                        _ => false,
                    }
                    &&& match r.probe {
                        Some(s) => since(now, old(self).probed_at) >= PROBE_NS && s@
                            == session::probe_text(!d.da1_seen),
                        None => since(now, old(self).probed_at) < PROBE_NS,
                    }
                }
            }),
    {
        if input.poll(bytes).len() > 0 {
            return SplashStep { dismissed: true, paint: None, probe: None };
        }
        let mut paint: Option<Vec<u8>> = None;
        if let Some((row, col)) = input.take_cursor() {
            if col > 0 && row > 0 && (col != self.cols || row != self.rows) {
                self.cols = col;
                self.rows = row;
                paint = Some(render_splash(data, self.depth, col, row));
            }
        }
        let mut probe: Option<String> = None;
        if now.saturating_sub(self.probed_at) >= PROBE_NS {
            self.probed_at = now;
            probe = Some(session::send_size_probe(!input.caps_resolved()));
        }
        SplashStep { dismissed: false, paint, probe }
    }
}

// ---------------------------------------------------------------------------
// Laws
// ---------------------------------------------------------------------------

/// A tall screen shows every row of the graphic, once and in order, with margins
/// that differ by at most a row; a short one shows the bottom rows.
pub proof fn law_rows_are_centered_or_bottom_aligned(h: int)
    requires
        h > 0,
    ensures
        h >= GH ==> {
            let above = (h - GH) / 2;
            let below = h - GH - above;
            &&& 0 <= above <= below <= above + 1
            &&& forall|r: int|
                #![trigger row_shown(r, h)]
                0 <= r < h ==> row_shown(r, h) == (if r < above || r >= h - below {
                    None
                } else {
                    Some(r - above)
                })
        },
        h < GH ==> forall|r: int| 0 <= r < h ==> #[trigger] row_shown(r, h) == Some(GH - h + r),
{
}

/// A wide screen shows every column of the graphic, once and in order, with margins
/// that differ by at most a column; a narrow one shows its middle columns.
pub proof fn law_columns_are_centered(w: int)
    requires
        w > 0,
    ensures
        w >= GW ==> {
            let left = (w - GW) / 2;
            let right = w - GW - left;
            &&& 0 <= left <= right <= left + 1
            &&& forall|c: int|
                #![trigger col_shown(c, w)]
                0 <= c < w ==> col_shown(c, w) == (if c < left || c >= w - right {
                    None
                } else {
                    Some(c - left)
                })
        },
        w < GW ==> {
            let cut = (GW - w) / 2;
            &&& 0 <= cut <= GW - w - cut <= cut + 1
            &&& forall|c: int| 0 <= c < w ==> #[trigger] col_shown(c, w) == Some(cut + c)
        },
{
}

/// The SGR parameters that are in force once a cell was painted: those that were
/// sent last.
pub open spec fn sgr_in_force(
    data: Seq<u8>,
    depth: ColorDepth,
    w: int,
    h: int,
    r: int,
    c: int,
) -> Seq<char>
    decreases r, c,
    when w > 0
{
    let t = tile_at(data, depth, w, h, r, c);
    if r < 0 || c < 0 {
        Seq::empty()
    } else if t.sgr != sgr_before(data, depth, w, h, r, c) {
        t.sgr
    } else if c > 0 {
        sgr_in_force(data, depth, w, h, r, c - 1)
    } else if r > 0 {
        sgr_in_force(data, depth, w, h, r - 1, w - 1)
    } else {
        Seq::empty()
    }
}

/// Leaving out repeated SGR changes no color: every cell is painted with its own.
pub proof fn law_every_tile_has_its_colors(
    data: Seq<u8>,
    depth: ColorDepth,
    w: int,
    h: int,
    r: int,
    c: int,
)
    requires
        w > 0,
        0 <= r < h,
        0 <= c < w,
    ensures
        sgr_in_force(data, depth, w, h, r, c) == tile_at(data, depth, w, h, r, c).sgr,
    decreases r, c,
{
    if tile_at(data, depth, w, h, r, c).sgr == sgr_before(data, depth, w, h, r, c) {
        if c > 0 {
            law_every_tile_has_its_colors(data, depth, w, h, r, c - 1);
        } else if r > 0 {
            law_every_tile_has_its_colors(data, depth, w, h, r - 1, w - 1);
        }
    }
}

/// The colors of a PC's text mode: one bit each for blue, green and red, and one for
/// bright; the dark yellow is a brown.
pub open spec fn text_mode_rgb(i: int) -> (int, int, int) {
    let swapped = i / 8 * 8 + i % 2 * 4 + i / 2 % 2 * 2 + i / 4 % 2;
    color::vga_rgb(swapped)
}

proof fn lemma_text_mode(i: int)
    requires
        0 <= i < 16,
    ensures
        VGA16@[i]@[0] == text_mode_rgb(i).0,
        VGA16@[i]@[1] == text_mode_rgb(i).1,
        VGA16@[i]@[2] == text_mode_rgb(i).2,
{
    assert(i == 0 || i == 1 || i == 2 || i == 3 || i == 4 || i == 5 || i == 6 || i == 7 || i == 8
        || i == 9 || i == 10 || i == 11 || i == 12 || i == 13 || i == 14 || i == 15);
}

/// **A cell of the art is a character and its attribute.** The graphic is 80 columns by 32
/// rows, two bytes to a cell, row by row. The attribute's low half is the color, the next
/// three bits are the background. A zero character is a blank.
pub proof fn law_art_is_read_cell_by_cell(
    data: Seq<u8>,
    depth: ColorDepth,
    row: int,
    col: int,
)
    requires
        data.len() >= 5120,
        0 <= row < 32,
        0 <= col < 80,
    ensures
        ({
            let at = 160 * row + 2 * col;
            let ch = data[at];
            let fg = text_mode_rgb(data[at + 1] as int % 16);
            let bg = text_mode_rgb(data[at + 1] as int / 16 % 8);
            &&& is_whole(data)
            &&& art_tile(data, depth, row, col) == (Tile {
                ch: if ch == 0 {
                    32
                } else {
                    ch
                },
                sgr: color::cell_sgr_text(
                    depth,
                    fg.0 as u8,
                    fg.1 as u8,
                    fg.2 as u8,
                    bg.0 as u8,
                    bg.1 as u8,
                    bg.2 as u8,
                ),
            })
        }),
        is_whole(data) <==> data.len() >= 80 * 32 * 2,
{
    let at = 160 * row + 2 * col;
    assert((row * 80 + col) * 2 == at);
    lemma_text_mode(data[at + 1] as int % 16);
    lemma_text_mode(data[at + 1] as int / 16 % 8);
}

/// Around the art the screen is magenta.
pub proof fn law_margin_is_magenta(data: Seq<u8>, depth: ColorDepth, w: int, h: int, r: int, c: int)
    requires
        row_shown(r, h) is None || col_shown(c, w) is None,
    ensures
        tile_at(data, depth, w, h, r, c).ch == 32,
        tile_at(data, depth, w, h, r, c).sgr == color::cell_sgr_text(
            depth,
            170,
            0,
            170,
            170,
            0,
            170,
        ),
{
}

/// Every row is painted from its first column, cell by cell, one row after the other, and
/// the colors are reset in the end; a screen without rows or columns gets nothing.
pub proof fn law_splash_is_painted_row_by_row(
    data: Seq<u8>,
    depth: ColorDepth,
    w: int,
    h: int,
    r: int,
    n: nat,
)
    requires
        0 <= r,
    ensures
        w == 0 || h == 0 ==> splash_bytes(data, depth, w, h) == Seq::<u8>::empty(),
        w > 0 && h > 0 ==> splash_bytes(data, depth, w, h) == rows_bytes(
            data,
            depth,
            w,
            h,
            h as nat,
        ) + text::bytes_of("\x1b[0m"@),
        row_bytes(data, depth, w, h, r, 0) == crate::renderer::control(
            seq![(r + 1) as nat, 1],
            'H',
        ),
        row_bytes(data, depth, w, h, r, n + 1) == row_bytes(data, depth, w, h, r, n) + tile_bytes(
            data,
            depth,
            w,
            h,
            r,
            n as int,
        ),
        rows_bytes(data, depth, w, h, n + 1) == rows_bytes(data, depth, w, h, n) + row_bytes(
            data,
            depth,
            w,
            h,
            n as int,
            w as nat,
        ),
        tile_bytes(data, depth, w, h, r, n as int).last() == tile_at(
            data,
            depth,
            w,
            h,
            r,
            n as int,
        ).ch,
{
    reveal_strlit("\x1b[");
    reveal_strlit(";1H");
    reveal_with_fuel(text::decimal, 2);
    reveal_with_fuel(crate::renderer::separated, 3);
    let p = seq![(r + 1) as nat, 1];
    assert(p.drop_last() == seq![(r + 1) as nat]);
    assert(text::decimal(1) == seq!['1']);
    assert(row_bytes(data, depth, w, h, r, 0) =~= crate::renderer::control(p, 'H'));
}

/// A report of rows and columns is the size it says, unless one of them is zero. The splash
/// is painted anew when that is another size, asks for it once a second, and is over after
/// ten seconds.
pub proof fn law_splash_follows_the_terminal(s: Splash, rows: u16, cols: u16, now: u64)
    ensures
        size_of(Some((rows, cols))) == (if rows > 0 && cols > 0 {
            Some((cols, rows))
        } else {
            None
        }),
        size_of(None) is None,
        resized(s, Some((rows, cols))) is Some <==> rows > 0 && cols > 0 && (cols != s.cols || rows
            != s.rows),
        resized(s, Some((rows, cols))) matches Some(size) ==> size == (cols, rows) && waited(
            s,
            Some((rows, cols)),
            now,
        ).cols == cols && waited(s, Some((rows, cols)), now).rows == rows,
        waited(s, None, now).cols == s.cols && waited(s, None, now).rows == s.rows,
        waited(s, None, now).probed_at == (if now >= s.probed_at + 1_000_000_000 {
            now
        } else {
            s.probed_at
        }),
        is_over(s, now) <==> now >= s.shown_at + 10_000_000_000,
        waited(s, None, now).shown_at == s.shown_at && waited(s, None, now).depth == s.depth,
{
}

/// What stands at a place of the screen: a cell of the graphic, which is centered where it
/// fits and otherwise shown by its middle columns and its last rows; around it, the margin.
pub proof fn law_graphic_is_centered(
    data: Seq<u8>,
    depth: ColorDepth,
    w: int,
    h: int,
    r: int,
    c: int,
)
    requires
        0 <= r < h,
        0 <= c < w,
    ensures
        ({
            let down = if h < GH {
                h - GH
            } else {
                (h - GH) / 2
            };
            let across = if w < GW {
                -((GW - w) / 2)
            } else {
                (w - GW) / 2
            };
            tile_at(data, depth, w, h, r, c) == (if 0 <= r - down < GH && 0 <= c - across < GW {
                art_tile(data, depth, r - down, c - across)
            } else {
                fill_tile(depth)
            })
        }),
{
}

/// Colors are sent where they change, from one cell to the next in reading order.
pub proof fn law_colors_are_sent_when_they_change(
    data: Seq<u8>,
    depth: ColorDepth,
    w: int,
    h: int,
    r: int,
    c: int,
)
    requires
        0 <= r,
        0 <= c < w,
        r > 0 || c > 0,
    ensures
        ({
            let before = if c > 0 {
                tile_at(data, depth, w, h, r, c - 1)
            } else {
                tile_at(data, depth, w, h, r - 1, w - 1)
            };
            let here = tile_at(data, depth, w, h, r, c);
            tile_bytes(data, depth, w, h, r, c) == (if here.sgr == before.sgr {
                seq![here.ch]
            } else {
                text::bytes_of("\x1b["@ + here.sgr + "m"@) + seq![here.ch]
            })
        }),
{
    let here = tile_at(data, depth, w, h, r, c);
    assert(text::bytes_of("\x1b["@ + here.sgr + "m"@) =~= text::bytes_of("\x1b["@)
        + text::bytes_of(here.sgr) + text::bytes_of("m"@));
    assert(Seq::<u8>::empty() + seq![here.ch] =~= seq![here.ch]);
}

} // verus!
