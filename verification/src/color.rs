//! Output color-depth model and RGB quantization.
//!
//! The door renders from a full-RGB framebuffer but the caller's terminal may not
//! do 24-bit color. `ColorDepth` picks how each cell is encoded:
//!
//!   - **Truecolor**: 24-bit `38;2;r;g;b`, the menu's native output.
//!   - **256**: the xterm 6x6x6 cube / gray ramp (`38;5;N`); half the bytes of
//!     truecolor and the game's default tier.
//!   - **16**: the classic ANSI palette (`3N`/`4N`) with ordered dithering, for
//!     terminals with no extended color at all.
//!
//! The 16-color palette is in **ANSI SGR order**, so that `index == 3<index>m`.

use crate::text;
use vstd::prelude::*;

verus! {

/// Resolved output color depth (what the renderer actually emits).
#[derive(Clone, Copy, PartialEq, Eq, Debug, Structural)]
pub enum ColorDepth {
    True,
    C256,
    C16,
}

/// The user-facing color setting: an explicit depth, or `Auto` (auto-probe with a
/// truecolor default, downgraded to 256 only on explicit evidence: see
/// `resolve`). 16 is never auto-selected; the DECRQSS probe can't detect it.
#[derive(Clone, Copy, PartialEq, Eq, Debug, Structural)]
pub enum ColorSetting {
    Auto,
    True,
    C256,
    C16,
}

/// ini/config spelling of a setting.
pub open spec fn slug_of(c: ColorSetting) -> Seq<char> {
    match c {
        ColorSetting::Auto => "auto"@,
        ColorSetting::True => "truecolor"@,
        ColorSetting::C256 => "256"@,
        ColorSetting::C16 => "16"@,
    }
}

/// Menu label of a setting.
pub open spec fn label_of(c: ColorSetting) -> Seq<char> {
    match c {
        ColorSetting::Auto => "Auto"@,
        ColorSetting::True => "Truecolor"@,
        ColorSetting::C256 => "256"@,
        ColorSetting::C16 => "16"@,
    }
}

/// The setting that a lowercase word means.
pub open spec fn setting_named(w: Seq<char>) -> Option<ColorSetting> {
    if w == "auto"@ || w == "detect"@ {
        Some(ColorSetting::Auto)
    } else if w == "truecolor"@ || w == "true"@ || w == "rgb"@ || w == "24bit"@ {
        Some(ColorSetting::True)
    } else if w == "256"@ || w == "256color"@ || w == "xterm"@ {
        Some(ColorSetting::C256)
    } else if w == "16"@ || w == "16color"@ || w == "classic"@ || w == "ansi"@ {
        Some(ColorSetting::C16)
    } else {
        None
    }
}

/// Cycle order for the Left/Right menu control.
pub open spec fn setting_after(c: ColorSetting) -> ColorSetting {
    match c {
        ColorSetting::Auto => ColorSetting::True,
        ColorSetting::True => ColorSetting::C256,
        ColorSetting::C256 => ColorSetting::C16,
        ColorSetting::C16 => ColorSetting::Auto,
    }
}

pub open spec fn setting_before(c: ColorSetting) -> ColorSetting {
    match c {
        ColorSetting::Auto => ColorSetting::C16,
        ColorSetting::True => ColorSetting::Auto,
        ColorSetting::C256 => ColorSetting::True,
        ColorSetting::C16 => ColorSetting::C256,
    }
}

/// The depth a setting comes to, given what auto-detection found.
pub open spec fn depth_of(c: ColorSetting, probe: Option<ColorDepth>) -> ColorDepth {
    match c {
        ColorSetting::Auto => match probe {
            Some(depth) => depth,
            None => ColorDepth::True,
        },
        ColorSetting::True => ColorDepth::True,
        ColorSetting::C256 => ColorDepth::C256,
        ColorSetting::C16 => ColorDepth::C16,
    }
}

impl ColorSetting {
    /// ini/config spelling.
    pub fn slug(self) -> (r: &'static str)
        ensures
            r@ == slug_of(self),
    {
        match self {
            ColorSetting::Auto => "auto",
            ColorSetting::True => "truecolor",
            ColorSetting::C256 => "256",
            ColorSetting::C16 => "16",
        }
    }

    /// Short label for the settings menu.
    pub fn label(self) -> (r: &'static str)
        ensures
            r@ == label_of(self),
    {
        match self {
            ColorSetting::Auto => "Auto",
            ColorSetting::True => "Truecolor",
            ColorSetting::C256 => "256",
            ColorSetting::C16 => "16",
        }
    }

    /// The setting that a lowercase word means, if it means one.
    pub fn from_word(w: &str) -> (r: Option<ColorSetting>)
        ensures
            r == setting_named(w@),
    {
        let v = text::chars_of(w);
        let w = v.as_slice();
        if text::is_word(w, "auto") || text::is_word(w, "detect") {
            Some(ColorSetting::Auto)
        } else if text::is_word(w, "truecolor") || text::is_word(w, "true") || text::is_word(
            w,
            "rgb",
        ) || text::is_word(w, "24bit") {
            Some(ColorSetting::True)
        } else if text::is_word(w, "256") || text::is_word(w, "256color") || text::is_word(
            w,
            "xterm",
        ) {
            Some(ColorSetting::C256)
        } else if text::is_word(w, "16") || text::is_word(w, "16color") || text::is_word(
            w,
            "classic",
        ) || text::is_word(w, "ansi") {
            Some(ColorSetting::C16)
        } else {
            None
        }
    }

    /// Read a setting, whatever its case and the white space around it. Every
    /// spelling that `slug` gives reads back as the setting it came from.
    pub fn parse(s: &str) -> (r: Option<ColorSetting>)
        ensures
            r == setting_named(text::lowercase(text::trimmed(s@))),
            r == setting_named(text::folded(text::trimmed(s@))),
            text::is_ascii(text::trimmed(s@)) ==> r == setting_named(
                text::ascii_lowered(text::trimmed(s@)),
            ),
            forall|c: ColorSetting| s@ == #[trigger] slug_of(c) ==> r == Some(c),
    {
        let word = text::lower_trimmed(s);
        proof {
            assert forall|c: ColorSetting| s@ == #[trigger] slug_of(c) implies setting_named(
                word@,
            ) == Some(c) by {
                law_slug_reads_back(c);
            }
        }
        Self::from_word(word.as_str())
    }

    /// Cycle order for the Left/Right menu control.
    pub fn next(self) -> (r: ColorSetting)
        ensures
            r == setting_after(self),
    {
        match self {
            ColorSetting::Auto => ColorSetting::True,
            ColorSetting::True => ColorSetting::C256,
            ColorSetting::C256 => ColorSetting::C16,
            ColorSetting::C16 => ColorSetting::Auto,
        }
    }

    pub fn prev(self) -> (r: ColorSetting)
        ensures
            r == setting_before(self),
    {
        match self {
            ColorSetting::Auto => ColorSetting::C16,
            ColorSetting::True => ColorSetting::Auto,
            ColorSetting::C256 => ColorSetting::True,
            ColorSetting::C16 => ColorSetting::C256,
        }
    }

    /// Resolve to a concrete depth. `probe` is the auto-detection result, if any:
    /// `Some(C256)` = the terminal quantized the 24-bit probe (downgrade),
    /// `Some(True)` = it kept 24-bit, `None` = silent (stay truecolor).
    pub fn resolve(self, probe: Option<ColorDepth>) -> (r: ColorDepth)
        ensures
            r == depth_of(self, probe),
    {
        match self {
            ColorSetting::Auto => match probe {
                Some(depth) => depth,
                None => ColorDepth::True,
            },
            ColorSetting::True => ColorDepth::True,
            ColorSetting::C256 => ColorDepth::C256,
            ColorSetting::C16 => ColorDepth::C16,
        }
    }
}

/// The classic 16-color ANSI palette in **SGR index order** (index N renders as
/// `ESC[3Nm`): the standard VGA text-mode colors. 0-7 normal, 8-15 bright.
pub const ANSI16: [[u8; 3]; 16] = [
    [0, 0, 0],  // 0 black
    [170, 0, 0],  // 1 red
    [0, 170, 0],  // 2 green
    [170, 85, 0],  // 3 yellow/brown
    [0, 0, 170],  // 4 blue
    [170, 0, 170],  // 5 magenta
    [0, 170, 170],  // 6 cyan
    [170, 170, 170],  // 7 light gray (white)
    [85, 85, 85],  // 8 dark gray (bright black)
    [255, 85, 85],  // 9 bright red
    [85, 255, 85],  // 10 bright green
    [255, 255, 85],  // 11 bright yellow
    [85, 85, 255],  // 12 bright blue
    [255, 85, 255],  // 13 bright magenta
    [85, 255, 255],  // 14 bright cyan
    [255, 255, 255],  // 15 white
];

/// Classic 4x4 ordered-dither threshold matrix.
pub const BAYER4: [[i32; 4]; 4] = [[0, 8, 2, 10], [12, 4, 14, 6], [3, 11, 1, 9], [15, 7, 13, 5]];

/// The six levels of a channel in the xterm color cube.
pub const CUBE_STEPS: [u8; 6] = [0, 95, 135, 175, 215, 255];

// ---------------------------------------------------------------------------
// Model of the quantizers
// ---------------------------------------------------------------------------

/// Luma-weighted squared RGB distance (green counts most).
pub open spec fn distance(r: int, g: int, b: int, p: [u8; 3]) -> int {
    let dr = r - p@[0];
    let dg = g - p@[1];
    let db = b - p@[2];
    2 * dr * dr + 4 * dg * dg + 3 * db * db
}

/// Cube level of a channel value.
pub open spec fn cube_level(v: int) -> int {
    if v < 48 {
        0
    } else if v < 115 {
        1
    } else {
        (v - 35) / 40
    }
}

/// Step of the gray ramp for an average brightness.
pub open spec fn gray_step(avg: int) -> int {
    if avg < 3 {
        0
    } else if (avg - 3) / 10 > 23 {
        23
    } else {
        (avg - 3) / 10
    }
}

/// The xterm palette index of a color: the cube entry, unless the gray-ramp
/// entry is strictly closer.
pub open spec fn xterm_index(r: int, g: int, b: int) -> int {
    let (cr, cg, cb) = (cube_level(r), cube_level(g), cube_level(b));
    let gi = gray_step((r + g + b) / 3);
    let gv = (8 + 10 * gi) as u8;
    if distance(r, g, b, [gv, gv, gv]) < distance(
        r,
        g,
        b,
        [CUBE_STEPS@[cr], CUBE_STEPS@[cg], CUBE_STEPS@[cb]],
    ) {
        232 + gi
    } else {
        16 + 36 * cr + 6 * cg + cb
    }
}

/// The first of the first `n` palette entries that lies nearest to the color.
pub open spec fn nearest_among(r: int, g: int, b: int, n: nat) -> int
    decreases n,
{
    if n <= 1 {
        0
    } else {
        let best = nearest_among(r, g, b, (n - 1) as nat);
        if distance(r, g, b, ANSI16@[n - 1]) < distance(r, g, b, ANSI16@[best]) {
            n - 1
        } else {
            best
        }
    }
}

/// Dither bias of a screen position.
pub open spec fn dither(x: int, y: int) -> int {
    (BAYER4@[y % 4]@[x % 4] * 2 - 15) * 2
}

pub open spec fn clamped(v: int) -> int {
    if v < 0 {
        0
    } else if v > 255 {
        255
    } else {
        v
    }
}

/// The ANSI index of a color at a screen position.
pub open spec fn ansi_index(r: u8, g: u8, b: u8, x: int, y: int) -> int {
    let d = dither(x, y);
    nearest_among(clamped(r + d), clamped(g + d), clamped(b + d), 16)
}

/// How much bright color `8 + i` loses when snapped to its dark twin `i`.
pub open spec fn twin_loss(i: int) -> int {
    let c = ANSI16@[8 + i];
    distance(c@[0] as int, c@[1] as int, c@[2] as int, ANSI16@[i])
}

/// CP437 half-block glyphs used by `pack_cell16`.
pub const FULL_BLOCK: u8 = 0xDB;

// █
pub const UPPER_HALF: u8 = 0xDF;

// ▀
pub const LOWER_HALF: u8 = 0xDC;

// ▄
pub const SPACE: u8 = 0x20;

/// The classic-ANSI foreground, background and glyph of a half-block cell.
pub open spec fn packed(t: u8, b: u8) -> (u8, u8, u8) {
    if t == b {
        if t < 8 {
            (7, t, SPACE)
        } else {
            (t, 0, FULL_BLOCK)
        }
    } else if t >= 8 && b >= 8 {
        if twin_loss(b - 8) <= twin_loss(t - 8) {
            (t, (b - 8) as u8, UPPER_HALF)
        } else {
            (b, (t - 8) as u8, LOWER_HALF)
        }
    } else if b >= 8 {
        (b, t, LOWER_HALF)
    } else {
        (t, b, UPPER_HALF)
    }
}

/// The top and bottom halves that a packed cell shows.
pub open spec fn halves_shown(cell: (u8, u8, u8)) -> (u8, u8) {
    let (fg, bg, glyph) = cell;
    if glyph == 0x20 {
        (bg, bg)
    } else if glyph == 0xDB {
        (fg, fg)
    } else if glyph == 0xDC {
        (bg, fg)
    } else {
        (fg, bg)
    }
}

/// Classic SGR params for a packed cell.
pub open spec fn sgr16_text(fg: int, bg: int) -> Seq<char> {
    if fg < 8 {
        "0;3"@ + text::decimal(fg as nat) + ";4"@ + text::decimal(bg as nat)
    } else {
        "1;3"@ + text::decimal((fg - 8) as nat) + ";4"@ + text::decimal(bg as nat)
    }
}

/// Three channels, `;` between them.
pub open spec fn rgb_text(r: u8, g: u8, b: u8) -> Seq<char> {
    text::decimal(r as nat) + ";"@ + text::decimal(g as nat) + ";"@ + text::decimal(b as nat)
}

/// SGR params of a foreground RGB over a background RGB.
pub open spec fn cell_sgr_text(
    depth: ColorDepth,
    fr: u8,
    fg: u8,
    fb: u8,
    br: u8,
    bg: u8,
    bb: u8,
) -> Seq<char> {
    match depth {
        ColorDepth::True => "38;2;"@ + rgb_text(fr, fg, fb) + ";48;2;"@ + rgb_text(br, bg, bb),
        ColorDepth::C256 => "38;5;"@ + text::decimal(
            xterm_index(fr as int, fg as int, fb as int) as nat,
        ) + ";48;5;"@ + text::decimal(xterm_index(br as int, bg as int, bb as int) as nat),
        ColorDepth::C16 => sgr16_text(
            ansi_index(fr, fg, fb, 0, 0),
            ansi_index(br, bg, bb, 0, 0) % 8,
        ),
    }
}

/// SGR params of a foreground RGB.
pub open spec fn fg_sgr_text(depth: ColorDepth, r: u8, g: u8, b: u8) -> Seq<char> {
    match depth {
        ColorDepth::True => "38;2;"@ + rgb_text(r, g, b),
        ColorDepth::C256 => "38;5;"@ + text::decimal(
            xterm_index(r as int, g as int, b as int) as nat,
        ),
        ColorDepth::C16 => {
            let i = ansi_index(r, g, b, 0, 0);
            if i < 8 {
                "3"@ + text::decimal(i as nat)
            } else {
                "9"@ + text::decimal((i - 8) as nat)
            }
        },
    }
}

// ---------------------------------------------------------------------------
// Quantizers
// ---------------------------------------------------------------------------

proof fn lemma_square_bound(d: int)
    requires
        -255 <= d <= 255,
    ensures
        0 <= d * d <= 65025,
{
    assert(0 <= d * d <= 65025) by (nonlinear_arith)
        requires
            -255 <= d <= 255,
    ;
}

/// Luma-weighted squared RGB distance (green counts most).
fn cdist(r: i32, g: i32, b: i32, p: [u8; 3]) -> (d: i32)
    requires
        0 <= r <= 255,
        0 <= g <= 255,
        0 <= b <= 255,
    ensures
        d == distance(r as int, g as int, b as int, p),
        0 <= d < i32::MAX,
{
    let dr: i32 = r - p[0] as i32;
    let dg: i32 = g - p[1] as i32;
    let db: i32 = b - p[2] as i32;
    proof {
        lemma_square_bound(dr as int);
        lemma_square_bound(dg as int);
        lemma_square_bound(db as int);
        assert(2 * dr * dr == 2 * (dr * dr)) by (nonlinear_arith);
        assert(4 * dg * dg == 4 * (dg * dg)) by (nonlinear_arith);
        assert(3 * db * db == 3 * (db * db)) by (nonlinear_arith);
    }
    2 * dr * dr + 4 * dg * dg + 3 * db * db
}

fn clamp_u8(v: i32) -> (r: i32)
    ensures
        r == clamped(v as int),
{
    if v < 0 {
        0
    } else if v > 255 {
        255
    } else {
        v
    }
}

fn cube_index(v: u8) -> (r: usize)
    ensures
        r == cube_level(v as int),
        r < 6,
{
    if v < 48 {
        0
    } else if v < 115 {
        1
    } else {
        (v as usize - 35) / 40
    }
}

/// Map RGB to the xterm 256-color palette: the 6x6x6 cube or the 24-step gray
/// ramp, whichever lands closer.
pub fn xterm256(r: u8, g: u8, b: u8) -> (i: u8)
    ensures
        i == xterm_index(r as int, g as int, b as int),
        i >= 16,
{
    let cr: usize = cube_index(r);
    let cg: usize = cube_index(g);
    let cb: usize = cube_index(b);
    let cube_d: i32 = cdist(
        r as i32,
        g as i32,
        b as i32,
        [CUBE_STEPS[cr], CUBE_STEPS[cg], CUBE_STEPS[cb]],
    );
    let avg: i32 = (r as i32 + g as i32 + b as i32) / 3;
    let gi: i32 = if avg < 3 {
        0
    } else if (avg - 3) / 10 > 23 {
        23
    } else {
        (avg - 3) / 10
    };
    let gv: u8 = (8 + 10 * gi) as u8;
    if cdist(r as i32, g as i32, b as i32, [gv, gv, gv]) < cube_d {
        return (232 + gi) as u8;
    }
    (16 + 36 * cr + 6 * cg + cb) as u8
}

proof fn lemma_nearest_bounds(r: int, g: int, b: int, n: nat)
    ensures
        0 <= nearest_among(r, g, b, n),
        n >= 1 ==> nearest_among(r, g, b, n) < n,
    decreases n,
{
    if n > 1 {
        lemma_nearest_bounds(r, g, b, (n - 1) as nat);
    }
}

/// Map RGB to the 16-color ANSI palette with a position-fixed ordered-dither
/// bias, so flat gradients blend between the two nearest palette colors instead
/// of banding. The bias depends only on screen position: a static scene still
/// deltas to nothing frame-over-frame.
///
/// The amplitude is +/-30. The Game Boy's four shades sit at 0/85/170/255, exactly
/// on ANSI black/dark-gray/light-gray/white, each 42.5 from the boundary with its
/// neighbor. Keeping the bias under 42.5 means those flats never speckle, while
/// continuous color still blends.
pub fn nearest16(r: u8, g: u8, b: u8, x: usize, y: usize) -> (i: u8)
    ensures
        i == ansi_index(r, g, b, x as int, y as int),
        i < 16,
{
    let row = BAYER4[y % 4];
    let d: i32 = (row[x % 4] * 2 - 15) * 2;
    let rr: i32 = clamp_u8(r as i32 + d);
    let gg: i32 = clamp_u8(g as i32 + d);
    let bb: i32 = clamp_u8(b as i32 + d);
    let mut best: usize = 0;
    let mut best_d: i32 = cdist(rr, gg, bb, ANSI16[0]);
    let mut i: usize = 1;
    while i < 16
        invariant
            1 <= i <= 16,
            best < i,
            0 <= rr <= 255,
            0 <= gg <= 255,
            0 <= bb <= 255,
            best == nearest_among(rr as int, gg as int, bb as int, i as nat),
            best_d == distance(rr as int, gg as int, bb as int, ANSI16@[best as int]),
        decreases 16 - i,
    {
        let dd: i32 = cdist(rr, gg, bb, ANSI16[i]);
        if dd < best_d {
            best = i;
            best_d = dd;
        }
        i += 1;
    }
    best as u8
}

/// How much bright color `8+i` loses when snapped to its dark twin `i` (used when
/// both halves of a cell want a bright background).
fn twin_penalty(i: u8) -> (r: i32)
    requires
        i < 8,
    ensures
        r == twin_loss(i as int),
{
    let c = ANSI16[8 + i as usize];
    cdist(c[0] as i32, c[1] as i32, c[2] as i32, ANSI16[i as usize])
}

/// Resolve a half-block cell (top/bottom palette indexes) into classic-ANSI
/// fg/bg/glyph. Classic backgrounds only span the 8 dark colors (no iCE-color
/// assumption), so a bright bottom half flips the glyph to the lower-half block:
/// the bright color rides in the foreground; if both halves are bright, the one
/// that loses least snaps to its dark twin.
pub fn pack_cell16(t16: u8, b16: u8) -> (r: (u8, u8, u8))
    requires
        t16 != b16 && t16 >= 8 && b16 >= 8 ==> t16 < 16 && b16 < 16,
    ensures
        r == packed(t16, b16),
{
    if t16 == b16 {
        if t16 < 8 {
            return (7, t16, SPACE);  // solid dark cell: a space on that background
        }
        return (t16, 0, FULL_BLOCK);  // solid bright cell: full block
    }
    if t16 >= 8 && b16 >= 8 {
        if twin_penalty(b16 - 8) <= twin_penalty(t16 - 8) {
            return (t16, b16 - 8, UPPER_HALF);
        }
        return (b16, t16 - 8, LOWER_HALF);
    }
    if b16 >= 8 {
        return (b16, t16, LOWER_HALF);  // fg paints the bottom
    }
    (t16, b16, UPPER_HALF)  // fg paints the top
}

/// Build the classic SGR params (no `ESC[` / `m`) for a `pack_cell16` result. bg
/// is always one of the 8 dark colors there, so plain `4N` suffices; a bright fg
/// uses the bold attribute.
pub fn sgr16(fg: u8, bg: u8) -> (r: String)
    ensures
        r@ == sgr16_text(fg as int, bg as int),
{
    let mut s = String::new();
    if fg < 8 {
        s.append("0;3");
        text::push_decimal(&mut s, fg as u64);
    } else {
        s.append("1;3");
        text::push_decimal(&mut s, (fg - 8) as u64);
    }
    s.append(";4");
    text::push_decimal(&mut s, bg as u64);
    s
}

fn push_rgb(s: &mut String, r: u8, g: u8, b: u8)
    ensures
        final(s)@ == old(s)@ + rgb_text(r, g, b),
{
    text::push_decimal(s, r as u64);
    s.append(";");
    text::push_decimal(s, g as u64);
    s.append(";");
    text::push_decimal(s, b as u64);
    assert(s@ == old(s)@ + rgb_text(r, g, b));
}

/// Full SGR params (no `ESC[`/`m`) painting a foreground RGB over a background
/// RGB at the given depth: used to render a CP437 cell (the splash `.bin`). The
/// 16-color form masks the background to the 8 normal colors (bright bg is
/// unreliable on classic terminals) and uses the bold bit for bright foregrounds.
pub fn cell_sgr(depth: ColorDepth, fr: u8, fg: u8, fb: u8, br: u8, bg: u8, bb: u8) -> (r: String)
    ensures
        r@ == cell_sgr_text(depth, fr, fg, fb, br, bg, bb),
{
    let mut s = String::new();
    match depth {
        ColorDepth::True => {
            s.append("38;2;");
            push_rgb(&mut s, fr, fg, fb);
            s.append(";48;2;");
            push_rgb(&mut s, br, bg, bb);
        },
        ColorDepth::C256 => {
            s.append("38;5;");
            text::push_decimal(&mut s, xterm256(fr, fg, fb) as u64);
            s.append(";48;5;");
            text::push_decimal(&mut s, xterm256(br, bg, bb) as u64);
        },
        // Exact-palette VGA art maps back to its ANSI index with no dither needed.
        ColorDepth::C16 => {
            return sgr16(nearest16(fr, fg, fb, 0, 0), nearest16(br, bg, bb, 0, 0) % 8);
        },
    }
    s
}

/// SGR params for a single foreground RGB in the given depth (no `ESC[`/`m`).
/// Used by overlays (FPS counter) that draw on the default background. The
/// 16-color form uses the aixterm codes, 30-37 normal and 90-97 bright: explicit
/// bright (not the bold `1;3N` form), so a terminal that doesn't brighten bold
/// still shows bright white as bright.
pub fn fg_sgr(depth: ColorDepth, r: u8, g: u8, b: u8) -> (s: String)
    ensures
        s@ == fg_sgr_text(depth, r, g, b),
{
    let mut s = String::new();
    match depth {
        ColorDepth::True => {
            s.append("38;2;");
            push_rgb(&mut s, r, g, b);
        },
        ColorDepth::C256 => {
            s.append("38;5;");
            text::push_decimal(&mut s, xterm256(r, g, b) as u64);
        },
        ColorDepth::C16 => {
            let i: u8 = nearest16(r, g, b, 0, 0);
            if i < 8 {
                s.append("3");
                text::push_decimal(&mut s, i as u64);
            } else {
                s.append("9");
                text::push_decimal(&mut s, (i - 8) as u64);
            }
        },
    }
    s
}

// ---------------------------------------------------------------------------
// Laws
// ---------------------------------------------------------------------------

/// A setting's spelling is a plain ASCII word without white space around it, and
/// means the setting.
pub proof fn law_slug_reads_back(c: ColorSetting)
    ensures
        text::is_ascii(slug_of(c)),
        text::trimmed(slug_of(c)) == slug_of(c),
        text::ascii_lowered(slug_of(c)) == slug_of(c),
        setting_named(slug_of(c)) == Some(c),
{
    reveal_strlit("auto");
    reveal_strlit("truecolor");
    reveal_strlit("256");
    reveal_strlit("16");
    reveal_strlit("detect");
    reveal_strlit("true");
    reveal_strlit("rgb");
    reveal_strlit("24bit");
    reveal_strlit("256color");
    reveal_strlit("xterm");
    let w = slug_of(c);
    assert(text::ascii_lowered(w) =~= w);
    assert("16"@[0] == '1' && "auto"@[0] == 'a' && "detect"@[0] == 'd' && "truecolor"@.len() == 9
        && "true"@.len() == 4);
}

/// The cycle of settings: stepping forward and back again (or back and forward)
/// changes nothing, and four steps come full circle.
pub proof fn law_settings_cycle(c: ColorSetting)
    ensures
        setting_before(setting_after(c)) == c,
        setting_after(setting_before(c)) == c,
        setting_after(setting_after(setting_after(setting_after(c)))) == c,
        c == ColorSetting::Auto ==> setting_after(c) == ColorSetting::True && setting_after(
            setting_after(c),
        ) == ColorSetting::C256 && setting_before(c) == ColorSetting::C16,
{
}

/// An explicit setting is honored whatever was probed; without evidence the
/// automatic one stays at truecolor, and 16 colors are never chosen for the user.
pub proof fn law_auto_is_conservative(probe: Option<ColorDepth>)
    ensures
        depth_of(ColorSetting::True, probe) == ColorDepth::True,
        depth_of(ColorSetting::C256, probe) == ColorDepth::C256,
        depth_of(ColorSetting::C16, probe) == ColorDepth::C16,
        depth_of(ColorSetting::Auto, None) == ColorDepth::True,
        probe matches Some(found) ==> depth_of(ColorSetting::Auto, probe) == found,
        probe != Some(ColorDepth::C16) ==> depth_of(ColorSetting::Auto, probe) != ColorDepth::C16,
{
}

/// The cube level of a channel is a level nearest to it.
pub proof fn law_cube_level_is_nearest(v: u8, level: int)
    requires
        0 <= level < 6,
    ensures
        0 <= cube_level(v as int) < 6,
        ({
            let step = CUBE_STEPS@[cube_level(v as int)];
            let other = CUBE_STEPS@[level];
            let d = if v < step {
                step - v
            } else {
                v - step
            };
            let e = if v < other {
                other - v
            } else {
                v - other
            };
            &&& d <= e
            &&& d == e ==> level <= cube_level(v as int)
        }),
{
}

/// The palette entry that `nearest16` settles on is the first of the nearest:
/// none lies nearer, and every entry before it lies farther away.
pub proof fn law_nearest_is_first_minimum(r: int, g: int, b: int, n: nat, j: int)
    requires
        0 <= j < n <= 16,
    ensures
        distance(r, g, b, ANSI16@[nearest_among(r, g, b, n)]) <= distance(r, g, b, ANSI16@[j]),
        j < nearest_among(r, g, b, n) ==> distance(
            r,
            g,
            b,
            ANSI16@[nearest_among(r, g, b, n)],
        ) < distance(r, g, b, ANSI16@[j]),
    decreases n,
{
    if n > 1 {
        lemma_nearest_bounds(r, g, b, (n - 1) as nat);
        if j < n - 1 {
            law_nearest_is_first_minimum(r, g, b, (n - 1) as nat, j);
        } else {
            let best = nearest_among(r, g, b, (n - 1) as nat);
            law_nearest_is_first_minimum(r, g, b, (n - 1) as nat, best);
        }
    }
}

proof fn lemma_dither_amplitude(x: int, y: int)
    requires
        0 <= x,
        0 <= y,
    ensures
        -30 <= dither(x, y) <= 30,
{
}

/// The palette: eight dark colors, of which brown breaks the pattern, and their
/// bright twins.
proof fn lemma_palette(i: int)
    requires
        0 <= i < 16,
    ensures
        ({
            let p = ANSI16@[i]@;
            let (off, on): (int, int) = if i < 8 {
                (0, 170)
            } else {
                (85, 255)
            };
            if i == 3 {
                p[0] == 170 && p[1] == 85 && p[2] == 0
            } else {
                &&& p[0] == if i % 2 == 1 { on } else { off }
                &&& p[1] == if i / 2 % 2 == 1 { on } else { off }
                &&& p[2] == if i / 4 % 2 == 1 { on } else { off }
            }
        }),
{
    assert(i == 0 || i == 1 || i == 2 || i == 3 || i == 4 || i == 5 || i == 6 || i == 7 || i == 8
        || i == 9 || i == 10 || i == 11 || i == 12 || i == 13 || i == 14 || i == 15);
}

/// Two palette colors lie well apart: by 85 in green or in blue, or by 170 in red.
proof fn lemma_palette_gap(i: int, j: int)
    requires
        0 <= i < 16,
        0 <= j < 16,
        i != j,
    ensures
        ({
            let (p, q) = (ANSI16@[i]@, ANSI16@[j]@);
            ||| p[1] - q[1] >= 85
            ||| q[1] - p[1] >= 85
            ||| p[2] - q[2] >= 85
            ||| q[2] - p[2] >= 85
            ||| p[0] - q[0] >= 170
            ||| q[0] - p[0] >= 170
        }),
{
    lemma_palette(i);
    lemma_palette(j);
}

proof fn lemma_weight(k: int, d: int)
    requires
        k >= 1,
    ensures
        k * d * d >= 0,
        -30 <= d <= 30 ==> k * d * d <= 900 * k,
        d <= -55 || 55 <= d ==> k * d * d >= 3025 * k,
        d <= -140 || 140 <= d ==> k * d * d >= 19600 * k,
{
    assert(k * d * d == k * (d * d)) by (nonlinear_arith);
    assert(d * d >= 0) by (nonlinear_arith);
    assert(k * (d * d) >= 0) by (nonlinear_arith)
        requires
            k >= 1,
            d * d >= 0,
    ;
    if -30 <= d <= 30 {
        assert(k * (d * d) <= 900 * k) by (nonlinear_arith)
            requires
                k >= 1,
                -30 <= d <= 30,
        ;
    }
    if d <= -55 || 55 <= d {
        assert(d * d >= 3025) by (nonlinear_arith)
            requires
                d <= -55 || 55 <= d,
        ;
        assert(k * (d * d) >= 3025 * k) by (nonlinear_arith)
            requires
                k >= 1,
                d * d >= 3025,
        ;
    }
    if d <= -140 || 140 <= d {
        assert(d * d >= 19600) by (nonlinear_arith)
            requires
                d <= -140 || 140 <= d,
        ;
        assert(k * (d * d) >= 19600 * k) by (nonlinear_arith)
            requires
                k >= 1,
                d * d >= 19600,
        ;
    }
}

/// A color within the dither's amplitude of a palette color, in every channel, is
/// nearer to that one than to any other.
proof fn lemma_other_is_farther(r: int, g: int, b: int, i: int, j: int)
    requires
        0 <= i < 16,
        0 <= j < 16,
        i != j,
        -30 <= r - ANSI16@[i]@[0] <= 30,
        -30 <= g - ANSI16@[i]@[1] <= 30,
        -30 <= b - ANSI16@[i]@[2] <= 30,
    ensures
        distance(r, g, b, ANSI16@[i]) < distance(r, g, b, ANSI16@[j]),
{
    let (p, q) = (ANSI16@[i]@, ANSI16@[j]@);
    lemma_palette_gap(i, j);
    lemma_weight(2, r - p[0]);
    lemma_weight(4, g - p[1]);
    lemma_weight(3, b - p[2]);
    lemma_weight(2, r - q[0]);
    lemma_weight(4, g - q[1]);
    lemma_weight(3, b - q[2]);
}

/// Every color of the palette keeps its index at every screen position: the dither
/// never turns one into another.
pub proof fn law_palette_colors_are_solid(i: int, x: int, y: int)
    requires
        0 <= i < 16,
        0 <= x,
        0 <= y,
    ensures
        ansi_index(ANSI16@[i]@[0], ANSI16@[i]@[1], ANSI16@[i]@[2], x, y) == i,
{
    lemma_dither_amplitude(x, y);
    let d = dither(x, y);
    let p = ANSI16@[i]@;
    let (r, g, b) = (clamped(p[0] + d), clamped(p[1] + d), clamped(p[2] + d));
    let found = nearest_among(r, g, b, 16);
    lemma_nearest_bounds(r, g, b, 16);
    law_nearest_is_first_minimum(r, g, b, 16, i);
    if found != i {
        lemma_other_is_farther(r, g, b, i, found);
    }
}

/// The four shades of a Game Boy land on solid ANSI grays at every screen
/// position: no dither speckle.
pub proof fn law_shades_are_solid(x: int, y: int)
    requires
        0 <= x,
        0 <= y,
    ensures
        ansi_index(0, 0, 0, x, y) == 0,
        ansi_index(85, 85, 85, x, y) == 8,
        ansi_index(170, 170, 170, x, y) == 7,
        ansi_index(255, 255, 255, x, y) == 15,
{
    lemma_palette(0);
    lemma_palette(7);
    lemma_palette(8);
    lemma_palette(15);
    law_palette_colors_are_solid(0, x, y);
    law_palette_colors_are_solid(7, x, y);
    law_palette_colors_are_solid(8, x, y);
    law_palette_colors_are_solid(15, x, y);
}

/// The bias depends only on the position within the 4x4 dither tile.
pub proof fn law_dither_is_fixed_to_the_screen(r: u8, g: u8, b: u8, x: int, y: int)
    requires
        0 <= x,
        0 <= y,
    ensures
        ansi_index(r, g, b, x, y) == ansi_index(r, g, b, x % 4, y % 4),
{
}

/// A packed cell never needs a bright background, and shows each half as asked,
/// but where both halves are bright and differ: then one of them is shown as its
/// dark twin.
pub proof fn law_packed_cell_is_faithful(t: u8, b: u8)
    requires
        t < 16,
        b < 16,
    ensures
        packed(t, b).1 < 8,
        packed(t, b).0 < 16,
        packed(t, b).2 == 0x20 || packed(t, b).2 == 0xDB || packed(t, b).2 == 0xDC || packed(
            t,
            b,
        ).2 == 0xDF,
        ({
            let shown = halves_shown(packed(t, b));
            if t >= 8 && b >= 8 && t != b {
                shown == (t, (b - 8) as u8) || shown == ((t - 8) as u8, b)
            } else {
                shown == (t, b)
            }
        }),
{
}

/// How far two colors lie apart, as the eye weighs it.
pub open spec fn apart(a: (int, int, int), b: (int, int, int)) -> int {
    2 * ((a.0 - b.0) * (a.0 - b.0)) + 4 * ((a.1 - b.1) * (a.1 - b.1)) + 3 * ((a.2 - b.2) * (a.2
        - b.2))
}

/// Entry `i` of the 16-color palette, as the PC's display adapters had it: one bit
/// each for red, green and blue, and one for bright; the dark yellow is a brown.
pub open spec fn vga_rgb(i: int) -> (int, int, int) {
    let (off, on): (int, int) = if i < 8 {
        (0, 170)
    } else {
        (85, 255)
    };
    if i == 3 {
        (170, 85, 0)
    } else {
        (
            if i % 2 == 1 {
                on
            } else {
                off
            },
            if i / 2 % 2 == 1 {
                on
            } else {
                off
            },
            if i / 4 % 2 == 1 {
                on
            } else {
                off
            },
        )
    }
}

proof fn lemma_distance_is_apart(r: int, g: int, b: int, p: [u8; 3])
    ensures
        distance(r, g, b, p) == apart((r, g, b), (p@[0] as int, p@[1] as int, p@[2] as int)),
{
    let (x, y, z) = (r - p@[0], g - p@[1], b - p@[2]);
    assert(2 * x * x == 2 * (x * x)) by (nonlinear_arith);
    assert(4 * y * y == 4 * (y * y)) by (nonlinear_arith);
    assert(3 * z * z == 3 * (z * z)) by (nonlinear_arith);
}

/// Of two bright colors in one cell, the one that is shown dark is the one that
/// loses less by it.
pub proof fn law_packed_cell_keeps_the_better_half(t: u8, b: u8)
    requires
        8 <= t < 16,
        8 <= b < 16,
        t != b,
    ensures
        ({
            let loss = |i: u8| apart(vga_rgb(i as int), vga_rgb(i - 8));
            let shown = halves_shown(packed(t, b));
            &&& loss(b) < loss(t) ==> shown == (t, (b - 8) as u8)
            &&& loss(t) < loss(b) ==> shown == ((t - 8) as u8, b)
        }),
{
    lemma_palette(t as int);
    lemma_palette(b as int);
    lemma_palette(t - 8);
    lemma_palette(b - 8);
    let (p, q) = (ANSI16@[t as int]@, ANSI16@[b as int]@);
    lemma_distance_is_apart(p[0] as int, p[1] as int, p[2] as int, ANSI16@[t - 8]);
    lemma_distance_is_apart(q[0] as int, q[1] as int, q[2] as int, ANSI16@[b - 8]);
}

/// The palette entry for a color is one of the nearest to it, once the dither's
/// bias for the position is added to each channel: no other of the sixteen is
/// nearer.
pub proof fn law_ansi_index_is_nearest(r: u8, g: u8, b: u8, x: int, y: int, j: int)
    requires
        0 <= x,
        0 <= y,
        0 <= j < 16,
    ensures
        0 <= ansi_index(r, g, b, x, y) < 16,
        ({
            let d = bayer_bias(x, y);
            let near = |v: u8|
                if v + d < 0 {
                    0
                } else if v + d > 255 {
                    255
                } else {
                    v + d
                };
            let c = (near(r), near(g), near(b));
            apart(c, vga_rgb(ansi_index(r, g, b, x, y))) <= apart(c, vga_rgb(j))
        }),
{
    law_dither_is_ordered(x, y);
    let d = dither(x, y);
    let (p, q, s) = (clamped(r + d), clamped(g + d), clamped(b + d));
    let i = nearest_among(p, q, s, 16);
    lemma_nearest_bounds(p, q, s, 16);
    law_nearest_is_first_minimum(p, q, s, 16, j);
    lemma_palette(i);
    lemma_palette(j);
    lemma_distance_is_apart(p, q, s, ANSI16@[i]);
    lemma_distance_is_apart(p, q, s, ANSI16@[j]);
}

/// The 2x2 ordered-dither thresholds that the 4x4 ones are built of.
pub open spec fn bayer2(x: int, y: int) -> int {
    if y % 2 == 0 {
        2 * (x % 2)
    } else {
        3 - 2 * (x % 2)
    }
}

/// The bias of a position: the recursive 4x4 threshold, spread evenly over -30 to 30.
pub open spec fn bayer_bias(x: int, y: int) -> int {
    4 * (4 * bayer2(x, y) + bayer2(x / 2, y / 2)) - 30
}

/// The dither is the classic recursive one: the sixteen positions of a tile get
/// sixteen biases, evenly spaced, neighbors far apart.
pub proof fn law_dither_is_ordered(x: int, y: int)
    requires
        0 <= x,
        0 <= y,
    ensures
        dither(x, y) == bayer_bias(x, y),
        -30 <= dither(x, y) <= 30,
{
    let (i, j) = (x % 4, y % 4);
    assert(x % 2 == i % 2 && (x / 2) % 2 == i / 2);
    assert(y % 2 == j % 2 && (y / 2) % 2 == j / 2);
    assert(i == 0 || i == 1 || i == 2 || i == 3);
    assert(j == 0 || j == 1 || j == 2 || j == 3);
}

/// Channel value of a level of xterm's color cube.
pub open spec fn level_value(l: int) -> int {
    if l == 0 {
        0
    } else {
        55 + 40 * l
    }
}

/// The color that an index of xterm's palette shows: a 6x6x6 cube from 16 on, and a
/// ramp of 24 grays from 232 on.
pub open spec fn xterm_rgb(i: int) -> (int, int, int) {
    if i < 232 {
        (
            level_value((i - 16) / 36),
            level_value((i - 16) / 6 % 6),
            level_value((i - 16) % 6),
        )
    } else {
        let v = 8 + 10 * (i - 232);
        (v, v, v)
    }
}

proof fn lemma_level_value(l: int)
    requires
        0 <= l < 6,
    ensures
        CUBE_STEPS@[l] == level_value(l),
{
    assert(l == 0 || l == 1 || l == 2 || l == 3 || l == 4 || l == 5);
}

proof fn lemma_nearer_square(v: int, a: int, b: int)
    requires
        -(v - b) <= v - a <= v - b || v - b <= v - a <= -(v - b),
    ensures
        (v - a) * (v - a) <= (v - b) * (v - b),
{
    let (x, y) = (v - a, v - b);
    assert(x * x <= y * y) by (nonlinear_arith)
        requires
            -y <= x <= y || y <= x <= -y,
    ;
}

proof fn lemma_cube_entry(cr: int, cg: int, cb: int)
    requires
        0 <= cr < 6,
        0 <= cg < 6,
        0 <= cb < 6,
    ensures
        16 <= 16 + 36 * cr + 6 * cg + cb < 232,
        xterm_rgb(16 + 36 * cr + 6 * cg + cb) == (
            level_value(cr),
            level_value(cg),
            level_value(cb),
        ),
{
    let i = 36 * cr + 6 * cg + cb;
    assert(i / 36 == cr);
    assert(i / 6 == 6 * cr + cg);
    assert(i % 6 == cb);
}

/// The index chosen for a color shows one that lies no farther from it than any
/// entry of the cube, nor than the gray of the ramp that its average brightness
/// names (the last one, for the brightest); and a gray is chosen only where it lies
/// nearer than the whole cube.
pub proof fn law_xterm_index_is_nearest(r: u8, g: u8, b: u8, i: int)
    requires
        16 <= i <= 255,
    ensures
        16 <= xterm_index(r as int, g as int, b as int) <= 255,
        ({
            let c = (r as int, g as int, b as int);
            let average = (r + g + b) / 3;
            let gray = 8 + 10 * (i - 232);
            let found = xterm_index(r as int, g as int, b as int);
            &&& i < 232 ==> apart(c, xterm_rgb(found)) <= apart(c, xterm_rgb(i))
            &&& i < 232 && found >= 232 ==> apart(c, xterm_rgb(found)) < apart(c, xterm_rgb(i))
            &&& i >= 232 && (gray - 5 <= average <= gray + 4 || i == 232 && average < 8 || i == 255
                && average > 238) ==> apart(c, xterm_rgb(found)) <= apart(c, xterm_rgb(i)) && (found
                >= 232 ==> found == i)
        }),
{
    let c = (r as int, g as int, b as int);
    let (cr, cg, cb) = (cube_level(c.0), cube_level(c.1), cube_level(c.2));
    let gi = gray_step((c.0 + c.1 + c.2) / 3);
    assert(0 <= gi <= 23);
    let gv = (8 + 10 * gi) as u8;
    let here = [CUBE_STEPS@[cr], CUBE_STEPS@[cg], CUBE_STEPS@[cb]];
    law_cube_level_is_nearest(r, 0);
    law_cube_level_is_nearest(g, 0);
    law_cube_level_is_nearest(b, 0);
    lemma_level_value(cr);
    lemma_level_value(cg);
    lemma_level_value(cb);
    lemma_cube_entry(cr, cg, cb);
    lemma_distance_is_apart(c.0, c.1, c.2, [gv, gv, gv]);
    lemma_distance_is_apart(c.0, c.1, c.2, here);
    if i < 232 {
        let (lr, lg, lb) = ((i - 16) / 36, (i - 16) / 6 % 6, (i - 16) % 6);
        law_cube_level_is_nearest(r, lr);
        law_cube_level_is_nearest(g, lg);
        law_cube_level_is_nearest(b, lb);
        lemma_level_value(lr);
        lemma_level_value(lg);
        lemma_level_value(lb);
        lemma_nearer_square(c.0, level_value(cr), level_value(lr));
        lemma_nearer_square(c.1, level_value(cg), level_value(lg));
        lemma_nearer_square(c.2, level_value(cb), level_value(lb));
    }
}

proof fn lemma_apart_zero(a: (int, int, int), b: (int, int, int))
    ensures
        apart(a, a) == 0,
        apart(a, b) >= 0,
        apart(a, b) <= 0 ==> a == b,
{
    let (p, q, s) = (a.0 - b.0, a.1 - b.1, a.2 - b.2);
    assert(p * p >= 0 && q * q >= 0 && s * s >= 0) by (nonlinear_arith);
    assert(p * p == 0 ==> p == 0) by (nonlinear_arith);
    assert(q * q == 0 ==> q == 0) by (nonlinear_arith);
    assert(s * s == 0 ==> s == 0) by (nonlinear_arith);
}

/// No two entries of the cube show the same color, and no gray of the ramp is one
/// of them.
proof fn lemma_xterm_colors_differ(i: int, j: int)
    requires
        16 <= i < 232,
        16 <= j <= 255,
        xterm_rgb(i) == xterm_rgb(j),
    ensures
        i == j,
{
    if j < 232 {
        assert((i - 16) / 36 == (j - 16) / 36);
        assert((i - 16) / 6 % 6 == (j - 16) / 6 % 6);
        assert((i - 16) % 6 == (j - 16) % 6);
        assert((i - 16) / 6 == 6 * ((i - 16) / 36) + (i - 16) / 6 % 6);
        assert((j - 16) / 6 == 6 * ((j - 16) / 36) + (j - 16) / 6 % 6);
    } else {
        let l = (i - 16) % 6;
        assert(8 + 10 * (j - 232) == level_value(l));
        assert(l == 0 || l == 1 || l == 2 || l == 3 || l == 4 || l == 5);
    }
}

/// Every color of xterm's palette keeps its index.
pub proof fn law_xterm_colors_are_kept(i: int)
    requires
        16 <= i <= 255,
    ensures
        ({
            let (r, g, b) = xterm_rgb(i);
            &&& 0 <= r <= 255 && 0 <= g <= 255 && 0 <= b <= 255
            &&& xterm_index(r, g, b) == i
        }),
{
    let c = xterm_rgb(i);
    assert(0 <= c.0 <= 255 && 0 <= c.1 <= 255 && 0 <= c.2 <= 255);
    let found = xterm_index(c.0, c.1, c.2);
    law_xterm_index_is_nearest(c.0 as u8, c.1 as u8, c.2 as u8, i);
    lemma_apart_zero(c, xterm_rgb(found));
    if i < 232 {
        lemma_xterm_colors_differ(i, found);
    } else if found < 232 {
        lemma_xterm_colors_differ(found, i);
    }
}

/// The words for a color depth: those of `lameboy.ini` and of the saved
/// preferences, and no others.
pub proof fn law_setting_words(w: Seq<char>)
    ensures
        setting_named(w) == Some(ColorSetting::Auto) <==> w == "auto"@ || w == "detect"@,
        setting_named(w) == Some(ColorSetting::True) <==> w == "truecolor"@ || w == "true"@ || w
            == "rgb"@ || w == "24bit"@,
        setting_named(w) == Some(ColorSetting::C256) <==> w == "256"@ || w == "256color"@ || w
            == "xterm"@,
        setting_named(w) == Some(ColorSetting::C16) <==> w == "16"@ || w == "16color"@ || w
            == "classic"@ || w == "ansi"@,
{
    reveal_strlit("auto");
    reveal_strlit("detect");
    reveal_strlit("truecolor");
    reveal_strlit("true");
    reveal_strlit("rgb");
    reveal_strlit("24bit");
    reveal_strlit("256");
    reveal_strlit("256color");
    reveal_strlit("xterm");
    reveal_strlit("16");
    reveal_strlit("16color");
    reveal_strlit("classic");
    reveal_strlit("ansi");
    assert("auto"@[1] == 'u' && "detect"@[1] == 'e');
    assert("truecolor"@.len() == 9 && "true"@.len() == 4 && "rgb"@.len() == 3 && "24bit"@.len()
        == 5);
    assert("256color"@.len() == 8 && "xterm"@.len() == 5 && "16"@.len() == 2 && "16color"@.len()
        == 7 && "classic"@.len() == 7 && "ansi"@.len() == 4 && "auto"@.len() == 4 && "detect"@.len()
        == 6 && "256"@.len() == 3);
    assert("rgb"@[0] == 'r' && "256"@[0] == '2' && "true"@[0] == 't' && "auto"@[0] == 'a'
        && "ansi"@[1] == 'n' && "24bit"@[0] == '2' && "xterm"@[0] == 'x' && "16color"@[0] == '1'
        && "classic"@[0] == 'c');
}

/// The parameters of a control sequence, read as numbers the way a terminal does.
pub open spec fn parameters(s: Seq<char>) -> Seq<Option<nat>> {
    text::fields(s, ';').map_values(|f: Seq<char>| text::number(f, 255))
}

proof fn lemma_parameter(n: nat)
    requires
        n <= 255,
    ensures
        parameters(text::decimal(n)) == seq![Some(n)],
{
    text::lemma_decimal(n);
    text::lemma_digits_without(text::decimal(n), ';');
    text::lemma_single_field(text::decimal(n), ';');
    text::lemma_number_of_decimal(n, 255);
}

proof fn lemma_parameters_cons(n: nat, rest: Seq<char>)
    requires
        n <= 255,
    ensures
        parameters(text::decimal(n) + seq![';'] + rest) == seq![Some(n)] + parameters(rest),
{
    text::lemma_decimal(n);
    text::lemma_digits_without(text::decimal(n), ';');
    text::lemma_fields_cons(text::decimal(n), ';', rest);
    text::lemma_number_of_decimal(n, 255);
}

proof fn lemma_two_digits(tens: nat, ones: nat)
    requires
        1 <= tens < 10,
        ones < 10,
    ensures
        text::decimal(10 * tens + ones) == text::decimal(tens) + text::decimal(ones),
{
    let n = 10 * tens + ones;
    assert(n / 10 == tens && n % 10 == ones);
}

/// `rgb_text`, with more behind it.
proof fn lemma_rgb_parameters(r: u8, g: u8, b: u8, rest: Seq<char>)
    ensures
        parameters(rgb_text(r, g, b)) == seq![Some(r as nat), Some(g as nat), Some(b as nat)],
        parameters(rgb_text(r, g, b) + seq![';'] + rest) == seq![
            Some(r as nat),
            Some(g as nat),
            Some(b as nat),
        ] + parameters(rest),
{
    reveal_strlit(";");
    let (x, y, z) = (
        text::decimal(r as nat),
        text::decimal(g as nat),
        text::decimal(b as nat),
    );
    let sep = seq![';'];
    assert(";"@ == sep);
    assert(rgb_text(r, g, b) == x + sep + (y + sep + z));
    lemma_parameters_cons(r as nat, y + sep + z);
    lemma_parameters_cons(g as nat, z);
    lemma_parameter(b as nat);
    assert(rgb_text(r, g, b) + sep + rest == x + sep + (y + sep + (z + sep + rest)));
    lemma_parameters_cons(r as nat, y + sep + (z + sep + rest));
    lemma_parameters_cons(g as nat, z + sep + rest);
    lemma_parameters_cons(b as nat, rest);
}

proof fn lemma_introducers(rest: Seq<char>)
    ensures
        parameters("38;2;"@ + rest) == seq![Some(38nat), Some(2nat)] + parameters(rest),
        parameters("48;2;"@ + rest) == seq![Some(48nat), Some(2nat)] + parameters(rest),
        parameters("38;5;"@ + rest) == seq![Some(38nat), Some(5nat)] + parameters(rest),
        parameters("48;5;"@ + rest) == seq![Some(48nat), Some(5nat)] + parameters(rest),
        ";48;2;"@ == seq![';'] + "48;2;"@,
        ";48;5;"@ == seq![';'] + "48;5;"@,
{
    reveal_strlit("38;2;");
    reveal_strlit("48;2;");
    reveal_strlit("38;5;");
    reveal_strlit("48;5;");
    reveal_strlit(";48;2;");
    reveal_strlit(";48;5;");
    reveal_with_fuel(text::decimal, 3);
    let sep = seq![';'];
    assert(text::decimal(2) == seq!['2'] && text::decimal(5) == seq!['5']);
    assert(text::decimal(38) == seq!['3', '8'] && text::decimal(48) == seq!['4', '8']);
    lemma_parameters_cons(2, rest);
    lemma_parameters_cons(5, rest);
    lemma_parameters_cons(38, text::decimal(2) + sep + rest);
    lemma_parameters_cons(48, text::decimal(2) + sep + rest);
    lemma_parameters_cons(38, text::decimal(5) + sep + rest);
    lemma_parameters_cons(48, text::decimal(5) + sep + rest);
    assert("38;2;"@ + rest == text::decimal(38) + sep + (text::decimal(2) + sep + rest));
    assert("48;2;"@ + rest == text::decimal(48) + sep + (text::decimal(2) + sep + rest));
    assert("38;5;"@ + rest == text::decimal(38) + sep + (text::decimal(5) + sep + rest));
    assert("48;5;"@ + rest == text::decimal(48) + sep + (text::decimal(5) + sep + rest));
}

/// A 16-color code tells a terminal: bold or plain first, for a bright or a dark
/// color, then the color (30 to 37) and the background (40 to 47).
pub proof fn law_sgr16_reads_back(fg: int, bg: int)
    requires
        0 <= fg < 16,
        0 <= bg < 8,
    ensures
        parameters(sgr16_text(fg, bg)) == seq![
            Some(fg as nat / 8),
            Some(30 + fg as nat % 8),
            Some(40 + bg as nat),
        ],
{
    reveal_strlit("0;3");
    reveal_strlit("1;3");
    reveal_strlit(";4");
    let sep = seq![';'];
    let f = fg as nat % 8;
    let b = bg as nat;
    reveal_with_fuel(text::decimal, 2);
    assert(text::decimal(0) == seq!['0'] && text::decimal(1) == seq!['1']);
    assert(text::decimal(3) == seq!['3'] && text::decimal(4) == seq!['4']);
    lemma_two_digits(3, f);
    lemma_two_digits(4, b);
    let rest = text::decimal(30 + f) + sep + text::decimal(40 + b);
    assert(sgr16_text(fg, bg) == text::decimal(fg as nat / 8) + sep + rest);
    lemma_parameters_cons(fg as nat / 8, rest);
    lemma_parameters_cons(30 + f, text::decimal(40 + b));
    lemma_parameter(40 + b);
}

/// What a terminal reads of a cell's colors: in truecolor the channels themselves,
/// in 256 colors the two palette indexes, in 16 colors the pair of `sgr16`, where a
/// bright background gives way to its dark twin.
pub proof fn law_cell_colors_read_back(
    depth: ColorDepth,
    fr: u8,
    fg: u8,
    fb: u8,
    br: u8,
    bg: u8,
    bb: u8,
)
    ensures
        ({
            let shown = parameters(cell_sgr_text(depth, fr, fg, fb, br, bg, bb));
            match depth {
                ColorDepth::True => shown == seq![
                    Some(38nat),
                    Some(2nat),
                    Some(fr as nat),
                    Some(fg as nat),
                    Some(fb as nat),
                    Some(48nat),
                    Some(2nat),
                    Some(br as nat),
                    Some(bg as nat),
                    Some(bb as nat),
                ],
                ColorDepth::C256 => shown == seq![
                    Some(38nat),
                    Some(5nat),
                    Some(xterm_index(fr as int, fg as int, fb as int) as nat),
                    Some(48nat),
                    Some(5nat),
                    Some(xterm_index(br as int, bg as int, bb as int) as nat),
                ],
                ColorDepth::C16 => shown == seq![
                    Some(ansi_index(fr, fg, fb, 0, 0) as nat / 8),
                    Some(30 + ansi_index(fr, fg, fb, 0, 0) as nat % 8),
                    Some(40 + ansi_index(br, bg, bb, 0, 0) as nat % 8),
                ],
            }
        }),
{
    let shown = cell_sgr_text(depth, fr, fg, fb, br, bg, bb);
    let sep = seq![';'];
    match depth {
        ColorDepth::True => {
            let back = "48;2;"@ + rgb_text(br, bg, bb);
            lemma_introducers(rgb_text(br, bg, bb));
            lemma_rgb_parameters(br, bg, bb, Seq::empty());
            lemma_rgb_parameters(fr, fg, fb, back);
            lemma_introducers(rgb_text(fr, fg, fb) + sep + back);
            assert(shown == "38;2;"@ + (rgb_text(fr, fg, fb) + sep + back));
        },
        ColorDepth::C256 => {
            law_xterm_index_is_nearest(fr, fg, fb, 16);
            law_xterm_index_is_nearest(br, bg, bb, 16);
            let i = xterm_index(fr as int, fg as int, fb as int) as nat;
            let j = xterm_index(br as int, bg as int, bb as int) as nat;
            let back = "48;5;"@ + text::decimal(j);
            lemma_introducers(text::decimal(j));
            lemma_parameter(j);
            lemma_parameters_cons(i, back);
            lemma_introducers(text::decimal(i) + sep + back);
            assert(shown == "38;5;"@ + (text::decimal(i) + sep + back));
        },
        ColorDepth::C16 => {
            law_ansi_index_is_nearest(fr, fg, fb, 0, 0, 0);
            law_ansi_index_is_nearest(br, bg, bb, 0, 0, 0);
            law_sgr16_reads_back(
                ansi_index(fr, fg, fb, 0, 0),
                ansi_index(br, bg, bb, 0, 0) % 8,
            );
        },
    }
}

/// What a terminal reads of a text color; in 16 colors a dark one is 30 to 37 and a
/// bright one 90 to 97.
pub proof fn law_text_color_reads_back(depth: ColorDepth, r: u8, g: u8, b: u8)
    ensures
        ({
            let shown = parameters(fg_sgr_text(depth, r, g, b));
            match depth {
                ColorDepth::True => shown == seq![
                    Some(38nat),
                    Some(2nat),
                    Some(r as nat),
                    Some(g as nat),
                    Some(b as nat),
                ],
                ColorDepth::C256 => shown == seq![
                    Some(38nat),
                    Some(5nat),
                    Some(xterm_index(r as int, g as int, b as int) as nat),
                ],
                ColorDepth::C16 => {
                    let i = ansi_index(r, g, b, 0, 0) as nat;
                    shown == seq![
                        Some(
                            if i < 8 {
                                30 + i
                            } else {
                                82 + i
                            },
                        ),
                    ]
                },
            }
        }),
{
    match depth {
        ColorDepth::True => {
            lemma_introducers(rgb_text(r, g, b));
            lemma_rgb_parameters(r, g, b, Seq::empty());
        },
        ColorDepth::C256 => {
            law_xterm_index_is_nearest(r, g, b, 16);
            let i = xterm_index(r as int, g as int, b as int) as nat;
            lemma_introducers(text::decimal(i));
            lemma_parameter(i);
        },
        ColorDepth::C16 => {
            law_ansi_index_is_nearest(r, g, b, 0, 0, 0);
            let i = ansi_index(r, g, b, 0, 0) as nat;
            reveal_strlit("3");
            reveal_strlit("9");
            reveal_with_fuel(text::decimal, 2);
            assert(text::decimal(3) == "3"@ && text::decimal(9) == "9"@);
            if i < 8 {
                lemma_two_digits(3, i);
                lemma_parameter(30 + i);
            } else {
                lemma_two_digits(9, (i - 8) as nat);
                lemma_parameter(82 + i);
            }
        },
    }
}

/// The settings as they are shown.
pub proof fn law_setting_labels()
    ensures
        label_of(ColorSetting::Auto) == "Auto"@,
        label_of(ColorSetting::True) == "Truecolor"@,
        label_of(ColorSetting::C256) == "256"@,
        label_of(ColorSetting::C16) == "16"@,
{
}

} // verus!
