//! Draw the menu.
//!
//! The colors are the original Game Boy (DMG) LCD palette: dark green ink on the
//! pale pea-green "screen". Emphasis comes from value (how dark), not hue, the way
//! the real hardware did it. Everything here is Unicode text with ANSI commands;
//! it reaches the caller as CP437.

use crate::menu;
use crate::menu::{MenuSection, ScreenSize, GAMES_HEADER_Y, GAMES_START_Y};
use crate::menu_state;
use crate::menu_state::{Menu, MenuState};
use crate::out;
use crate::path;
use crate::renderer::RenderMode;
use crate::text;
use vstd::prelude::*;

verus! {

/// Width (in columns) of the ROM-name field in the game list.
pub const NAME_WIDTH: usize = 52;

/// The wordmark is a 1-bit pixel bitmap, this many pixel rows tall.
pub const LOGO_PX_H: usize = 9;

// ---------------------------------------------------------------------------
// Colors
// ---------------------------------------------------------------------------

/// The color commands of the menu.
#[derive(Debug)]
pub struct Theme {
    /// #CADC9F, the LCD background
    pub screen_bg: String,
    /// #9bbc0f, classic GB green, behind the tip
    pub lime_bg: String,
    /// #0f380f, behind the selected row
    pub ink_bg: String,
    /// #0f380f, darkest: keys, wordmark, selection marker
    pub ink: String,
    /// #306230, mid green: body text and headers
    pub ink_mid: String,
    /// #8bac0f, light olive: secondary text
    pub moss: String,
    /// #9bbc0f: text of the selected row
    pub lime: String,
    /// #CADC9F as a text color, for a tag on the selected row
    pub screen: String,
}

/// What the color commands say.
#[verifier::ext_equal]
pub struct Colors {
    pub screen_bg: Seq<char>,
    pub lime_bg: Seq<char>,
    pub ink_bg: Seq<char>,
    pub ink: Seq<char>,
    pub ink_mid: Seq<char>,
    pub moss: Seq<char>,
    pub lime: Seq<char>,
    pub screen: Seq<char>,
}

impl View for Theme {
    type V = Colors;

    open spec fn view(&self) -> Colors {
        Colors {
            screen_bg: self.screen_bg@,
            lime_bg: self.lime_bg@,
            ink_bg: self.ink_bg@,
            ink: self.ink@,
            ink_mid: self.ink_mid@,
            moss: self.moss@,
            lime: self.lime@,
            screen: self.screen@,
        }
    }
}

/// The LCD palette's own colors, each as the terminal library writes it.
pub open spec fn is_lcd(c: Colors) -> bool {
    &&& out::is_color_text(c.screen_bg, 48, 202, 220, 159)
    &&& out::is_color_text(c.lime_bg, 48, 155, 188, 15)
    &&& out::is_color_text(c.ink_bg, 48, 15, 56, 15)
    &&& out::is_color_text(c.ink, 38, 15, 56, 15)
    &&& out::is_color_text(c.ink_mid, 38, 48, 98, 48)
    &&& out::is_color_text(c.moss, 38, 139, 172, 15)
    &&& out::is_color_text(c.lime, 38, 155, 188, 15)
    &&& out::is_color_text(c.screen, 38, 202, 220, 159)
}

impl Theme {
    /// The Game Boy LCD palette.
    pub fn new() -> (r: Self)
        ensures
            is_lcd(r@),
    {
        Theme {
            screen_bg: out::background(202, 220, 159),
            lime_bg: out::background(155, 188, 15),
            ink_bg: out::background(15, 56, 15),
            ink: out::foreground(15, 56, 15),
            ink_mid: out::foreground(48, 98, 48),
            moss: out::foreground(139, 172, 15),
            lime: out::foreground(155, 188, 15),
            screen: out::foreground(202, 220, 159),
        }
    }
}

/// The menu's "normal" cell: dark ink on the LCD background. A plain reset would
/// clear the background to the terminal default and punch dark holes in the green
/// screen.
pub open spec fn normal(c: Colors) -> Seq<char> {
    c.ink_mid + c.screen_bg
}

fn push_normal(s: &mut String, t: &Theme)
    ensures
        final(s)@ == old(s)@ + normal(t@),
{
    s.append(t.ink_mid.as_str());
    s.append(t.screen_bg.as_str());
    assert(s@ == old(s)@ + normal(t@));
}

// ---------------------------------------------------------------------------
// Wordmark
// ---------------------------------------------------------------------------

/// One pixel row of a letter (`#` = on).
pub open spec fn glyph_row(c: char, row: usize) -> Seq<char> {
    match c {
        'L' => match row {
            7 | 8 => "#####"@,
            _ => "##   "@,
        },
        'A' => match row {
            0 => " ### "@,
            4 | 5 => "#####"@,
            _ => "## ##"@,
        },
        'M' => match row {
            1 => "### ###"@,
            2 => "## # ##"@,
            _ => "##   ##"@,
        },
        'E' => match row {
            3 | 4 => "#### "@,
            0 | 7 | 8 => "#####"@,
            _ => "##   "@,
        },
        'B' => match row {
            0 | 3 | 4 | 8 => "#### "@,
            _ => "## ##"@,
        },
        'O' => match row {
            0 | 8 => " ### "@,
            _ => "## ##"@,
        },
        'Y' => match row {
            2 => " ### "@,
            0 | 1 => "## ##"@,
            _ => "  #  "@,
        },
        _ => "  "@,  // word gap
    }
}

fn logo_glyph_row(c: char, row: usize) -> (r: &'static str)
    requires
        row < LOGO_PX_H,
    ensures
        r@ == glyph_row(c, row),
{
    match c {
        'L' => match row {
            7 | 8 => "#####",
            _ => "##   ",
        },
        'A' => match row {
            0 => " ### ",
            4 | 5 => "#####",
            _ => "## ##",
        },
        'M' => match row {
            1 => "### ###",
            2 => "## # ##",
            _ => "##   ##",
        },
        'E' => match row {
            3 | 4 => "#### ",
            0 | 7 | 8 => "#####",
            _ => "##   ",
        },
        'B' => match row {
            0 | 3 | 4 | 8 => "#### ",
            _ => "## ##",
        },
        'O' => match row {
            0 | 8 => " ### ",
            _ => "## ##",
        },
        'Y' => match row {
            2 => " ### ",
            0 | 1 => "## ##",
            _ => "  #  ",
        },
        _ => "  ",  // word gap
    }
}

/// One pixel row of a word: the letters' rows, a column's gap behind each.
pub open spec fn pixel_row(word: Seq<char>, row: usize) -> Seq<bool>
    decreases word.len(),
{
    if word.len() == 0 {
        Seq::empty()
    } else {
        (pixel_row(word.drop_last(), row) + glyph_row(word.last(), row).map_values(
            |c: char| c == '#',
        )).push(false)
    }
}

/// Per-pixel-row italic shear, in columns, measured from the bottom. Two pixel
/// rows that share a character cell differ by ~1 column, so a vertical stroke
/// renders as `▄█▀` (a smooth half-block gradient) rather than a hard 1-column
/// jump: that's what de-jags the slant.
pub open spec fn shear(row: int) -> int {
    (8 - row) / 2
}

fn logo_shear(pixel_row: usize) -> (r: usize)
    requires
        pixel_row < LOGO_PX_H,
    ensures
        r == shear(pixel_row as int),
{
    (LOGO_PX_H - 1 - pixel_row) / 2
}

/// The longest of the first `n` pixel rows.
pub open spec fn widest(px: Seq<Seq<bool>>, n: nat) -> nat
    decreases n,
{
    if n == 0 {
        0
    } else if px[n - 1].len() > widest(px, (n - 1) as nat) {
        px[n - 1].len()
    } else {
        widest(px, (n - 1) as nat)
    }
}

/// The pixel that output column `c` of a pixel row shows, after the shear.
pub open spec fn pixel(px: Seq<Seq<bool>>, row: int, c: int) -> bool {
    let j = c - shear(row);
    0 <= j < px[row].len() && px[row][j]
}

pub open spec fn half_block(top: bool, bottom: bool) -> char {
    if top && bottom {
        '█'
    } else if top {
        '▀'
    } else if bottom {
        '▄'
    } else {
        ' '
    }
}

/// One character row of the wordmark: two pixel rows stacked.
pub open spec fn logo_line(px: Seq<Seq<bool>>, cr: int) -> Seq<char> {
    Seq::new(
        widest(px, 9) + 4,
        |c: int| half_block(pixel(px, 2 * cr, c), 2 * cr + 1 < 9 && pixel(px, 2 * cr + 1, c)),
    )
}

/// The upright bitmap of "LAME BOY".
pub open spec fn logo_pixels() -> Seq<Seq<bool>> {
    Seq::new(9, |row: int| pixel_row("LAME BOY"@, row as usize))
}

/// The first `n` character rows of the wordmark, at (x, y).
pub open spec fn logo_rows(x: int, y: int, n: nat) -> Seq<char>
    decreases n,
{
    if n == 0 {
        Seq::empty()
    } else {
        logo_rows(x, y, (n - 1) as nat) + out::move_text(x, y + n - 1) + text::trimmed_end(
            logo_line(logo_pixels(), n - 1),
        )
    }
}

/// The wordmark at (x, y), in the darkest ink.
pub open spec fn logo_text(c: Colors, x: int, y: int) -> Seq<char> {
    c.ink + c.screen_bg + logo_rows(x, y, 5) + normal(c)
}

fn build_pixel_row(row: usize) -> (r: Vec<bool>)
    requires
        row < LOGO_PX_H,
    ensures
        r@ == pixel_row("LAME BOY"@, row),
{
    let word = text::chars_of("LAME BOY");
    let mut r: Vec<bool> = Vec::new();
    let mut i: usize = 0;
    while i < word.len()
        invariant
            row < LOGO_PX_H,
            i <= word.len(),
            r@ == pixel_row(word@.take(i as int), row),
        decreases word.len() - i,
    {
        let glyph = text::chars_of(logo_glyph_row(word[i], row));
        let ghost before = r@;
        let ghost on = glyph@.map_values(|c: char| c == '#');
        let mut k: usize = 0;
        while k < glyph.len()
            invariant
                k <= glyph.len(),
                on == glyph@.map_values(|c: char| c == '#'),
                r@ == before + on.take(k as int),
            decreases glyph.len() - k,
        {
            r.push(glyph[k] == '#');
            k += 1;
            assert(on.take(k as int) == on.take(k - 1).push(on[k - 1]));
        }
        assert(on.take(k as int) == on);
        r.push(false);  // inter-letter gap
        assert(word@.take(i + 1).drop_last() == word@.take(i as int));
        i += 1;
    }
    assert(word@.take(i as int) == word@);
    r
}

/// Views of the pixel rows.
pub open spec fn rows_view(px: Seq<Vec<bool>>) -> Seq<Seq<bool>> {
    px.map_values(|r: Vec<bool>| r@)
}

fn build_logo() -> (px: Vec<Vec<bool>>)
    ensures
        rows_view(px@) == logo_pixels(),
{
    let mut px: Vec<Vec<bool>> = Vec::new();
    let mut row: usize = 0;
    assert(rows_view(px@) =~= logo_pixels().take(0));
    while row < LOGO_PX_H
        invariant
            row <= LOGO_PX_H,
            rows_view(px@) == logo_pixels().take(row as int),
        decreases LOGO_PX_H - row,
    {
        let ghost before = rows_view(px@);
        let r = build_pixel_row(row);
        let ghost rv = r@;
        px.push(r);
        assert(rows_view(px@) == before.push(rv));
        assert(logo_pixels().take(row + 1) =~= logo_pixels().take(row as int).push(rv));
        row += 1;
    }
    assert(logo_pixels().take(9) =~= logo_pixels());
    px
}

fn find_widest(px: &Vec<Vec<bool>>) -> (w: usize)
    requires
        px@.len() == 9,
    ensures
        w == widest(rows_view(px@), 9),
{
    let mut w: usize = 0;
    let mut i: usize = 0;
    while i < 9
        invariant
            px@.len() == 9,
            i <= 9,
            w == widest(rows_view(px@), i as nat),
        decreases 9 - i,
    {
        assert(rows_view(px@)[i as int] == px@[i as int]@);
        if px[i].len() > w {
            w = px[i].len();
        }
        i += 1;
    }
    w
}

fn sample(px: &Vec<Vec<bool>>, row: usize, c: usize) -> (r: bool)
    requires
        px@.len() == 9,
        row < 9,
    ensures
        r == pixel(rows_view(px@), row as int, c as int),
{
    assert(rows_view(px@)[row as int] == px@[row as int]@);
    let off: usize = logo_shear(row);
    if c < off || c - off >= px[row].len() {
        return false;
    }
    px[row][c - off]
}

fn logo_row(px: &Vec<Vec<bool>>, cr: usize) -> (line: Vec<char>)
    requires
        rows_view(px@) == logo_pixels(),
        cr < 5,
    ensures
        line@ == logo_line(logo_pixels(), cr as int),
{
    assert(px@.len() == logo_pixels().len());
    let w: usize = find_widest(px);
    let ghost want = logo_line(logo_pixels(), cr as int);
    let mut line: Vec<char> = Vec::new();
    let mut c: usize = 0;
    while line.len() < w || line.len() - w < 4
        invariant
            px@.len() == 9,
            cr < 5,
            rows_view(px@) == logo_pixels(),
            want == logo_line(logo_pixels(), cr as int),
            want.len() == w + 4,
            c == line@.len(),
            c <= w + 4,
            line@ == want.take(c as int),
        decreases w + 4 - c,
    {
        let top = sample(px, cr * 2, c);
        let bottom = cr * 2 + 1 < 9 && sample(px, cr * 2 + 1, c);
        let ch = match (top, bottom) {
            (true, true) => '█',
            (true, false) => '▀',
            (false, true) => '▄',
            (false, false) => ' ',
        };
        line.push(ch);
        assert(want[c as int] == ch);
        assert(want.take(c + 1) =~= want.take(c as int).push(ch));
        assert(line.len() == c + 1);
        c += 1;
    }
    assert(want.take(c as int) =~= want);
    line
}

/// Draw the "LAME BOY" wordmark at (x, y): half-block rendered with the italic
/// slant baked into the bitmap (so the diagonals smooth out), in the darkest ink.
pub fn draw_logo(t: &Theme, x: u16, y: u16) -> (s: String)
    requires
        x < 0xffff,
        y + 4 < 0xffff,
    ensures
        s@ == logo_text(t@, x as int, y as int),
{
    let px = build_logo();
    let mut s = t.ink.clone();
    s.append(t.screen_bg.as_str());
    let ghost start = s@;
    assert(start + logo_rows(x as int, y as int, 0) =~= start);
    let mut cr: u16 = 0;
    while cr < 5
        invariant
            cr <= 5,
            x < 0xffff,
            y + 4 < 0xffff,
            rows_view(px@) == logo_pixels(),
            s@ == start + logo_rows(x as int, y as int, cr as nat),
        decreases 5 - cr,
    {
        let line = logo_row(&px, cr as usize);
        let shown = text::string_of(text::trim_end(line.as_slice()));
        s.append(out::move_to(x, y + cr).as_str());
        s.append(shown.as_str());
        cr += 1;
        assert(s@ =~= start + logo_rows(x as int, y as int, cr as nat));
    }
    push_normal(&mut s, t);
    assert(s@ =~= logo_text(t@, x as int, y as int));
    s
}

// ---------------------------------------------------------------------------
// Pieces
// ---------------------------------------------------------------------------

/// At most `max` characters, an ellipsis in place of what is cut.
pub open spec fn ellipsized(s: Seq<char>, max: nat) -> Seq<char> {
    if s.len() <= max {
        s
    } else {
        s.take(
            if max == 0 {
                0
            } else {
                max - 1
            },
        ).push('…')
    }
}

/// Cut a text to at most `max_len` characters. Counts by chars (not bytes) so a
/// multi-byte name is never cut in the middle, and the width matches the visible
/// column count.
pub fn truncate_str(s: &str, max_len: usize) -> (r: String)
    ensures
        r@ == ellipsized(s@, max_len as nat),
{
    let v = text::chars_of(s);
    if v.len() <= max_len {
        return s.to_owned();
    }
    let keep: usize = if max_len == 0 {
        0
    } else {
        max_len - 1
    };
    let mut r = text::string_of(&v.as_slice()[0..keep]);
    assert(v@.subrange(0, keep as int) == v@.take(keep as int));
    r.push('…');
    r
}

/// A selection caret: blinking when its menu zone is focused, dimmed (not hidden)
/// when it isn't, so both menus always show where the cursor sits.
pub open spec fn caret_text(c: Colors, active: bool, active_fg: Seq<char>) -> Seq<char> {
    if active {
        "\x1b[5m"@ + active_fg + "▶"@ + "\x1b[25m"@
    } else {
        c.moss + "▶"@
    }
}

pub fn draw_caret(t: &Theme, active: bool, active_fg: &str) -> (s: String)
    ensures
        s@ == caret_text(t@, active, active_fg@),
{
    if active {
        let mut s = out::blink_on();
        s.append(active_fg);
        s.append("▶");
        s.append(out::blink_off().as_str());
        s
    } else {
        let mut s = t.moss.clone();
        s.append("▶");
        s
    }
}

/// A "══ Label ══" zone header. The flanking `══` blink when this zone holds the
/// cursor (Settings vs Games), a second at-a-glance cue for which menu you're on;
/// the label itself stays steady.
pub open spec fn header_text(
    c: Colors,
    x: int,
    y: int,
    label: Seq<char>,
    active: bool,
) -> Seq<char> {
    if active {
        out::move_text(x, y) + c.ink_mid + "\x1b[5m"@ + "══"@ + "\x1b[25m"@ + " "@ + label + " "@
            + "\x1b[5m"@ + "══"@ + "\x1b[25m"@ + normal(c)
    } else {
        out::move_text(x, y) + c.ink_mid + "══ "@ + label + " ══"@ + normal(c)
    }
}

pub fn draw_zone_header(t: &Theme, x: u16, y: u16, label: &str, active: bool) -> (s: String)
    requires
        x < 0xffff,
        y < 0xffff,
    ensures
        s@ == header_text(t@, x as int, y as int, label@, active),
{
    let mut s = out::move_to(x, y);
    s.append(t.ink_mid.as_str());
    if active {
        s.append(out::blink_on().as_str());
        s.append("══");
        s.append(out::blink_off().as_str());
        s.append(" ");
        s.append(label);
        s.append(" ");
        s.append(out::blink_on().as_str());
        s.append("══");
        s.append(out::blink_off().as_str());
    } else {
        s.append("══ ");
        s.append(label);
        s.append(" ══");
    }
    push_normal(&mut s, t);
    s
}

/// One settings row. `caret`: this row holds the settings cursor. `zone_active`:
/// the settings menu (not the game list) is the focused zone, which drives blink
/// vs dim on the caret.
pub open spec fn option_text(
    c: Colors,
    x: int,
    y: int,
    label: Seq<char>,
    value: Seq<char>,
    caret: bool,
    zone_active: bool,
) -> Seq<char> {
    let lit = if caret {
        c.ink
    } else {
        c.moss
    };
    out::move_text(x, y) + (if caret {
        caret_text(c, zone_active, c.ink)
    } else {
        " "@
    }) + (if caret && zone_active {
        c.ink
    } else {
        c.ink_mid
    }) + " "@ + text::padded(label, 7) + lit + "◄ "@ + lit + text::padded(value, 5) + lit + " ►"@
        + normal(c)
}

pub fn draw_option(
    t: &Theme,
    x: u16,
    y: u16,
    label: &str,
    value: &str,
    caret: bool,
    zone_active: bool,
) -> (s: String)
    requires
        x < 0xffff,
        y < 0xffff,
    ensures
        s@ == option_text(t@, x as int, y as int, label@, value@, caret, zone_active),
{
    let lit = if caret {
        t.ink.as_str()
    } else {
        t.moss.as_str()
    };
    let mut s = out::move_to(x, y);
    if caret {
        s.append(draw_caret(t, zone_active, t.ink.as_str()).as_str());
    } else {
        s.append(" ");
    }
    if caret && zone_active {
        s.append(t.ink.as_str());
    } else {
        s.append(t.ink_mid.as_str());
    }
    s.append(" ");
    text::push_padded(&mut s, label, 7);
    s.append(lit);
    s.append("◄ ");
    s.append(lit);
    text::push_padded(&mut s, value, 5);
    s.append(lit);
    s.append(" ►");
    push_normal(&mut s, t);
    s
}

/// A single ROM row: " ▶ <title>   <TAG> ". The GB/GBC tag color flips with the
/// row's background so it stays legible on both the light list and the dark
/// selection bar. `selected`: this row is the game-list cursor. `zone_active`: the
/// game list is the focused zone.
pub open spec fn rom_row_text(
    c: Colors,
    y: int,
    title: Seq<char>,
    is_gbc: bool,
    selected: bool,
    zone_active: bool,
) -> Seq<char> {
    let bar = selected && zone_active;
    out::move_text(4, y) + (if bar {
        c.ink_bg
    } else {
        Seq::empty()
    }) + (if selected {
        " "@ + caret_text(c, zone_active, c.lime) + " "@
    } else {
        "   "@
    }) + (if bar {
        c.lime
    } else if selected {
        c.ink
    } else {
        c.ink_mid
    }) + text::padded(ellipsized(title, 52), 52) + " "@ + (if bar {
        if is_gbc {
            c.lime
        } else {
            c.screen
        }
    } else if is_gbc {
        c.ink
    } else {
        c.ink_mid
    }) + text::padded(
        if is_gbc {
            "GBC"@
        } else {
            "GB"@
        },
        3,
    ) + " "@ + normal(c)
}

pub fn draw_rom_row(
    t: &Theme,
    y: u16,
    title: &str,
    is_gbc: bool,
    selected: bool,
    zone_active: bool,
) -> (s: String)
    requires
        y < 0xffff,
    ensures
        s@ == rom_row_text(t@, y as int, title@, is_gbc, selected, zone_active),
{
    let bar = selected && zone_active;
    let mut s = out::move_to(4, y);
    if bar {
        s.append(t.ink_bg.as_str());
    }
    let ghost lead = s@;
    assert(lead =~= out::move_text(4, y as int) + (if bar {
        t@.ink_bg
    } else {
        Seq::empty()
    }));
    // Caret cell (" ▶ " or "   "), on the bar background when active.
    let mut caret = String::new();
    if selected {
        caret.append(" ");
        caret.append(draw_caret(t, zone_active, t.lime.as_str()).as_str());
        caret.append(" ");
    } else {
        caret.append("   ");
    }
    assert(caret@ =~= (if selected {
        " "@ + caret_text(t@, zone_active, t@.lime) + " "@
    } else {
        "   "@
    }));
    s.append(caret.as_str());
    // Name + tag.
    if bar {
        s.append(t.lime.as_str());
    } else if selected {
        s.append(t.ink.as_str());
    } else {
        s.append(t.ink_mid.as_str());
    }
    text::push_padded(&mut s, truncate_str(title, NAME_WIDTH).as_str(), NAME_WIDTH);
    s.append(" ");
    if bar {
        if is_gbc {
            s.append(t.lime.as_str());
        } else {
            s.append(t.screen.as_str());
        }
    } else if is_gbc {
        s.append(t.ink.as_str());
    } else {
        s.append(t.ink_mid.as_str());
    }
    if is_gbc {
        text::push_padded(&mut s, "GBC", 3);
    } else {
        text::push_padded(&mut s, "GB", 3);
    }
    s.append(" ");
    push_normal(&mut s, t);
    s
}

// ---------------------------------------------------------------------------
// The whole menu
// ---------------------------------------------------------------------------

/// A key of the hint line and what it does.
pub open spec fn hint(c: Colors, key: Seq<char>, action: Seq<char>) -> Seq<char> {
    c.ink + key + c.moss + action
}

/// The hint lines at the very top, so they stay in view on tall terminals.
pub open spec fn hints_text(c: Colors) -> Seq<char> {
    out::move_text(3, 0) + hint(c, "↑↓"@, " move   "@) + hint(c, "Tab"@, " settings/list   "@)
        + hint(c, "◄►"@, " change   "@) + hint(c, "Z/Enter"@, " play   "@) + hint(
        c,
        "Esc"@,
        " quit"@,
    ) + normal(c) + out::move_text(4, 1) + hint(c, "type"@, " any letters to jump to a game"@)
        + normal(c)
}

pub open spec fn mode_label(mode: RenderMode) -> Seq<char> {
    match mode {
        RenderMode::Ascii => "ASCII"@,
        RenderMode::Block => "Block"@,
    }
}

/// The settings band. Its caret tracks `last_settings`, so it stays put (dimmed)
/// while the list is focused.
pub open spec fn settings_text(c: Colors, m: Menu) -> Seq<char> {
    let zone = m.section != MenuSection::GameList;
    header_text(c, 54, 3, "Settings"@, zone) + option_text(
        c,
        54,
        4,
        "Render"@,
        mode_label(m.render_mode),
        m.last_settings == MenuSection::RenderMode,
        zone,
    ) + option_text(
        c,
        54,
        5,
        "Sound"@,
        text::trimmed(menu::sound_label(m.sound)),
        m.last_settings == MenuSection::Audio,
        zone,
    ) + option_text(
        c,
        54,
        6,
        "Filter"@,
        text::trimmed(menu::filter_label(m.filter)),
        m.last_settings == MenuSection::Filter,
        zone,
    ) + option_text(
        c,
        54,
        7,
        "Size"@,
        menu::screen_label(m.screen),
        m.last_settings == MenuSection::Screen,
        zone,
    )
}

/// A low-key nudge about terminal size for the sharpest game picture. Hidden when
/// "Best" is selected (the door is already managing the size).
pub open spec fn tip_text(c: Colors, m: Menu) -> Seq<char> {
    if m.screen == ScreenSize::Best {
        Seq::empty()
    } else {
        out::move_text(2, 8) + c.lime_bg + c.ink_mid
            + " Optional: set Size to Best (or use a 162x74 terminal) for the sharpest picture "@
            + normal(c)
    }
}

pub open spec fn games_label(m: Menu) -> Seq<char> {
    "Games: "@ + text::trimmed(menu::filter_label(m.filter)) + " ("@ + text::decimal(
        m.filtered.len(),
    ) + ")"@
}

/// The type-ahead indicator.
pub open spec fn find_text(c: Colors, m: Menu) -> Seq<char> {
    if m.section == MenuSection::GameList && m.typeahead.len() > 0 {
        out::move_text(44, 9) + c.ink + "Find: "@ + c.ink_mid + ellipsized(m.typeahead, 20) + normal(
            c,
        )
    } else {
        Seq::empty()
    }
}

/// A ROM's title: its file name without the extension.
pub open spec fn title_of(p: Seq<char>) -> Seq<char> {
    match path::stem_of(p) {
        Some(stem) => stem,
        None => "Unknown"@,
    }
}

pub open spec fn is_color_rom(p: Seq<char>) -> bool {
    match path::extension_of(p) {
        Some(e) => text::ascii_lowered(e) == text::ascii_lowered("gbc"@),
        None => false,
    }
}

/// How many ROM rows are shown.
pub open spec fn shown_rows(m: Menu) -> int {
    menu_state::max(
        0,
        menu_state::min(
            menu_state::min(m.visible, m.filtered.len() as int),
            m.filtered.len() - m.scroll,
        ),
    )
}

/// The first `n` ROM rows of the window.
pub open spec fn rows_text(c: Colors, m: Menu, n: nat) -> Seq<char>
    decreases n,
{
    if n == 0 {
        Seq::empty()
    } else {
        let at = m.scroll + n - 1;
        let p = m.roms[m.filtered[at] as int].path;
        rows_text(c, m, (n - 1) as nat) + rom_row_text(
            c,
            10 + n - 1,
            title_of(p),
            is_color_rom(p),
            at == m.selected,
            m.section == MenuSection::GameList,
        )
    }
}

/// An arrow beside the list.
pub open spec fn arrow_text(c: Colors, y: int, arrow: Seq<char>) -> Seq<char> {
    out::move_text(65, y) + c.ink + arrow + normal(c)
}

/// The game list, with arrows where it goes on; or why it is empty.
pub open spec fn list_text(c: Colors, m: Menu) -> Seq<char> {
    if m.filtered.len() == 0 {
        out::move_text(4, 10) + c.moss + (if m.roms.len() == 0 {
            "No ROMs found — add .gb/.gbc files beside the binary"@
        } else {
            "No games match this filter"@
        }) + normal(c)
    } else {
        let visible = menu_state::min(m.visible, m.filtered.len() as int);
        rows_text(c, m, shown_rows(m) as nat) + (if m.scroll > 0 {
            arrow_text(c, 10, "▲"@)
        } else {
            Seq::empty()
        }) + (if m.scroll + visible < m.filtered.len() {
            arrow_text(c, 10 + visible - 1, "▼"@)
        } else {
            Seq::empty()
        })
    }
}

/// The whole menu: the screen painted in the LCD background, dark ink on it.
pub open spec fn menu_text(c: Colors, m: Menu) -> Seq<char> {
    c.screen_bg + "\x1b[2J"@ + hints_text(c) + logo_text(c, 2, 3) + settings_text(c, m) + tip_text(
        c,
        m,
    ) + header_text(c, 4, 9, games_label(m), m.section == MenuSection::GameList) + find_text(c, m)
        + list_text(c, m)
}

fn push_hint(s: &mut String, t: &Theme, key: &str, action: &str)
    ensures
        final(s)@ == old(s)@ + hint(t@, key@, action@),
{
    s.append(t.ink.as_str());
    s.append(key);
    s.append(t.moss.as_str());
    s.append(action);
    assert(s@ == old(s)@ + hint(t@, key@, action@));
}

fn draw_hints(t: &Theme) -> (s: String)
    ensures
        s@ == hints_text(t@),
{
    let mut s = out::move_to(3, 0);
    push_hint(&mut s, t, "↑↓", " move   ");
    push_hint(&mut s, t, "Tab", " settings/list   ");
    push_hint(&mut s, t, "◄►", " change   ");
    push_hint(&mut s, t, "Z/Enter", " play   ");
    push_hint(&mut s, t, "Esc", " quit");
    push_normal(&mut s, t);
    s.append(out::move_to(4, 1).as_str());
    push_hint(&mut s, t, "type", " any letters to jump to a game");
    push_normal(&mut s, t);
    s
}

fn trimmed_label(label: &str) -> (s: String)
    ensures
        s@ == text::trimmed(label@),
{
    let v = text::chars_of(label);
    text::string_of(text::trim(v.as_slice()))
}

fn draw_settings(t: &Theme, m: &MenuState) -> (s: String)
    ensures
        s@ == settings_text(t@, m@),
{
    let zone = m.current_section != MenuSection::GameList;
    let at = m.last_settings;
    let render = match m.render_mode {
        RenderMode::Ascii => "ASCII",
        RenderMode::Block => "Block",
    };
    let sound = trimmed_label(m.sound.label());
    let filter = trimmed_label(m.filter.label());
    let size = m.screen.label();
    let mut s = draw_zone_header(t, 54, 3, "Settings", zone);
    s.append(
        draw_option(t, 54, 4, "Render", render, at == MenuSection::RenderMode, zone).as_str(),
    );
    s.append(
        draw_option(t, 54, 5, "Sound", sound.as_str(), at == MenuSection::Audio, zone).as_str(),
    );
    s.append(
        draw_option(t, 54, 6, "Filter", filter.as_str(), at == MenuSection::Filter, zone).as_str(),
    );
    s.append(draw_option(t, 54, 7, "Size", size, at == MenuSection::Screen, zone).as_str());
    s
}

fn draw_tip(t: &Theme, m: &MenuState) -> (s: String)
    ensures
        s@ == tip_text(t@, m@),
{
    if m.screen == ScreenSize::Best {
        return String::new();
    }
    let mut s = out::move_to(2, 8);
    s.append(t.lime_bg.as_str());
    s.append(t.ink_mid.as_str());
    s.append(" Optional: set Size to Best (or use a 162x74 terminal) for the sharpest picture ");
    push_normal(&mut s, t);
    s
}

fn draw_find(t: &Theme, m: &MenuState) -> (s: String)
    ensures
        s@ == find_text(t@, m@),
{
    if m.current_section == MenuSection::GameList && m.typeahead.len() > 0 {
        let typed = text::string_of(m.typeahead.as_slice());
        let mut s = out::move_to(44, GAMES_HEADER_Y);
        s.append(t.ink.as_str());
        s.append("Find: ");
        s.append(t.ink_mid.as_str());
        s.append(truncate_str(typed.as_str(), 20).as_str());
        push_normal(&mut s, t);
        s
    } else {
        String::new()
    }
}

fn title(p: &str) -> (s: String)
    ensures
        s@ == title_of(p@),
{
    let v = text::chars_of(p);
    match path::file_stem(v.as_slice()) {
        Some(stem) => text::string_of(stem),
        None => "Unknown".to_owned(),
    }
}

fn color_rom(p: &str) -> (r: bool)
    ensures
        r == is_color_rom(p@),
{
    let v = text::chars_of(p);
    match path::file_extension(v.as_slice()) {
        Some(e) => text::same_ignoring_case(e, "gbc"),
        None => false,
    }
}

fn draw_arrow(t: &Theme, y: u16, arrow: &str) -> (s: String)
    requires
        y < 0xffff,
    ensures
        s@ == arrow_text(t@, y as int, arrow@),
{
    let mut s = out::move_to(65, y);
    s.append(t.ink.as_str());
    s.append(arrow);
    push_normal(&mut s, t);
    s
}

fn draw_list(t: &Theme, m: &MenuState) -> (s: String)
    requires
        menu_state::is_valid(m@),
    ensures
        s@ == list_text(t@, m@),
{
    if m.filtered.len() == 0 {
        let mut s = out::move_to(4, GAMES_START_Y);
        s.append(t.moss.as_str());
        if m.rom_files.len() == 0 {
            s.append("No ROMs found — add .gb/.gbc files beside the binary");
        } else {
            s.append("No games match this filter");
        }
        push_normal(&mut s, t);
        return s;
    }
    let n: usize = m.filtered.len();
    let visible: usize = if m.visible_rows < n {
        m.visible_rows
    } else {
        n
    };
    let left: usize = n - m.scroll_offset;
    let count: usize = if visible < left {
        visible
    } else {
        left
    };
    assert(count == shown_rows(m@));
    let focused = m.current_section == MenuSection::GameList;
    let mut s = String::new();
    let mut i: usize = 0;
    while i < count
        invariant
            menu_state::is_valid(m@),
            count == shown_rows(m@),
            count <= 0xfff4,
            focused == (m@.section == MenuSection::GameList),
            i <= count,
            s@ == rows_text(t@, m@, i as nat),
        decreases count - i,
    {
        let at: usize = m.scroll_offset + i;
        let rom: usize = m.filtered[at];
        assert(m@.filtered[at as int] < m@.roms.len());
        assert(m@.roms[rom as int] == m.rom_files@[rom as int]@);
        let p = m.rom_files[rom].path.as_str();
        s.append(
            draw_rom_row(
                t,
                GAMES_START_Y + i as u16,
                title(p).as_str(),
                color_rom(p),
                at == m.selected_rom_index,
                focused,
            ).as_str(),
        );
        i += 1;
    }
    // Scroll indicators
    let mut up = String::new();
    if m.scroll_offset > 0 {
        up = draw_arrow(t, GAMES_START_Y, "▲");
    }
    let mut down = String::new();
    if m.scroll_offset + visible < n {
        down = draw_arrow(t, GAMES_START_Y + visible as u16 - 1, "▼");
    }
    s.append(up.as_str());
    s.append(down.as_str());
    s
}

/// Draw the whole menu.
pub fn draw_menu(t: &Theme, m: &MenuState) -> (s: String)
    requires
        menu_state::is_valid(m@),
    ensures
        s@ == menu_text(t@, m@),
{
    let mut label = String::new();
    label.append("Games: ");
    label.append(trimmed_label(m.filter.label()).as_str());
    label.append(" (");
    text::push_decimal(&mut label, m.filtered.len() as u64);
    label.append(")");
    assert(label@ =~= games_label(m@));
    let mut s = t.screen_bg.clone();
    s.append(out::clear_all().as_str());
    s.append(draw_hints(t).as_str());
    s.append(draw_logo(t, 2, 3).as_str());
    s.append(draw_settings(t, m).as_str());
    s.append(draw_tip(t, m).as_str());
    let listed = m.current_section == MenuSection::GameList;
    s.append(draw_zone_header(t, 4, GAMES_HEADER_Y, label.as_str(), listed).as_str());
    s.append(draw_find(t, m).as_str());
    s.append(draw_list(t, m).as_str());
    s
}

/// The brief splash before the menu (first entry only). Kept tiny so it works on a
/// short screen and doesn't feel like a separate app.
pub fn draw_startup(t: &Theme) -> (s: String)
    ensures
        s@ == t@.screen_bg + "\x1b[2J"@ + logo_text(t@, 16, 8),
        s@ == startup_text(t@),
{
    let mut s = t.screen_bg.clone();
    s.append(out::clear_all().as_str());
    s.append(draw_logo(t, 16, 8).as_str());
    s
}

/// Drop the LCD background before leaving, so it doesn't bleed into the game
/// render or the terminal after the door exits.
pub fn draw_leave() -> (s: String)
    ensures
        s@ == "\x1b[0m"@ + "\x1b[2J"@,
        s@ == leave_text(),
{
    let mut s = out::reset_color();
    s.append(out::clear_all().as_str());
    s
}

// ---------------------------------------------------------------------------
// Laws
// ---------------------------------------------------------------------------

/// A title fits its column, however long the file name, and is unchanged when it
/// fits as it is.
pub proof fn law_titles_fit(title: Seq<char>, max: nat)
    requires
        max > 0,
    ensures
        ellipsized(title, max).len() <= max,
        title.len() <= max ==> ellipsized(title, max) == title,
        text::padded(ellipsized(title, max), max).len() == max,
{
}

/// Every row that is drawn stands on the screen: the window never runs past the
/// list or the visible rows.
pub proof fn law_rows_stay_in_view(m: Menu)
    requires
        menu_state::is_valid(m),
        m.filtered.len() > 0,
    ensures
        1 <= shown_rows(m) <= m.visible,
        m.scroll + shown_rows(m) <= m.filtered.len(),
{
}

/// A theme without colors: what is drawn with it can be read.
pub open spec fn plain() -> Colors {
    let none = Seq::<char>::empty();
    Colors {
        screen_bg: none,
        lime_bg: none,
        ink_bg: none,
        ink: none,
        ink_mid: none,
        moss: none,
        lime: none,
        screen: none,
    }
}

/// **What a game's row reads as**, colors apart: from the fifth column, a pointer at the
/// game under the cursor (blinking while the list is in focus), the title in 52 columns,
/// and `GBC` or `GB`.
pub proof fn law_game_row_reads_as(
    y: int,
    title: Seq<char>,
    is_gbc: bool,
    selected: bool,
    zone_active: bool,
)
    ensures
        rom_row_text(plain(), y, title, is_gbc, selected, zone_active) == out::move_text(4, y) + (
        if selected && zone_active {
            " \x1b[5m▶\x1b[25m "@
        } else if selected {
            " ▶ "@
        } else {
            "   "@
        }) + text::padded(ellipsized(title, 52), 52) + (if is_gbc {
            " GBC "@
        } else {
            " GB  "@
        }),
{
    reveal_strlit(" \x1b[5m▶\x1b[25m ");
    reveal_strlit(" ▶ ");
    reveal_strlit("   ");
    reveal_strlit(" ");
    reveal_strlit("▶");
    reveal_strlit("\x1b[5m");
    reveal_strlit("\x1b[25m");
    reveal_strlit("GBC");
    reveal_strlit("GB");
    reveal_strlit(" GBC ");
    reveal_strlit(" GB  ");
    let row = rom_row_text(plain(), y, title, is_gbc, selected, zone_active);
    let name = text::padded(ellipsized(title, 52), 52);
    assert(normal(plain()) == Seq::<char>::empty());
    if selected && zone_active {
        assert(" "@ + caret_text(plain(), true, plain().lime) + " "@ =~= " \x1b[5m▶\x1b[25m "@);
    } else if selected {
        assert(" "@ + caret_text(plain(), false, plain().lime) + " "@ =~= " ▶ "@);
    }
    if is_gbc {
        assert(" "@ + text::padded("GBC"@, 3) + " "@ =~= " GBC "@);
    } else {
        assert(" "@ + text::padded("GB"@, 3) + " "@ =~= " GB  "@);
    }
    let mark = if selected && zone_active {
        " \x1b[5m▶\x1b[25m "@
    } else if selected {
        " ▶ "@
    } else {
        "   "@
    };
    let tag = if is_gbc {
        " GBC "@
    } else {
        " GB  "@
    };
    assert(row =~= out::move_text(4, y) + mark + name + tag);
}

/// The row under the cursor stands on a dark bar, in light letters, while the list is in
/// focus; no other row does.
pub proof fn law_selected_row_is_barred(
    c: Colors,
    y: int,
    title: Seq<char>,
    is_gbc: bool,
    selected: bool,
    zone_active: bool,
)
    ensures
        ({
            let row = rom_row_text(c, y, title, is_gbc, selected, zone_active);
            let head = out::move_text(4, y).len() as int;
            &&& row.take(head) == out::move_text(4, y)
            &&& selected && zone_active ==> row.skip(head).take(c.ink_bg.len() as int) == c.ink_bg
            &&& !selected ==> row.skip(head).take(3) == "   "@ && row.skip(head + 3).take(
                c.ink_mid.len() as int,
            ) == c.ink_mid
        }),
{
    reveal_strlit("   ");
    let row = rom_row_text(c, y, title, is_gbc, selected, zone_active);
    let head = out::move_text(4, y).len() as int;
    assert(row.take(head) =~= out::move_text(4, y));
    if selected && zone_active {
        assert(row.skip(head).take(c.ink_bg.len() as int) =~= c.ink_bg);
    }
    if !selected {
        assert(row.skip(head).take(3) =~= "   "@);
        assert(row.skip(head + 3).take(c.ink_mid.len() as int) =~= c.ink_mid);
    }
}

/// What a setting reads as, colors apart: a pointer at the one in focus last, the label in
/// seven columns, and its value between arrows, in five.
pub proof fn law_setting_reads_as(
    x: int,
    y: int,
    label: Seq<char>,
    value: Seq<char>,
    caret: bool,
    zone_active: bool,
)
    ensures
        option_text(plain(), x, y, label, value, caret, zone_active) == out::move_text(x, y) + (
        if caret && zone_active {
            "\x1b[5m▶\x1b[25m "@
        } else if caret {
            "▶ "@
        } else {
            "  "@
        }) + text::padded(label, 7) + "◄ "@ + text::padded(value, 5) + " ►"@,
{
    reveal_strlit("\x1b[5m▶\x1b[25m ");
    reveal_strlit("▶ ");
    reveal_strlit("▶");
    reveal_strlit("  ");
    reveal_strlit(" ");
    reveal_strlit("\x1b[5m");
    reveal_strlit("\x1b[25m");
    assert(normal(plain()) == Seq::<char>::empty());
    let mark = if caret && zone_active {
        "\x1b[5m▶\x1b[25m "@
    } else if caret {
        "▶ "@
    } else {
        "  "@
    };
    assert((if caret {
        caret_text(plain(), zone_active, plain().ink)
    } else {
        " "@
    }) + " "@ =~= mark);
    assert(option_text(plain(), x, y, label, value, caret, zone_active) =~= out::move_text(x, y)
        + mark + text::padded(label, 7) + "◄ "@ + text::padded(value, 5) + " ►"@);
}

/// The settings that are shown, with the values that are chosen.
pub proof fn law_settings_are_shown(c: Colors, m: Menu)
    ensures
        ({
            let zone = m.section != MenuSection::GameList;
            settings_text(c, m) == header_text(c, 54, 3, "Settings"@, zone) + option_text(
                c,
                54,
                4,
                "Render"@,
                if m.render_mode == RenderMode::Block {
                    "Block"@
                } else {
                    "ASCII"@
                },
                m.last_settings == MenuSection::RenderMode,
                zone,
            ) + option_text(
                c,
                54,
                5,
                "Sound"@,
                match m.sound {
                    menu::SoundMode::Off => "Off"@,
                    menu::SoundMode::Ansi => "ANSI"@,
                    menu::SoundMode::Apc => "APC"@,
                },
                m.last_settings == MenuSection::Audio,
                zone,
            ) + option_text(
                c,
                54,
                6,
                "Filter"@,
                filter_shown(m.filter),
                m.last_settings == MenuSection::Filter,
                zone,
            ) + option_text(
                c,
                54,
                7,
                "Size"@,
                if m.screen == ScreenSize::Best {
                    "Best"@
                } else {
                    "Auto"@
                },
                m.last_settings == MenuSection::Screen,
                zone,
            )
        }),
{
    lemma_trimmed_labels();
}

/// The filter as it is shown.
pub open spec fn filter_shown(f: menu::RomFilter) -> Seq<char> {
    match f {
        menu::RomFilter::All => "All"@,
        menu::RomFilter::GameBoy => "GB"@,
        menu::RomFilter::GameBoyColor => "GBC"@,
    }
}

proof fn lemma_trimmed_labels()
    ensures
        text::trimmed("Off "@) == "Off"@,
        text::trimmed("ANSI"@) == "ANSI"@,
        text::trimmed("APC "@) == "APC"@,
        text::trimmed("All "@) == "All"@,
        text::trimmed("GB  "@) == "GB"@,
        text::trimmed("GBC "@) == "GBC"@,
{
    reveal_strlit("Off ");
    reveal_strlit("Off");
    reveal_strlit("ANSI");
    reveal_strlit("APC ");
    reveal_strlit("APC");
    reveal_strlit("All ");
    reveal_strlit("All");
    reveal_strlit("GB  ");
    reveal_strlit("GB");
    reveal_strlit("GBC ");
    reveal_strlit("GBC");
    reveal_with_fuel(text::trimmed_end, 3);
    assert("Off "@.drop_last() =~= "Off"@);
    assert("APC "@.drop_last() =~= "APC"@);
    assert("All "@.drop_last() =~= "All"@);
    assert("GB  "@.drop_last().drop_last() =~= "GB"@);
    assert("GBC "@.drop_last() =~= "GBC"@);
}

/// The list's heading names the filter and counts the games that pass it; what is typed is
/// shown beside it while the list is in focus.
pub proof fn law_list_heading(c: Colors, m: Menu)
    ensures
        games_label(m) == "Games: "@ + filter_shown(m.filter) + " ("@ + text::decimal(
            m.filtered.len(),
        ) + ")"@,
        m.section != MenuSection::GameList || m.typeahead.len() == 0 ==> find_text(c, m) == Seq::<
            char,
        >::empty(),
        m.section == MenuSection::GameList && m.typeahead.len() > 0 ==> find_text(plain(), m)
            == out::move_text(44, 9) + "Find: "@ + ellipsized(m.typeahead, 20),
{
    lemma_trimmed_labels();
    assert(find_text(plain(), m) =~= if m.section == MenuSection::GameList && m.typeahead.len() > 0 {
        out::move_text(44, 9) + "Find: "@ + ellipsized(m.typeahead, 20)
    } else {
        Seq::empty()
    });
}

/// **The list shows the games of the filtered list from the top of the window on**, one to
/// a row, in their order, and marks the one under the cursor.
pub proof fn law_list_shows_its_games(c: Colors, m: Menu, i: int)
    requires
        menu_state::is_valid(m),
        m.filtered.len() > 0,
        0 <= i < m.visible,
        m.scroll + i < m.filtered.len(),
    ensures
        ({
            let game = m.roms[m.filtered[m.scroll + i] as int].path;
            let row = rom_row_text(
                c,
                10 + i,
                title_of(game),
                is_color_rom(game),
                m.scroll + i == m.selected,
                m.section == MenuSection::GameList,
            );
            &&& i < shown_rows(m)
            &&& rows_text(c, m, (i + 1) as nat) == rows_text(c, m, i as nat) + row
            &&& rows_text(c, m, 0) == Seq::<char>::empty()
        }),
{
    law_rows_stay_in_view(m);
}

/// Arrows at the ends of the window say that the list goes on there; an empty list says
/// why.
pub proof fn law_list_ends(c: Colors, m: Menu)
    requires
        menu_state::is_valid(m),
    ensures
        m.filtered.len() > 0 ==> list_text(c, m) == rows_text(c, m, shown_rows(m) as nat) + (
        if m.scroll > 0 {
            arrow_text(c, 10, "▲"@)
        } else {
            Seq::empty()
        }) + (if m.scroll + m.visible < m.filtered.len() {
            arrow_text(c, 10 + m.visible - 1, "▼"@)
        } else {
            Seq::empty()
        }),
        m.roms.len() == 0 && m.filtered.len() == 0 ==> list_text(plain(), m) == out::move_text(
            4,
            10,
        ) + "No ROMs found — add .gb/.gbc files beside the binary"@,
        m.roms.len() > 0 && m.filtered.len() == 0 ==> list_text(plain(), m) == out::move_text(4, 10)
            + "No games match this filter"@,
        arrow_text(plain(), 10, "▲"@) == out::move_text(65, 10) + "▲"@,
{
    let none = Seq::<char>::empty();
    assert(normal(plain()) == none);
    assert(arrow_text(plain(), 10, "▲"@) =~= out::move_text(65, 10) + "▲"@);
    if m.filtered.len() == 0 {
        assert(list_text(plain(), m) =~= out::move_text(4, 10) + (if m.roms.len() == 0 {
            "No ROMs found — add .gb/.gbc files beside the binary"@
        } else {
            "No games match this filter"@
        }));
    }
}

/// A game is listed under its file's name without the extension, and tagged as one for
/// Game Boy Color by the extension `gbc`, in any case.
pub proof fn law_titles_and_tags(dir: Seq<char>, base: Seq<char>, ext: Seq<char>)
    requires
        path::is_dir(dir),
        base.len() > 0,
        !base.contains('/'),
        !ext.contains('/'),
        !ext.contains('.'),
        ext.len() > 0,
    ensures
        ({
            let p = dir + seq!['/'] + (base + seq!['.'] + ext);
            &&& title_of(p) == base
            &&& is_color_rom(p) <==> text::ascii_lowered(ext) == "gbc"@
        }),
{
    reveal_strlit("gbc");
    let name = base + seq!['.'] + ext;
    assert(!name.contains('/')) by {
        if name.contains('/') {
            let k = choose|k: int| 0 <= k < name.len() && name[k] == '/';
            if k < base.len() {
                assert(base.contains(base[k]));
            } else if k > base.len() {
                assert(ext.contains(ext[k - base.len() - 1]));
            }
        }
    }
    assert(name.len() >= 3);
    path::law_joined_paths_come_apart(dir, name);
    path::law_names_come_apart(base, ext);
    assert(text::ascii_lowered("gbc"@) =~= "gbc"@);
}

/// A title that is too long is cut to its column, with an ellipsis in the last place.
pub proof fn law_long_titles_are_cut(title: Seq<char>, max: nat)
    requires
        0 < max < title.len(),
    ensures
        ellipsized(title, max).len() == max,
        ellipsized(title, max).last() == '…',
        ellipsized(title, max).drop_last() == title.take(max - 1),
{
    assert(ellipsized(title, max).drop_last() =~= title.take(max - 1));
}

/// What a heading reads as: the label between double lines, which blink in focus.
pub proof fn law_heading_reads_as(x: int, y: int, label: Seq<char>)
    ensures
        header_text(plain(), x, y, label, false) == out::move_text(x, y) + "══ "@ + label + " ══"@,
        header_text(plain(), x, y, label, true) == out::move_text(x, y)
            + "\x1b[5m══\x1b[25m "@ + label + " \x1b[5m══\x1b[25m"@,
{
    reveal_strlit("\x1b[5m");
    reveal_strlit("\x1b[25m");
    reveal_strlit("══");
    reveal_strlit(" ");
    reveal_strlit("\x1b[5m══\x1b[25m ");
    reveal_strlit(" \x1b[5m══\x1b[25m");
    assert(normal(plain()) == Seq::<char>::empty());
    assert(header_text(plain(), x, y, label, false) =~= out::move_text(x, y) + "══ "@ + label
        + " ══"@);
    assert(header_text(plain(), x, y, label, true) =~= out::move_text(x, y)
        + "\x1b[5m══\x1b[25m "@ + label + " \x1b[5m══\x1b[25m"@);
}

/// What the key hints of the menu read as.
pub proof fn law_menu_hints_read_as()
    ensures
        hints_text(plain()) == out::move_text(3, 0)
            + "↑↓ move   Tab settings/list   ◄► change   Z/Enter play   Esc quit"@ + out::move_text(
            4,
            1,
        ) + "type any letters to jump to a game"@,
{
    reveal_strlit("↑↓ move   Tab settings/list   ◄► change   Z/Enter play   Esc quit");
    reveal_strlit("type any letters to jump to a game");
    reveal_strlit("↑↓");
    reveal_strlit(" move   ");
    reveal_strlit("Tab");
    reveal_strlit(" settings/list   ");
    reveal_strlit("◄►");
    reveal_strlit(" change   ");
    reveal_strlit("Z/Enter");
    reveal_strlit(" play   ");
    reveal_strlit("Esc");
    reveal_strlit(" quit");
    reveal_strlit("type");
    reveal_strlit(" any letters to jump to a game");
    let p = plain();
    assert(normal(p) == Seq::<char>::empty());
    let first = hint(p, "↑↓"@, " move   "@) + hint(p, "Tab"@, " settings/list   "@) + hint(
        p,
        "◄►"@,
        " change   "@,
    ) + hint(p, "Z/Enter"@, " play   "@) + hint(p, "Esc"@, " quit"@);
    assert(first =~= "↑↓ move   Tab settings/list   ◄► change   Z/Enter play   Esc quit"@);
    let second = hint(p, "type"@, " any letters to jump to a game"@);
    assert(second =~= "type any letters to jump to a game"@);
    assert(hints_text(p) =~= out::move_text(3, 0) + first + out::move_text(4, 1) + second);
}

/// The tip about the size is given until it is followed.
pub proof fn law_tip_is_given_until_followed(m: Menu, c: Colors)
    ensures
        m.screen == ScreenSize::Best ==> tip_text(c, m) == Seq::<char>::empty(),
        m.screen == ScreenSize::Auto ==> tip_text(plain(), m) == out::move_text(2, 8)
            + " Optional: set Size to Best (or use a 162x74 terminal) for the sharpest picture "@,
{
    assert(normal(plain()) == Seq::<char>::empty());
    if m.screen == ScreenSize::Auto {
        assert(tip_text(plain(), m) =~= out::move_text(2, 8)
            + " Optional: set Size to Best (or use a 162x74 terminal) for the sharpest picture "@);
    }
}

/// The logo's half blocks: each shows the pixel above and the pixel below, as they are lit.
pub proof fn law_logo_halves(top: bool, bottom: bool)
    ensures
        half_block(top, bottom) == '█' <==> top && bottom,
        half_block(top, bottom) == '▀' <==> top && !bottom,
        half_block(top, bottom) == '▄' <==> !top && bottom,
        half_block(top, bottom) == ' ' <==> !top && !bottom,
{
}

/// The logo leans to the right: every second row of pixels stands one column further left,
/// down to the last, which stands at the margin. A line shows two rows of pixels.
pub proof fn law_logo_leans(px: Seq<Seq<bool>>, row: int, j: int, c: int, line: int)
    requires
        0 <= row < 8,
        0 <= line < 5,
        0 <= c < widest(px, 9) + 4,
    ensures
        0 <= shear(row) - shear(row + 1) <= 1,
        shear(row) - shear(row + 2) == 1,
        shear(8) == 0 && shear(0) == 4,
        pixel(px, row, j + shear(row)) == (0 <= j < px[row].len() && px[row][j]),
        logo_line(px, line)[c] == half_block(
            pixel(px, 2 * line, c),
            line < 4 && pixel(px, 2 * line + 1, c),
        ),
{
}

/// The logo reads LAME BOY, with an empty column behind each letter, on five lines.
#[verifier::rlimit(40)]
pub proof fn law_logo_reads_lame_boy(c: Colors, x: int, y: int, row: usize)
    requires
        row < 9,
    ensures
        logo_pixels().len() == 9,
        logo_pixels()[row as int] == letter('L', row) + letter('A', row) + letter('M', row) + letter(
            'E',
            row,
        ) + letter(' ', row) + letter('B', row) + letter('O', row) + letter('Y', row),
        logo_text(c, x, y) == c.ink + c.screen_bg + drawn_line(x, y, 0) + drawn_line(x, y, 1) + drawn_line(
            x,
            y,
            2,
        ) + drawn_line(x, y, 3) + drawn_line(x, y, 4) + c.ink_mid + c.screen_bg,
{
    reveal_strlit("LAME BOY");
    reveal_with_fuel(logo_rows, 6);
    reveal_with_fuel(pixel_row, 2);
    let none = Seq::<char>::empty();
    let w1 = none.push('L');
    let w2 = w1.push('A');
    let w3 = w2.push('M');
    let w4 = w3.push('E');
    let w5 = w4.push(' ');
    let w6 = w5.push('B');
    let w7 = w6.push('O');
    let w8 = w7.push('Y');
    assert(w8 =~= "LAME BOY"@);
    lemma_pixel_row(none, 'L', row);
    lemma_pixel_row(w1, 'A', row);
    lemma_pixel_row(w2, 'M', row);
    lemma_pixel_row(w3, 'E', row);
    lemma_pixel_row(w4, ' ', row);
    lemma_pixel_row(w5, 'B', row);
    lemma_pixel_row(w6, 'O', row);
    lemma_pixel_row(w7, 'Y', row);
    assert(pixel_row(none, row) == Seq::<bool>::empty());
    assert(pixel_row(w1, row) =~= letter('L', row));
    assert(logo_rows(x, y, 5) =~= drawn_line(x, y, 0) + drawn_line(x, y, 1) + drawn_line(x, y, 2)
        + drawn_line(x, y, 3) + drawn_line(x, y, 4));
    assert(logo_text(c, x, y) =~= c.ink + c.screen_bg + drawn_line(x, y, 0) + drawn_line(x, y, 1)
        + drawn_line(x, y, 2) + drawn_line(x, y, 3) + drawn_line(x, y, 4) + c.ink_mid + c.screen_bg);
}

/// A row of a letter's pixels and the column behind it.
pub open spec fn letter(c: char, row: usize) -> Seq<bool> {
    Seq::new(
        glyph_row(c, row).len() + 1,
        |i: int| i < glyph_row(c, row).len() && glyph_row(c, row)[i] == '#',
    )
}

/// A line of the logo, without the blanks at its end.
pub open spec fn drawn_line(x: int, y: int, i: int) -> Seq<char> {
    out::move_text(x, y + i) + text::trimmed_end(logo_line(logo_pixels(), i))
}

proof fn lemma_pixel_row(word: Seq<char>, c: char, row: usize)
    ensures
        pixel_row(word.push(c), row) == pixel_row(word, row) + letter(c, row),
{
    assert(word.push(c).drop_last() =~= word);
    assert(pixel_row(word.push(c), row) =~= pixel_row(word, row) + letter(c, row));
}

/// The letters of the logo, row by row.
#[verifier::rlimit(40)]
pub proof fn law_logo_letters(row: usize)
    requires
        row < 9,
    ensures
        glyph_row('L', row) == "##   ##   ##   ##   ##   ##   ##   ##########"@.subrange(
            5 * row as int,
            5 * row as int + 5,
        ),
        glyph_row('A', row) == " ### ## #### #### ############## #### #### ##"@.subrange(
            5 * row as int,
            5 * row as int + 5,
        ),
        glyph_row('M', row) == "##   ##### ##### # ####   ####   ####   ####   ####   ####   ##"@.subrange(
            7 * row as int,
            7 * row as int + 7,
        ),
        glyph_row('E', row) == "#######   ##   #### #### ##   ##   ##########"@.subrange(
            5 * row as int,
            5 * row as int + 5,
        ),
        glyph_row('B', row) == "#### ## #### ###### #### ## #### #### ###### "@.subrange(
            5 * row as int,
            5 * row as int + 5,
        ),
        glyph_row('O', row) == " ### ## #### #### #### #### #### #### ## ### "@.subrange(
            5 * row as int,
            5 * row as int + 5,
        ),
        glyph_row('Y', row) == "## #### ## ###   #    #    #    #    #    #  "@.subrange(
            5 * row as int,
            5 * row as int + 5,
        ),
        glyph_row(' ', row) == "  "@,
{
    reveal_strlit("##   ##   ##   ##   ##   ##   ##   ##########");
    reveal_strlit(" ### ## #### #### ############## #### #### ##");
    reveal_strlit("##   ##### ##### # ####   ####   ####   ####   ####   ####   ##");
    reveal_strlit("#######   ##   #### #### ##   ##   ##########");
    reveal_strlit("#### ## #### ###### #### ## #### #### ###### ");
    reveal_strlit(" ### ## #### #### #### #### #### #### ## ### ");
    reveal_strlit("## #### ## ###   #    #    #    #    #    #  ");
    reveal_strlit("  #  ");
    reveal_strlit(" ### ");
    reveal_strlit("##   ");
    reveal_strlit("##   ##");
    reveal_strlit("## # ##");
    reveal_strlit("## ##");
    reveal_strlit("### ###");
    reveal_strlit("#### ");
    reveal_strlit("#####");
    assert(row == 0 || row == 1 || row == 2 || row == 3 || row == 4 || row == 5 || row == 6 || row == 7
        || row == 8);
    assert(glyph_row('L', row) =~= "##   ##   ##   ##   ##   ##   ##   ##########"@.subrange(
        5 * row as int,
        5 * row as int + 5,
    ));
    assert(glyph_row('A', row) =~= " ### ## #### #### ############## #### #### ##"@.subrange(
        5 * row as int,
        5 * row as int + 5,
    ));
    assert(glyph_row('M', row) =~= "##   ##### ##### # ####   ####   ####   ####   ####   ####   ##"@.subrange(
        7 * row as int,
        7 * row as int + 7,
    ));
    assert(glyph_row('E', row) =~= "#######   ##   #### #### ##   ##   ##########"@.subrange(
        5 * row as int,
        5 * row as int + 5,
    ));
    assert(glyph_row('B', row) =~= "#### ## #### ###### #### ## #### #### ###### "@.subrange(
        5 * row as int,
        5 * row as int + 5,
    ));
    assert(glyph_row('O', row) =~= " ### ## #### #### #### #### #### #### ## ### "@.subrange(
        5 * row as int,
        5 * row as int + 5,
    ));
    assert(glyph_row('Y', row) =~= "## #### ## ###   #    #    #    #    #    #  "@.subrange(
        5 * row as int,
        5 * row as int + 5,
    ));
}

/// What is drawn before the menu.
pub open spec fn startup_text(c: Colors) -> Seq<char> {
    c.screen_bg + "\x1b[2J"@ + logo_text(c, 16, 8)
}

/// What is sent when the menu is left.
pub open spec fn leave_text() -> Seq<char> {
    "\x1b[0m"@ + "\x1b[2J"@
}

/// The screen is filled with its color before anything is drawn on it, and the terminal's
/// own color comes back, on a clear screen, when the menu is left.
pub proof fn law_screen_is_filled_and_given_back(c: Colors)
    ensures
        ({
            let fill = c.screen_bg + "\x1b[2J"@;
            &&& startup_text(c).take(fill.len() as int) == fill
            &&& startup_text(c).skip(fill.len() as int) == logo_text(c, 16, 8)
            &&& leave_text() == "\x1b[0m\x1b[2J"@
        }),
{
    reveal_strlit("\x1b[0m");
    reveal_strlit("\x1b[2J");
    reveal_strlit("\x1b[0m\x1b[2J");
    let fill = c.screen_bg + "\x1b[2J"@;
    lemma_two_parts(fill, logo_text(c, 16, 8));
    assert(leave_text() =~= "\x1b[0m\x1b[2J"@);
}

/// Where the parts of the menu stand: the hints on the first two rows, the logo from the
/// fourth, the settings beside it, the tip below, then the list under its heading.
pub proof fn law_parts_of_the_menu(c: Colors, m: Menu)
    ensures
        menu_text(c, m).take((c.screen_bg + "\x1b[2J"@).len() as int) == c.screen_bg + "\x1b[2J"@,
        menu_text(c, m).skip((c.screen_bg + "\x1b[2J"@).len() as int) == hints_text(c) + logo_text(
            c,
            2,
            3,
        ) + settings_text(c, m) + tip_text(c, m) + header_text(
            c,
            4,
            9,
            games_label(m),
            m.section == MenuSection::GameList,
        ) + find_text(c, m) + list_text(c, m),
{
    lemma_first_part(
        c.screen_bg + "\x1b[2J"@,
        hints_text(c),
        logo_text(c, 2, 3),
        settings_text(c, m),
        tip_text(c, m),
        header_text(c, 4, 9, games_label(m), m.section == MenuSection::GameList),
        find_text(c, m),
        list_text(c, m),
    );
}

proof fn lemma_two_parts(a: Seq<char>, b: Seq<char>)
    ensures
        (a + b).take(a.len() as int) == a,
        (a + b).skip(a.len() as int) == b,
{
    assert((a + b).take(a.len() as int) =~= a);
    assert((a + b).skip(a.len() as int) =~= b);
}

proof fn lemma_first_part(
    a: Seq<char>,
    b: Seq<char>,
    c: Seq<char>,
    d: Seq<char>,
    e: Seq<char>,
    f: Seq<char>,
    g: Seq<char>,
    h: Seq<char>,
)
    ensures
        (a + b + c + d + e + f + g + h).take(a.len() as int) == a,
        (a + b + c + d + e + f + g + h).skip(a.len() as int) == b + c + d + e + f + g + h,
{
    assert((a + b + c + d + e + f + g + h).take(a.len() as int) =~= a);
    assert((a + b + c + d + e + f + g + h).skip(a.len() as int) =~= b + c + d + e + f + g + h);
}

/// The colors of the menu where colors are shown at all: four greens and the screen's own.
pub proof fn law_colors_of_the_menu(c: Colors)
    requires
        is_lcd(c),
    ensures
        c.screen_bg == "\x1b[48;2;202;220;159m"@ || c.screen_bg == "\x1b[m"@,
        c.screen == "\x1b[38;2;202;220;159m"@ || c.screen == "\x1b[m"@,
        c.lime_bg == "\x1b[48;2;155;188;15m"@ || c.lime_bg == "\x1b[m"@,
        c.lime == "\x1b[38;2;155;188;15m"@ || c.lime == "\x1b[m"@,
        c.ink_bg == "\x1b[48;2;15;56;15m"@ || c.ink_bg == "\x1b[m"@,
        c.ink == "\x1b[38;2;15;56;15m"@ || c.ink == "\x1b[m"@,
        c.ink_mid == "\x1b[38;2;48;98;48m"@ || c.ink_mid == "\x1b[m"@,
        c.moss == "\x1b[38;2;139;172;15m"@ || c.moss == "\x1b[m"@,
{
    reveal_strlit("\x1b[48;2;202;220;159m");
    reveal_strlit("\x1b[38;2;202;220;159m");
    reveal_strlit("\x1b[48;2;155;188;15m");
    reveal_strlit("\x1b[38;2;155;188;15m");
    reveal_strlit("\x1b[48;2;15;56;15m");
    reveal_strlit("\x1b[38;2;15;56;15m");
    reveal_strlit("\x1b[38;2;48;98;48m");
    reveal_strlit("\x1b[38;2;139;172;15m");
    reveal_strlit("\x1b[");
    reveal_strlit(";2;");
    reveal_strlit(";");
    reveal_strlit("m");
    reveal_with_fuel(text::decimal, 3);
    assert(text::decimal(38) =~= seq!['3', '8'] && text::decimal(48) =~= seq!['4', '8']);
    assert(text::decimal(202) =~= seq!['2', '0', '2']);
    assert(text::decimal(220) =~= seq!['2', '2', '0']);
    assert(text::decimal(159) =~= seq!['1', '5', '9']);
    assert(text::decimal(155) =~= seq!['1', '5', '5']);
    assert(text::decimal(188) =~= seq!['1', '8', '8']);
    assert(text::decimal(139) =~= seq!['1', '3', '9']);
    assert(text::decimal(172) =~= seq!['1', '7', '2']);
    assert(text::decimal(15) =~= seq!['1', '5'] && text::decimal(56) =~= seq!['5', '6']);
    assert(text::decimal(98) =~= seq!['9', '8']);
    assert(out::rgb_text(48, 202, 220, 159) =~= "\x1b[48;2;202;220;159m"@);
    assert(out::rgb_text(38, 202, 220, 159) =~= "\x1b[38;2;202;220;159m"@);
    assert(out::rgb_text(48, 155, 188, 15) =~= "\x1b[48;2;155;188;15m"@);
    assert(out::rgb_text(38, 155, 188, 15) =~= "\x1b[38;2;155;188;15m"@);
    assert(out::rgb_text(48, 15, 56, 15) =~= "\x1b[48;2;15;56;15m"@);
    assert(out::rgb_text(38, 15, 56, 15) =~= "\x1b[38;2;15;56;15m"@);
    assert(out::rgb_text(38, 48, 98, 48) =~= "\x1b[38;2;48;98;48m"@);
    assert(out::rgb_text(38, 139, 172, 15) =~= "\x1b[38;2;139;172;15m"@);
}

} // verus!
