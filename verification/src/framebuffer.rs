//! The emulated screen as full-color pixels.

use crate::color::ColorDepth;
use crate::text;
use vstd::prelude::*;

verus! {

/// GameBoy screen dimensions
pub const GB_WIDTH: usize = 160;

pub const GB_HEIGHT: usize = 144;

#[derive(Clone, Copy, PartialEq, Eq, Debug, Structural)]
pub struct Rgb {
    pub r: u8,
    pub g: u8,
    pub b: u8,
}

/// Greyscale of a color, by the weights 77, 150 and 29 of 256.
pub open spec fn grey_of(c: Rgb) -> int {
    (c.r * 77 + c.g * 150 + c.b * 29) / 256
}

impl Rgb {
    /// Convert to greyscale using integer math (faster than floating point).
    /// Uses coefficients: R*77 + G*150 + B*29 ≈ R*0.299 + G*0.587 + B*0.114 (scaled by 256)
    pub fn to_grey(self) -> (r: u8)
        ensures
            r == grey_of(self),
    {
        ((self.r as u32 * 77 + self.g as u32 * 150 + self.b as u32 * 29) / 256) as u8
    }
}

/// One of the four shades of a non-color (DMG) game.
#[derive(Clone, Copy, PartialEq, Eq, Debug, Structural)]
pub enum Shade {
    White,
    LightGray,
    DarkGray,
    Black,
}

/// Which palette a non-color (DMG) game's four shades map to. Only affects games
/// that render through the 4-shade path (`map_pixel`); Game Boy Color titles
/// render through `cgb_map_pixel` and are unaffected.
#[derive(Clone, Copy, PartialEq, Eq, Debug, Structural)]
pub enum DmgPalette {
    /// Neutral grayscale: the safe default; degrades cleanly on any terminal.
    Gray,
    /// The original Game Boy pea-green LCD palette (matches the splash/menu).
    Green,
}

pub open spec fn slug_of(p: DmgPalette) -> Seq<char> {
    match p {
        DmgPalette::Gray => "gray"@,
        DmgPalette::Green => "green"@,
    }
}

pub open spec fn label_of(p: DmgPalette) -> Seq<char> {
    match p {
        DmgPalette::Gray => "Gray"@,
        DmgPalette::Green => "Green"@,
    }
}

/// The palette that a lowercase word means.
pub open spec fn palette_named(w: Seq<char>) -> Option<DmgPalette> {
    if w == "gray"@ || w == "grey"@ || w == "grayscale"@ || w == "bw"@ || w == "mono"@ {
        Some(DmgPalette::Gray)
    } else if w == "green"@ || w == "dmg"@ || w == "lcd"@ {
        Some(DmgPalette::Green)
    } else {
        None
    }
}

pub open spec fn palette_after(p: DmgPalette) -> DmgPalette {
    match p {
        DmgPalette::Gray => DmgPalette::Green,
        DmgPalette::Green => DmgPalette::Gray,
    }
}

/// The palette that is rendered at a depth: green only reads well with extended
/// color.
pub open spec fn palette_at(p: DmgPalette, depth: ColorDepth) -> DmgPalette {
    if depth == ColorDepth::C16 {
        DmgPalette::Gray
    } else {
        p
    }
}

/// Display color of a shade. The green values are the canonical Game Boy LCD
/// palette (#9bbc0f / #8bac0f / #306230 / #0f380f).
pub open spec fn shade_rgb(p: DmgPalette, c: Shade) -> Rgb {
    match (p, c) {
        (DmgPalette::Gray, Shade::White) => Rgb { r: 255, g: 255, b: 255 },
        (DmgPalette::Gray, Shade::LightGray) => Rgb { r: 170, g: 170, b: 170 },
        (DmgPalette::Gray, Shade::DarkGray) => Rgb { r: 85, g: 85, b: 85 },
        (DmgPalette::Gray, Shade::Black) => Rgb { r: 0, g: 0, b: 0 },
        (DmgPalette::Green, Shade::White) => Rgb { r: 155, g: 188, b: 15 },
        (DmgPalette::Green, Shade::LightGray) => Rgb { r: 139, g: 172, b: 15 },
        (DmgPalette::Green, Shade::DarkGray) => Rgb { r: 48, g: 98, b: 48 },
        (DmgPalette::Green, Shade::Black) => Rgb { r: 15, g: 56, b: 15 },
    }
}

impl Default for DmgPalette {
    fn default() -> (r: Self)
        ensures
            r == DmgPalette::Gray,
    {
        DmgPalette::Gray
    }
}

impl DmgPalette {
    pub fn slug(self) -> (r: &'static str)
        ensures
            r@ == slug_of(self),
    {
        match self {
            DmgPalette::Gray => "gray",
            DmgPalette::Green => "green",
        }
    }

    pub fn label(self) -> (r: &'static str)
        ensures
            r@ == label_of(self),
    {
        match self {
            DmgPalette::Gray => "Gray",
            DmgPalette::Green => "Green",
        }
    }

    /// The palette that a lowercase word means, if it means one.
    pub fn from_word(w: &str) -> (r: Option<DmgPalette>)
        ensures
            r == palette_named(w@),
    {
        let v = text::chars_of(w);
        let w = v.as_slice();
        if text::is_word(w, "gray") || text::is_word(w, "grey") || text::is_word(w, "grayscale")
            || text::is_word(w, "bw") || text::is_word(w, "mono") {
            Some(DmgPalette::Gray)
        } else if text::is_word(w, "green") || text::is_word(w, "dmg") || text::is_word(w, "lcd") {
            Some(DmgPalette::Green)
        } else {
            None
        }
    }

    /// Read a palette's name, whatever its case and the white space around it.
    /// Every spelling that `slug` gives reads back as the palette it came from.
    pub fn parse(s: &str) -> (r: Option<DmgPalette>)
        ensures
            r == palette_named(text::lowercase(text::trimmed(s@))),
            r == palette_named(text::folded(text::trimmed(s@))),
            text::is_ascii(text::trimmed(s@)) ==> r == palette_named(
                text::ascii_lowered(text::trimmed(s@)),
            ),
            forall|p: DmgPalette| s@ == #[trigger] slug_of(p) ==> r == Some(p),
    {
        let word = text::lower_trimmed(s);
        proof {
            assert forall|p: DmgPalette| s@ == #[trigger] slug_of(p) implies palette_named(word@)
                == Some(p) by {
                law_slug_reads_back(p);
            }
        }
        Self::from_word(word.as_str())
    }

    pub fn next(self) -> (r: DmgPalette)
        ensures
            r == palette_after(self),
    {
        match self {
            DmgPalette::Gray => DmgPalette::Green,
            DmgPalette::Green => DmgPalette::Gray,
        }
    }

    /// The palette to actually render with at a given color depth. The green LCD
    /// only reads well with extended color: in 16-color its greens quantize to
    /// muddy near-greens, whereas grayscale maps cleanly onto the ANSI grays. So
    /// green falls back to gray when the depth is 16 (the menu still shows the
    /// user's Green choice; it just applies once they're on a color terminal).
    pub fn resolved_for(self, depth: ColorDepth) -> (r: DmgPalette)
        ensures
            r == palette_at(self, depth),
    {
        if depth == ColorDepth::C16 {
            DmgPalette::Gray
        } else {
            self
        }
    }

    /// Map one of the four DMG shades to display RGB for this palette.
    pub fn rgb(self, c: Shade) -> (r: Rgb)
        ensures
            r == shade_rgb(self, c),
    {
        match self {
            DmgPalette::Gray => match c {
                Shade::White => Rgb { r: 255, g: 255, b: 255 },
                Shade::LightGray => Rgb { r: 170, g: 170, b: 170 },
                Shade::DarkGray => Rgb { r: 85, g: 85, b: 85 },
                Shade::Black => Rgb { r: 0, g: 0, b: 0 },
            },
            DmgPalette::Green => match c {
                Shade::White => Rgb { r: 155, g: 188, b: 15 },
                Shade::LightGray => Rgb { r: 139, g: 172, b: 15 },
                Shade::DarkGray => Rgb { r: 48, g: 98, b: 48 },
                Shade::Black => Rgb { r: 15, g: 56, b: 15 },
            },
        }
    }
}

/// Default (grayscale) mapping. DMG games can instead request the classic green
/// LCD palette via `DmgPalette`.
impl From<Shade> for Rgb {
    fn from(c: Shade) -> (r: Self) {
        DmgPalette::Gray.rgb(c)
    }
}

impl vstd::std_specs::convert::FromSpecImpl<Shade> for Rgb {
    open spec fn obeys_from_spec() -> bool {
        true
    }

    open spec fn from_spec(c: Shade) -> Rgb {
        shade_rgb(DmgPalette::Gray, c)
    }
}

pub struct FrameBuffer {
    pub width: usize,
    pub height: usize,
    pub pixels: Vec<Rgb>,
    /// Palette applied to DMG (4-shade) games; ignored by CGB games.
    pub dmg_palette: DmgPalette,
}

impl FrameBuffer {
    pub fn new(width: usize, height: usize) -> (r: Self)
        requires
            width * height * 3 <= isize::MAX,
        ensures
            r.width == width,
            r.height == height,
            r.pixels@ == Seq::new((width * height) as nat, |i: int| Rgb { r: 0, g: 0, b: 0 }),
            r.dmg_palette == DmgPalette::Gray,
    {
        assert(0 <= width * height) by (nonlinear_arith)
            requires
                0 <= width,
                0 <= height,
        ;
        let n: usize = width * height;
        let pixels = vec![Rgb { r: 0, g: 0, b: 0 }; n];
        let r = FrameBuffer { width, height, pixels, dmg_palette: DmgPalette::default() };
        assert(r.pixels@ =~= Seq::new((width * height) as nat, |i: int| Rgb { r: 0, g: 0, b: 0 }));
        r
    }

    /// Choose the palette DMG (4-shade) games render in. CGB games are unaffected
    /// (they render through `cgb_map_pixel`, which ignores this).
    pub fn set_dmg_palette(&mut self, palette: DmgPalette)
        ensures
            final(self).dmg_palette == palette,
            final(self).width == old(self).width,
            final(self).height == old(self).height,
            final(self).pixels@ == old(self).pixels@,
    {
        self.dmg_palette = palette;
    }

    pub fn set_pixel(&mut self, index: usize, color: Rgb)
        requires
            index < old(self).pixels@.len(),
        ensures
            final(self).pixels@ == old(self).pixels@.update(index as int, color),
            final(self).width == old(self).width,
            final(self).height == old(self).height,
            final(self).dmg_palette == old(self).dmg_palette,
    {
        self.pixels.set(index, color);
    }

    pub fn get_pixel(&self, x: usize, y: usize) -> (r: Rgb)
        requires
            y * self.width + x < self.pixels@.len(),
        ensures
            r == self.pixels@[y * self.width + x],
            r == self.pixels@[pixel_place(self.width as int, x as int, y as int)],
    {
        assert(0 <= y * self.width) by (nonlinear_arith)
            requires
                0 <= y,
                0 <= self.width,
        ;
        assert(self.pixels@.len() == self.pixels.len());
        self.pixels[y * self.width + x]
    }

    /// A pixel of a DMG game, one of four shades.
    pub fn map_pixel(&mut self, pixel: usize, shade: Shade)
        requires
            pixel < old(self).pixels@.len(),
        ensures
            final(self).pixels@ == old(self).pixels@.update(
                pixel as int,
                shade_rgb(old(self).dmg_palette, shade),
            ),
            final(self).width == old(self).width,
            final(self).height == old(self).height,
            final(self).dmg_palette == old(self).dmg_palette,
    {
        let rgb = self.dmg_palette.rgb(shade);
        self.set_pixel(pixel, rgb);
    }

    /// A pixel of a Game Boy Color game.
    pub fn cgb_map_pixel(&mut self, pixel: usize, red: u8, green: u8, blue: u8)
        requires
            pixel < old(self).pixels@.len(),
        ensures
            final(self).pixels@ == old(self).pixels@.update(
                pixel as int,
                Rgb { r: red, g: green, b: blue },
            ),
            final(self).pixels@ == old(self).pixels@.update(pixel as int, mixed(red, green, blue)),
            final(self).width == old(self).width,
            final(self).height == old(self).height,
            final(self).dmg_palette == old(self).dmg_palette,
    {
        self.set_pixel(pixel, Rgb { r: red, g: green, b: blue });
    }
}

// ---------------------------------------------------------------------------
// Laws
// ---------------------------------------------------------------------------

/// A palette's spelling is a plain ASCII word without white space around it, and
/// means the palette.
pub proof fn law_slug_reads_back(p: DmgPalette)
    ensures
        text::is_ascii(slug_of(p)),
        text::trimmed(slug_of(p)) == slug_of(p),
        text::ascii_lowered(slug_of(p)) == slug_of(p),
        palette_named(slug_of(p)) == Some(p),
{
    reveal_strlit("gray");
    reveal_strlit("grey");
    reveal_strlit("grayscale");
    reveal_strlit("bw");
    reveal_strlit("mono");
    reveal_strlit("green");
    let w = slug_of(p);
    assert(text::ascii_lowered(w) =~= w);
    assert("green"@.len() == 5 && "gray"@.len() == 4 && "grey"@.len() == 4);
}

/// Two steps through the palettes come full circle.
pub proof fn law_palettes_cycle(p: DmgPalette)
    ensures
        palette_after(palette_after(p)) == p,
        palette_after(p) != p,
{
}

/// Green gives way to gray in 16 colors, and only there.
pub proof fn law_green_gives_way_only_in_16_colors(p: DmgPalette, depth: ColorDepth)
    ensures
        palette_at(p, depth) != p <==> p == DmgPalette::Green && depth == ColorDepth::C16,
{
}

/// The greyscale of a color is its brightness as the eye weighs it (29.9 % red,
/// 58.7 % green, 11.4 % blue, to within two steps), and a grey is its own.
pub proof fn law_grey_is_brightness(c: Rgb)
    ensures
        -2000 <= 1000 * grey_of(c) - (299 * c.r + 587 * c.g + 114 * c.b) <= 2000,
        0 <= grey_of(c) <= 255,
        c.r == c.g && c.g == c.b ==> grey_of(c) == c.r,
{
}

/// In either palette every shade is brighter than the next darker one; the grays are
/// neutral and evenly spaced from white to black, and the greens are greener than
/// they are red or blue.
pub proof fn law_shades_keep_their_order(p: DmgPalette, c: Shade)
    ensures
        grey_of(shade_rgb(p, Shade::White)) > grey_of(shade_rgb(p, Shade::LightGray)),
        grey_of(shade_rgb(p, Shade::LightGray)) > grey_of(shade_rgb(p, Shade::DarkGray)),
        grey_of(shade_rgb(p, Shade::DarkGray)) > grey_of(shade_rgb(p, Shade::Black)),
        p == DmgPalette::Gray ==> shade_rgb(p, c).r == shade_rgb(p, c).g && shade_rgb(p, c).g
            == shade_rgb(p, c).b && shade_rgb(p, c).r == 85 * (match c {
            Shade::White => 3int,
            Shade::LightGray => 2,
            Shade::DarkGray => 1,
            Shade::Black => 0,
        }),
        p == DmgPalette::Green ==> shade_rgb(p, c).g > shade_rgb(p, c).r && shade_rgb(p, c).g
            > shade_rgb(p, c).b,
{
}

/// The words for a palette, and no others.
pub proof fn law_palette_words(w: Seq<char>)
    ensures
        palette_named(w) == Some(DmgPalette::Gray) <==> w == "gray"@ || w == "grey"@ || w
            == "grayscale"@ || w == "bw"@ || w == "mono"@,
        palette_named(w) == Some(DmgPalette::Green) <==> w == "green"@ || w == "dmg"@ || w
            == "lcd"@,
{
    reveal_strlit("gray");
    reveal_strlit("grey");
    reveal_strlit("grayscale");
    reveal_strlit("bw");
    reveal_strlit("mono");
    reveal_strlit("green");
    reveal_strlit("dmg");
    reveal_strlit("lcd");
    assert("gray"@.len() == 4 && "grey"@.len() == 4 && "grayscale"@.len() == 9 && "bw"@.len() == 2
        && "mono"@.len() == 4);
    assert("green"@.len() == 5 && "dmg"@.len() == 3 && "lcd"@.len() == 3);
}

/// Where a pixel stands among all.
pub open spec fn pixel_place(width: int, x: int, y: int) -> int {
    y * width + x
}

/// The color of the parts.
pub open spec fn mixed(red: u8, green: u8, blue: u8) -> Rgb {
    Rgb { r: red, g: green, b: blue }
}

/// Pixels stand row by row, from the left: the next to the right is the next of all, the
/// one below a row's width further on, and no two stand at one place.
pub proof fn law_pixels_stand_row_by_row(width: int, x: int, y: int, x2: int, y2: int)
    requires
        0 <= x < width,
        0 <= x2 < width,
        0 <= y,
        0 <= y2,
    ensures
        pixel_place(width, 0, 0) == 0,
        pixel_place(width, x + 1, y) == pixel_place(width, x, y) + 1,
        pixel_place(width, x, y + 1) == pixel_place(width, x, y) + width,
        pixel_place(width, x, y) == pixel_place(width, x2, y2) ==> x == x2 && y == y2,
{
    assert((y + 1) * width == y * width + width) by (nonlinear_arith);
    assert(0 * width == 0) by (nonlinear_arith);
    if y * width + x == y2 * width + x2 {
        assert(y == y2) by (nonlinear_arith)
            requires
                y * width + x == y2 * width + x2,
                0 <= x < width,
                0 <= x2 < width,
        ;
    }
}

/// The parts of a color are kept, each in its place.
pub proof fn law_parts_of_a_color(red: u8, green: u8, blue: u8)
    ensures
        mixed(red, green, blue).r == red,
        mixed(red, green, blue).g == green,
        mixed(red, green, blue).b == blue,
{
}

} // verus!
