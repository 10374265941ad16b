//! Color depths and palettes.

use terminal_gameboy::color::{
    cell_sgr, fg_sgr, nearest16, pack_cell16, sgr16, xterm256, ColorDepth, ColorSetting, ANSI16,
    FULL_BLOCK, LOWER_HALF, SPACE, UPPER_HALF,
};
use terminal_gameboy::framebuffer::{DmgPalette, FrameBuffer, Rgb, Shade};

#[test]
fn setting_parse_roundtrip() {
    for s in [
        ColorSetting::Auto,
        ColorSetting::True,
        ColorSetting::C256,
        ColorSetting::C16,
    ] {
        assert_eq!(ColorSetting::parse(s.slug()), Some(s));
    }
    assert_eq!(ColorSetting::parse("RGB"), Some(ColorSetting::True));
    assert_eq!(ColorSetting::parse("classic"), Some(ColorSetting::C16));
    assert_eq!(ColorSetting::parse("nope"), None);
}

#[test]
fn auto_resolves_conservatively() {
    // Silent terminal stays truecolor; explicit 256 downgrades; explicit
    // pins are honored verbatim.
    assert_eq!(ColorSetting::Auto.resolve(None), ColorDepth::True);
    assert_eq!(ColorSetting::Auto.resolve(Some(ColorDepth::C256)), ColorDepth::C256);
    assert_eq!(ColorSetting::Auto.resolve(Some(ColorDepth::True)), ColorDepth::True);
    assert_eq!(ColorSetting::C16.resolve(Some(ColorDepth::True)), ColorDepth::C16);
}

#[test]
fn xterm256_known_points() {
    assert_eq!(xterm256(0, 0, 0), 16); // cube black
    assert_eq!(xterm256(255, 255, 255), 231); // cube white
    // Pure bright green lands in the cube's green corner.
    assert_eq!(xterm256(0, 255, 0), 46);
}

#[test]
fn nearest16_primaries_map_to_ansi_indexes() {
    // The index IS the SGR number, so this also proves ANSI (not CGA) order:
    // red must be 1 (CGA would give 4) and blue 4 (CGA would give 1). At (0,0)
    // the dither bias is negative, so full primaries land on the dark variants.
    assert_eq!(nearest16(0, 255, 0, 0, 0), 2); // green
    assert_eq!(nearest16(255, 0, 0, 0, 0), 1); // red — ANSI 1, not CGA 4
    assert_eq!(nearest16(0, 0, 255, 0, 0), 4); // blue — ANSI 4, not CGA 1
    assert_eq!(nearest16(0, 0, 0, 0, 0), 0);
    // White at a positive-dither cell resolves to bright white (15).
    assert_eq!(nearest16(255, 255, 255, 1, 0), 15);
}

#[test]
fn dmg_grays_map_cleanly_without_dither_noise() {
    // The four DMG shades must land on solid ANSI grays at EVERY screen
    // position (no dither speckle), so B&W games look clean in 16-color.
    let grays = [
        ((0u8, 0u8, 0u8), 0u8),
        ((85, 85, 85), 8),
        ((170, 170, 170), 7),
        ((255, 255, 255), 15),
    ];
    for ((r, g, b), want) in grays {
        for y in 0..4 {
            for x in 0..4 {
                assert_eq!(
                    nearest16(r, g, b, x, y),
                    want,
                    "gray {:?} speckled at ({},{})",
                    (r, g, b),
                    x,
                    y
                );
            }
        }
    }
}

#[test]
fn pack_cell16_solid_and_split() {
    // Solid dark: space on that bg. Solid bright: full block.
    assert_eq!(pack_cell16(0, 0), (7, 0, SPACE));
    assert_eq!(pack_cell16(15, 15), (15, 0, FULL_BLOCK));
    // Dark top over dark bottom: upper-half, fg=top bg=bottom.
    assert_eq!(pack_cell16(2, 4), (2, 4, UPPER_HALF));
    // Bright bottom over dark top: lower-half, fg carries the bright bottom.
    assert_eq!(pack_cell16(0, 10), (10, 0, LOWER_HALF));
}

#[test]
fn sgr16_bold_bit_for_bright() {
    assert_eq!(sgr16(2, 0), "0;32;40");
    assert_eq!(sgr16(10, 0), "1;32;40");
}

#[test]
fn cell_sgr_per_depth() {
    // The splash surround is magenta (VGA 5 = 170,0,170).
    assert_eq!(
        cell_sgr(ColorDepth::True, 170, 0, 170, 170, 0, 170),
        "38;2;170;0;170;48;2;170;0;170"
    );
    assert!(cell_sgr(ColorDepth::C256, 170, 0, 170, 170, 0, 170).starts_with("38;5;"));
    // 16-color: magenta -> ANSI 5, so fg 35 on bg 45 (both normal).
    assert_eq!(cell_sgr(ColorDepth::C16, 170, 0, 170, 170, 0, 170), "0;35;45");
}

#[test]
fn dmg_palettes_map_the_four_shades() {
    // Gray is the neutral default; Green is the canonical DMG LCD palette
    // (matches the menu/splash greens: 9bbc0f / 8bac0f / 306230 / 0f380f).
    assert_eq!(DmgPalette::default(), DmgPalette::Gray);
    assert_eq!(DmgPalette::Gray.rgb(Shade::White), Rgb { r: 255, g: 255, b: 255 });
    assert_eq!(DmgPalette::Gray.rgb(Shade::Black), Rgb { r: 0, g: 0, b: 0 });
    assert_eq!(DmgPalette::Green.rgb(Shade::White), Rgb { r: 155, g: 188, b: 15 });
    assert_eq!(DmgPalette::Green.rgb(Shade::LightGray), Rgb { r: 139, g: 172, b: 15 });
    assert_eq!(DmgPalette::Green.rgb(Shade::DarkGray), Rgb { r: 48, g: 98, b: 48 });
    assert_eq!(DmgPalette::Green.rgb(Shade::Black), Rgb { r: 15, g: 56, b: 15 });
    assert_eq!(DmgPalette::parse("green"), Some(DmgPalette::Green));
    assert_eq!(DmgPalette::parse("GRAY"), Some(DmgPalette::Gray));
}

#[test]
fn green_falls_back_to_gray_only_in_16_color() {
    // Green renders in truecolor/256, but 16-color forces gray (clean ANSI
    // grays beat muddy quantized greens). Gray is unaffected everywhere.
    assert_eq!(DmgPalette::Green.resolved_for(ColorDepth::True), DmgPalette::Green);
    assert_eq!(DmgPalette::Green.resolved_for(ColorDepth::C256), DmgPalette::Green);
    assert_eq!(DmgPalette::Green.resolved_for(ColorDepth::C16), DmgPalette::Gray);
    assert_eq!(DmgPalette::Gray.resolved_for(ColorDepth::C16), DmgPalette::Gray);
}

#[test]
fn settings_and_palettes_cycle() {
    for s in [ColorSetting::Auto, ColorSetting::True, ColorSetting::C256, ColorSetting::C16] {
        assert_eq!(s.next().prev(), s);
        assert_eq!(s.next().next().next().next(), s);
        assert!(!s.label().is_empty());
    }
    for p in [DmgPalette::Gray, DmgPalette::Green] {
        assert_eq!(p.next().next(), p);
        assert_eq!(DmgPalette::parse(p.slug()), Some(p));
        assert!(!p.label().is_empty());
    }
    assert_eq!(DmgPalette::parse("plaid"), None);
}

#[test]
fn setting_names_are_trimmed_and_lowered_beyond_ascii() {
    // The Kelvin sign lowers to an ASCII letter, so it is no word here.
    assert_eq!(ColorSetting::parse("  TrueColor\t"), Some(ColorSetting::True));
    assert_eq!(ColorSetting::parse("\u{212a}"), None);
    assert_eq!(ColorSetting::parse("DETECT"), Some(ColorSetting::Auto));
    assert_eq!(ColorSetting::parse("XTERM"), Some(ColorSetting::C256));
}

#[test]
fn palette_colors_are_solid() {
    for (i, c) in ANSI16.iter().enumerate() {
        for k in 0..16usize {
            assert_eq!(nearest16(c[0], c[1], c[2], k % 4, k / 4) as usize, i);
        }
    }
}

#[test]
fn dither_is_fixed_to_the_screen() {
    for y in 0..4usize {
        for x in 0..4usize {
            let i = nearest16(200, 30, 90, x, y);
            assert_eq!(nearest16(200, 30, 90, x + 4, y + 8), i);
        }
    }
    // A mid tone speckles between neighbours.
    let mut seen: Vec<u8> = (0..16).map(|k| nearest16(42, 42, 42, k % 4, k / 4)).collect();
    seen.sort();
    seen.dedup();
    assert!(seen.len() > 1);
}

#[test]
fn palette_entries_are_in_sgr_order() {
    assert_eq!(ANSI16[1], [170, 0, 0]);
    assert_eq!(ANSI16[4], [0, 0, 170]);
    assert_eq!(ANSI16[15], [255, 255, 255]);
}

#[test]
fn cube_levels_are_the_nearest() {
    // The steps of the cube are 0, 95, 135, 175, 215 and 255.
    let steps = [0i32, 95, 135, 175, 215, 255];
    for v in 0..=255u8 {
        let nearest = steps.iter().map(|s| (s - v as i32).abs()).min().unwrap();
        let i = xterm256(v, 0, 255) as i32 - 16;
        assert_eq!((steps[(i / 36) as usize] - v as i32).abs(), nearest);
    }
}

#[test]
fn packed_cells_show_both_halves() {
    // The half that cannot be bright (the background) is always below 8.
    for t in 0..16u8 {
        for b in 0..16u8 {
            let (fg, bg, ch) = pack_cell16(t, b);
            assert!(fg < 16 && bg < 8);
            assert!([SPACE, FULL_BLOCK, UPPER_HALF, LOWER_HALF].contains(&ch));
        }
    }
    assert_eq!(pack_cell16(9, 9), (9, 0, FULL_BLOCK));
    assert_eq!(pack_cell16(9, 3), (9, 3, UPPER_HALF));
}

#[test]
fn foreground_codes_per_depth() {
    assert_eq!(fg_sgr(ColorDepth::True, 1, 2, 3), "38;2;1;2;3");
    assert_eq!(fg_sgr(ColorDepth::C256, 0, 255, 0), "38;5;46");
    assert_eq!(fg_sgr(ColorDepth::C16, 170, 0, 0), "31");
}

#[test]
fn framebuffer_holds_pixels_and_maps_shades() {
    let mut fb = FrameBuffer::new(160, 144);
    assert_eq!(fb.get_pixel(0, 0), Rgb { r: 0, g: 0, b: 0 });
    fb.set_pixel(161, Rgb { r: 1, g: 2, b: 3 });
    assert_eq!(fb.get_pixel(1, 1), Rgb { r: 1, g: 2, b: 3 });
    fb.set_dmg_palette(DmgPalette::Green);
    fb.map_pixel(2, Shade::White);
    assert_eq!(fb.get_pixel(2, 0), Rgb { r: 155, g: 188, b: 15 });
    fb.cgb_map_pixel(3, 10, 20, 30);
    assert_eq!(fb.get_pixel(3, 0), Rgb { r: 10, g: 20, b: 30 });
    assert_eq!(Rgb { r: 255, g: 255, b: 255 }.to_grey(), 255);
}
