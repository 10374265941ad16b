//! Frames, the splash, the status line and the code page.

use terminal_gameboy::color::{ColorDepth, ColorSetting};
use terminal_gameboy::cp437::Cp437Writer;
use terminal_gameboy::framebuffer::{FrameBuffer, Rgb, GB_HEIGHT, GB_WIDTH};
use terminal_gameboy::keys::Input;
use terminal_gameboy::renderer::{
    RenderConfig, RenderMode, Renderer, HALF_BLOCK, NATIVE_COLS, NATIVE_ROWS,
};
use terminal_gameboy::splash::{
    graphic_col, graphic_row, is_splash, render_splash, settle, Splash, BODY, PROBE_NS, SHOW_NS,
};
use terminal_gameboy::status::{draw_status_bar, friendly_rom_name, truncate_chars};

fn count(hay: &[u8], needle: u8) -> usize {
    hay.iter().filter(|&&b| b == needle).count()
}

fn contains(hay: &[u8], needle: &[u8]) -> bool {
    hay.windows(needle.len()).any(|w| w == needle)
}

fn conv(s: &str) -> Vec<u8> {
    Cp437Writer::new().write(s.as_bytes())
}

#[test]
fn block_delta_skips_unchanged_and_repaints_only_changed() {
    let mut r = Renderer::new(RenderConfig { mode: RenderMode::Block });
    r.update_dimensions(20, 11); // -> 20x9 output grid
    let cells = r.out_cols() as usize * r.out_rows() as usize;
    assert_eq!(cells, 180);

    let fb = FrameBuffer::new(GB_WIDTH, GB_HEIGHT);

    // Frame 1: first frame clears and paints every cell.
    let b1 = r.render(&fb);
    assert!(contains(&b1, b"\x1b[2J"), "first frame must clear");
    assert_eq!(count(&b1, HALF_BLOCK), cells, "first frame paints every cell");

    // Frame 2: identical frame -> nothing changed -> only the trailing reset.
    let b2 = r.render(&fb);
    assert_eq!(b2, b"\x1b[0m", "unchanged frame emits no cells");

    // Frame 3: change exactly one source pixel mapping to a single cell (0,0).
    let mut fb2 = FrameBuffer::new(GB_WIDTH, GB_HEIGHT);
    fb2.pixels[0] = Rgb { r: 255, g: 255, b: 255 };
    let b3 = r.render(&fb2);
    assert!(!contains(&b3, b"\x1b[2J"), "no clear on a steady frame");
    assert_eq!(count(&b3, HALF_BLOCK), 1, "exactly one changed cell repainted");
    assert!(contains(&b3, b"\x1b[1;1H"), "cursor homed to the changed cell");
    assert!(b3.len() < b1.len(), "delta frame smaller than a full repaint");
}

#[test]
fn resize_forces_full_repaint() {
    let mut r = Renderer::new(RenderConfig { mode: RenderMode::Block });
    r.update_dimensions(20, 11);
    let fb = FrameBuffer::new(GB_WIDTH, GB_HEIGHT);
    let _ = r.render(&fb); // first frame
    let sink = r.render(&fb); // steady -> empty
    assert_eq!(sink, b"\x1b[0m");

    // A resize re-requests a clear; the next frame must repaint everything.
    r.update_dimensions(20, 11);
    let cells = r.out_cols() as usize * r.out_rows() as usize;
    let b = r.render(&fb);
    assert!(contains(&b, b"\x1b[2J"));
    assert_eq!(count(&b, HALF_BLOCK), cells);
}

#[test]
fn ascii_delta_steady_frame_is_minimal() {
    let mut r = Renderer::new(RenderConfig { mode: RenderMode::Ascii });
    r.update_dimensions(20, 11);
    let fb = FrameBuffer::new(GB_WIDTH, GB_HEIGHT);
    let b1 = r.render(&fb);
    assert!(contains(&b1, b"\x1b[2J"));
    // Steady frame: black-bg assert + reset, but no cursor moves or glyphs.
    let b2 = r.render(&fb);
    assert_eq!(b2, b"\x1b[48;5;16m\x1b[0m", "unchanged ASCII frame draws no cells");
}

#[test]
fn keyframe_repaints_without_a_clear() {
    let mut r = Renderer::new(RenderConfig { mode: RenderMode::Block });
    r.update_dimensions(20, 11);
    let fb = FrameBuffer::new(GB_WIDTH, GB_HEIGHT);
    let _ = r.render(&fb);
    r.request_repaint();
    let b = r.render(&fb);
    assert!(!contains(&b, b"\x1b[2J"));
    assert_eq!(count(&b, HALF_BLOCK), 180);
    r.request_clear();
    assert!(contains(&r.render(&fb), b"\x1b[2J"));
}

#[test]
fn image_scales_like_the_floating_formula() {
    let check = |cols: u16, rows: u16| {
        let mut r = Renderer::new(RenderConfig { mode: RenderMode::Block });
        r.update_dimensions(cols, rows);
        let usable = rows.saturating_sub(1).max(1);
        let f = (cols as f64 / NATIVE_COLS as f64).min(usable as f64 / NATIVE_ROWS as f64);
        let out_cols = ((NATIVE_COLS as f64 * f).round() as u16).max(1);
        let out_rows = ((NATIVE_ROWS as f64 * f).round() as u16).max(1);
        assert_eq!((r.out_cols(), r.out_rows()), (out_cols, out_rows), "{} x {}", cols, rows);
        assert_eq!(r.fps_row(), usable.saturating_sub(out_rows) / 2 + out_rows);
        assert!(r.out_cols() <= cols && r.out_rows() <= usable);
    };
    for cols in 1..=200u16 {
        for rows in 1..=90u16 {
            check(cols, rows);
        }
    }
    for n in [300u16, 1000, 4097, 20000, 32768, 65535] {
        check(n, 25);
        check(80, n);
        check(n, n / 2);
    }
}

#[test]
fn degenerate_sizes_change_nothing() {
    let mut r = Renderer::new(RenderConfig { mode: RenderMode::Block });
    assert_eq!((r.out_cols(), r.out_rows()), (NATIVE_COLS, NATIVE_ROWS));
    r.update_dimensions(0, 24);
    r.update_dimensions(80, 0);
    assert_eq!((r.out_cols(), r.out_rows()), (NATIVE_COLS, NATIVE_ROWS));
}

/// Replays frames the way a terminal would, as far as a frame uses one.
struct Screen {
    at: (usize, usize),
    fg: u8,
    bg: u8,
    cells: std::collections::BTreeMap<(usize, usize), (u8, u8, u8)>,
}

impl Screen {
    fn new() -> Self {
        Screen { at: (0, 0), fg: 0, bg: 0, cells: Default::default() }
    }

    fn play(&mut self, bytes: &[u8]) {
        let mut i = 0;
        while i < bytes.len() {
            if bytes[i] != 0x1b {
                self.cells.insert(self.at, (bytes[i], self.fg, self.bg));
                self.at.1 += 1;
                i += 1;
                continue;
            }
            let end = (i + 2..bytes.len()).find(|&k| bytes[k].is_ascii_alphabetic()).unwrap();
            let params: Vec<usize> = std::str::from_utf8(&bytes[i + 2..end])
                .unwrap()
                .split(';')
                .map(|p| p.parse().unwrap_or(0))
                .collect();
            match (bytes[end] as char, params.as_slice()) {
                ('J', [2]) => self.cells.clear(),
                ('H', [r, c]) => self.at = (r - 1, c - 1),
                ('m', [38, 5, n]) => self.fg = *n as u8,
                ('m', [48, 5, n]) => self.bg = *n as u8,
                ('m', [0]) => (self.fg, self.bg) = (0, 0),
                other => panic!("unexpected {:?}", other),
            }
            i = end + 1;
        }
    }
}

#[test]
fn deltas_add_up_to_the_whole_frame() {
    for mode in [RenderMode::Block, RenderMode::Ascii] {
        let mut live = Renderer::new(RenderConfig { mode });
        live.update_dimensions(40, 25);
        let mut screen = Screen::new();
        let mut fb = FrameBuffer::new(GB_WIDTH, GB_HEIGHT);
        let mut seed = 12345u32;
        for _ in 0..6 {
            for _ in 0..400 {
                seed = seed.wrapping_mul(1664525).wrapping_add(1013904223);
                let at = (seed >> 8) as usize % (GB_WIDTH * GB_HEIGHT);
                fb.set_pixel(at, Rgb { r: seed as u8, g: (seed >> 3) as u8, b: (seed >> 5) as u8 });
            }
            screen.play(&live.render(&fb));
            let mut fresh = Renderer::new(RenderConfig { mode });
            fresh.update_dimensions(40, 25);
            let mut whole = Screen::new();
            whole.play(&fresh.render(&fb));
            assert_eq!(screen.cells, whole.cells);
            assert_eq!(
                screen.cells.len(),
                live.out_cols() as usize * live.out_rows() as usize
            );
        }
    }
}

#[test]
fn no_stale_cell_is_left_by_a_session() {
    for mode in [RenderMode::Block, RenderMode::Ascii] {
        let mut live = Renderer::new(RenderConfig { mode });
        let mut screen = Screen::new();
        // What an earlier program left.
        screen.cells.insert((3, 3), (b'?', 1, 2));
        screen.cells.insert((200, 200), (b'?', 1, 2));
        let mut fb = FrameBuffer::new(GB_WIDTH, GB_HEIGHT);
        let mut size = (NATIVE_COLS, 1 + NATIVE_ROWS);
        for round in 0..12usize {
            match round % 4 {
                1 => {
                    size = [(40, 25), (132, 50), (20, 40)][round / 4];
                    live.update_dimensions(size.0, size.1);
                    live.request_repaint();
                }
                2 => {
                    // Something else drew anywhere.
                    screen.cells.insert((0, round), (b'#', 1, 2));
                    screen.cells.insert((150, round), (b'#', 1, 2));
                    live.request_clear();
                    live.update_dimensions(0, 25);
                }
                3 => {
                    // Noise on the line spoiled the image.
                    let spoiled: Vec<_> = screen.cells.keys().copied().collect();
                    screen.cells.insert(spoiled[round], (b'~', 1, 2));
                    screen.cells.remove(&spoiled[spoiled.len() / 2]);
                    live.request_repaint();
                }
                _ => {}
            }
            fb.set_pixel(round * 997, Rgb { r: 255, g: 90, b: (round * 20) as u8 });
            screen.play(&live.render(&fb));
            let mut fresh = Renderer::new(RenderConfig { mode });
            fresh.update_dimensions(size.0, size.1);
            let mut whole = Screen::new();
            whole.play(&fresh.render(&fb));
            assert_eq!(screen.cells, whole.cells, "round {round}");
        }
    }
}

#[test]
fn ascii_passes_through() {
    assert_eq!(conv("Game Boy 123!"), b"Game Boy 123!");
}

#[test]
fn ansi_escape_sequences_pass_through() {
    // A typical crossterm truecolor SGR + cursor move must survive verbatim.
    let s = "\x1b[38;2;130;180;255m\x1b[5;10HX\x1b[0m";
    assert_eq!(conv(s), s.as_bytes());
}

#[test]
fn glyphs_map_to_cp437() {
    assert_eq!(conv("╔═╗"), vec![0xC9, 0xCD, 0xBB]);
    assert_eq!(conv("║"), vec![0xBA]);
    assert_eq!(conv("╚═╝"), vec![0xC8, 0xCD, 0xBC]);
    assert_eq!(conv("█▀▄"), vec![0xDB, 0xDF, 0xDC]);
    assert_eq!(conv("◄►▲▼"), vec![0x11, 0x10, 0x1E, 0x1F]);
    assert_eq!(conv("↑↓"), vec![0x18, 0x19]);
    assert_eq!(conv("▶"), vec![0x10]);
    assert_eq!(conv("✓"), vec![0xFB]);
    assert_eq!(conv("…"), vec![b'.']);
}

#[test]
fn no_utf8_multibyte_leaks_for_logo_line() {
    let line = "  ████████╗███████╗██████╗ ███╗   ███╗██╗";
    let out = conv(line);
    // Every byte is either ASCII or one of the single CP437 bytes this logo
    // line uses (block 0xDB + double-line box drawing). Crucially, no 3-byte
    // UTF-8 sequence survived -- the output is shorter than the UTF-8 input.
    assert!(
        out.iter()
            .all(|&b| b < 0x80 || matches!(b, 0xDB | 0xC9 | 0xCD | 0xBB | 0xBA | 0xC8 | 0xBC)),
        "unexpected byte in {:?}",
        out
    );
    assert!(out.len() < line.len(), "UTF-8 glyphs were not collapsed to single bytes");
}

#[test]
fn multibyte_split_across_writes() {
    // Feed the 3 bytes of ╗ (0xE2 0x95 0x97) one at a time.
    let bytes = "╗".as_bytes().to_vec();
    let mut w = Cp437Writer::new();
    let mut inner = Vec::new();
    for b in &bytes {
        inner.extend(w.write(&[*b]));
    }
    assert_eq!(inner, vec![0xBB]);
}

#[test]
fn any_split_of_a_text_converts_alike() {
    let text = "═ Games ═ ▶ …é漢!".as_bytes();
    let whole = Cp437Writer::new().write(text);
    assert_eq!(whole.len(), "═ Games ═ ▶ …é漢!".chars().count());
    for cut in 0..=text.len() {
        let mut w = Cp437Writer::new();
        let mut out = w.write(&text[..cut]);
        out.extend(w.write(&text[cut..]));
        assert_eq!(out, whole);
    }
}

#[test]
fn vertical_placement_centers_or_bottom_aligns() {
    // Tall screen: centered (48 rows -> 8 above, 8 below the 32-row graphic).
    assert_eq!(graphic_row(0, 48), None);
    assert_eq!(graphic_row(7, 48), None);
    assert_eq!(graphic_row(8, 48), Some(0));
    assert_eq!(graphic_row(39, 48), Some(31));
    assert_eq!(graphic_row(40, 48), None);
    // Exact fit.
    assert_eq!(graphic_row(0, 32), Some(0));
    assert_eq!(graphic_row(31, 32), Some(31));
    // Short screen (24 rows): top 8 rows dropped, bottom 24 shown.
    assert_eq!(graphic_row(0, 24), Some(8));
    assert_eq!(graphic_row(23, 24), Some(31));
}

#[test]
fn horizontal_placement_centers_or_clips() {
    // Wide screen: centered (100 cols -> 10 pad each side of the 80-wide art).
    assert_eq!(graphic_col(9, 100), None);
    assert_eq!(graphic_col(10, 100), Some(0));
    assert_eq!(graphic_col(89, 100), Some(79));
    assert_eq!(graphic_col(90, 100), None);
    // Exact width.
    assert_eq!(graphic_col(0, 80), Some(0));
    assert_eq!(graphic_col(79, 80), Some(79));
}

#[test]
fn narrow_screens_show_the_middle_columns() {
    assert_eq!(graphic_col(0, 40), Some(20));
    assert_eq!(graphic_col(39, 40), Some(59));
}

#[test]
fn splash_paints_art_and_magenta() {
    let mut data = vec![0u8; BODY];
    assert!(is_splash(&data) && !is_splash(&data[1..]));
    data[0] = b'A';
    data[1] = 0x1F; // bright white on blue
    let out = render_splash(&data, ColorDepth::True, 82, 32);
    let start = b"\x1b[1;1H\x1b[38;2;170;0;170;48;2;170;0;170m \x1b[38;2;255;255;255;48;2;0;0;170mA\x1b[38;2;0;0;0;48;2;0;0;0m  ";
    assert_eq!(&out[..start.len()], start);
    assert!(out.ends_with(b"\x1b[0m"));
    // Repeated colors are sent once.
    let runs = out.iter().filter(|&&b| b == b'm').count();
    assert_eq!(runs, 2 + 1 + 31 * 2 + 1 + 1);
    assert_eq!(render_splash(&data, ColorDepth::True, 0, 32), b"");
    assert_eq!(render_splash(&data, ColorDepth::True, 80, 0), b"");
}

#[test]
fn splash_settles_repaints_and_is_dismissed() {
    let data = vec![0u8; BODY];
    let mut input = Input::new();
    let size = settle(&mut input, b"\x1b[30;90Rz\x1bP1$r0;38;5;16m\x1b\\\x1b[?62c", (80, 24));
    assert_eq!(size, (90, 30));
    assert_eq!(settle(&mut input, b"\x1b[0;90R", size), (90, 30));
    let mut s = Splash::new(size, ColorSetting::Auto, &input, 5);
    assert_eq!(s.depth, ColorDepth::C256);
    assert!(!s.expired(SHOW_NS + 4) && s.expired(SHOW_NS + 5));

    let quiet = s.step(&mut input, b"", &data, 6);
    assert!(!quiet.dismissed && quiet.paint.is_none() && quiet.probe.is_none());
    let step = s.step(&mut input, b"\x1b[40;100R", &data, 5 + PROBE_NS);
    assert_eq!(step.paint, Some(render_splash(&data, ColorDepth::C256, 100, 40)));
    assert_eq!(step.probe.as_deref(), Some("\x1b[9999;9999H\x1b[6n"));
    assert_eq!((s.cols, s.rows), (100, 40));
    assert!(s.step(&mut input, b"x", &data, 7 + PROBE_NS).dismissed);
}

#[test]
fn friendly_rom_name_strips_region_and_ext() {
    let f = |s: &str| friendly_rom_name(s);
    assert_eq!(
        f("Super Mario Land 2 - 6 Golden Coins (USA, Europe).gb"),
        "Super Mario Land 2 - 6 Golden Coins"
    );
    assert_eq!(f("Tetris (World) (Rev A).gb"), "Tetris");
    assert_eq!(f("/roms/1942 (USA, Europe).gbc"), "1942");
    assert_eq!(f("Kirby.gbc"), "Kirby"); // no region -> whole stem
}

#[test]
fn truncate_chars_appends_dots_when_cut() {
    assert_eq!(truncate_chars("Hello", 10), "Hello");
    assert_eq!(truncate_chars("HelloWorld", 7), "Hello..");
}

#[test]
fn truncation_keeps_its_bound() {
    assert_eq!(truncate_chars("Hello", 0), "");
    assert_eq!(truncate_chars("Hello", 1), ".");
    assert_eq!(truncate_chars("Hello", 2), "..");
    assert_eq!(truncate_chars("Hello", 3), "H..");
    assert_eq!(truncate_chars("", 0), "");
    assert_eq!(truncate_chars("x", 1), "x");
    assert_eq!(truncate_chars("Grüße", 5), "Grüße");
}

#[test]
fn status_line_shows_fps_and_centered_hints() {
    let bar = draw_status_bar(ColorDepth::C256, 23, 120, " 9", "<green>", None);
    let start = "\x1b[24;1H\x1b[40m\x1b[K<green>FPS  9\x1b[24;";
    assert!(bar.starts_with(start));
    assert!(bar.contains("ARROWS") && bar.contains("Quit") && bar.ends_with("\x1b[0m"));
    // Z is A and X is B.
    let mut shown = String::new();
    for part in bar.split('\x1b') {
        shown.push_str(part.split_once(|c| c == 'm' || c == 'H' || c == 'K').map_or("", |p| p.1));
    }
    assert!(shown.contains("Z/X - A/B | ENTER - Start"), "{shown}");
    // 74 columns of hints do not fit next to the FPS on a narrow line.
    let narrow = draw_status_bar(ColorDepth::C256, 23, 60, " 9", "", None);
    assert_eq!(narrow, "\x1b[24;1H\x1b[40m\x1b[KFPS  9\x1b[0m");
}

#[test]
fn attract_prompt_names_the_game() {
    let bar = draw_status_bar(ColorDepth::True, 9, 42, "20", "", Some("A Very Long Title Indeed"));
    assert!(bar.contains("\x1b[38;2;255;255;255mA Very..\x1b[38;2;170;170;170m - press any key to play"));
    assert!(bar.contains("\x1b[10;9H"));
}
