//! The menu.

use terminal_gameboy::color::ColorSetting;
use terminal_gameboy::config::Config;
use terminal_gameboy::cp437::Cp437Writer;
use terminal_gameboy::framebuffer::DmgPalette;
use terminal_gameboy::keys::{Key, MenuEvent};
use terminal_gameboy::menu::{
    choose_roms_dir, collect_roms, scan_dirs, visible_for, Found, MenuSection, Rom, RomFilter,
    ScreenSize, SoundMode,
};
use terminal_gameboy::menu_draw::{
    draw_leave, draw_menu, draw_startup, draw_zone_header, truncate_str, Theme,
};
use terminal_gameboy::menu_loop::{MenuLoop, Next};
use terminal_gameboy::menu_state::{saved_color, saved_palette, with_last_game, MenuState};
use terminal_gameboy::renderer::RenderMode;

fn contains(hay: &[u8], needle: &[u8]) -> bool {
    hay.windows(needle.len()).any(|w| w == needle)
}

fn roms(names: &[&str]) -> Vec<Rom> {
    let found: Vec<Found> = names
        .iter()
        .map(|n| Found { path: n.to_string(), canonical: n.to_string() })
        .collect();
    collect_roms(&found)
}

fn state(names: &[&str]) -> MenuState {
    MenuState::new(&Config::default(), roms(names), ColorSetting::Auto, DmgPalette::Gray)
}

#[test]
fn filter_matches_by_extension() {
    assert!(RomFilter::All.matches("gb") && RomFilter::All.matches("gbc"));
    assert!(RomFilter::GameBoy.matches("gb") && !RomFilter::GameBoy.matches("gbc"));
    assert!(RomFilter::GameBoyColor.matches("gbc") && !RomFilter::GameBoyColor.matches("gb"));
}

#[test]
fn filter_code_roundtrips() {
    for f in [RomFilter::All, RomFilter::GameBoy, RomFilter::GameBoyColor] {
        assert!(RomFilter::from_code(f.code()) == f);
    }
}

#[test]
fn other_codes_roundtrip_and_steps_undo_each_other() {
    for s in [SoundMode::Off, SoundMode::Ansi, SoundMode::Apc] {
        assert_eq!(SoundMode::from_code(s.code()), s);
        assert_eq!(s.next().prev(), s);
    }
    for z in [ScreenSize::Auto, ScreenSize::Best] {
        assert_eq!(ScreenSize::from_code(z.code()), z);
        assert_eq!(z.next().prev(), z);
    }
    for f in [RomFilter::All, RomFilter::GameBoy, RomFilter::GameBoyColor] {
        assert_eq!(f.next().prev(), f);
    }
}

#[test]
fn menu_paints_the_gameboy_lcd_palette() {
    // Render the menu to a buffer (no terminal needed) and check the Game Boy
    // colors actually go out: the LCD background fill and the dark ink.
    let state = state(&[]);
    let buf = Cp437Writer::new().write(draw_menu(&Theme::new(), &state).as_bytes());
    assert!(contains(&buf, b"\x1b[48;2;202;220;159m"), "LCD background not emitted");
    assert!(contains(&buf, b"\x1b[38;2;48;98;48m"), "ink text not emitted");
    // The block wordmark renders as CP437 full-block bytes (0xDB).
    assert!(buf.contains(&0xDB), "block wordmark not emitted");
    // No blue/yellow scheme.
    assert!(!contains(&buf, b"\x1b[38;2;255;210;70m"), "stale yellow accent still present");
}

#[test]
fn page_keeps_cursor_at_same_viewport_row() {
    // A controlled 100-item list in a 10-row viewport.
    let names: Vec<String> = (0..100).map(|i| format!("game{:03}.gb", i)).collect();
    let names: Vec<&str> = names.iter().map(|n| n.as_str()).collect();
    let mut state = state(&names);
    assert_eq!(state.filtered, (0..100).collect::<Vec<usize>>());
    state.visible_rows = 10;
    state.scroll_offset = 40;
    state.selected_rom_index = 45; // relative row 5 within the viewport

    state.page(false); // page down: scroll a page, keep the cursor on row 5
    assert_eq!((state.scroll_offset, state.selected_rom_index), (50, 55));
    state.page(true); // page up: back to exactly where we were
    assert_eq!((state.scroll_offset, state.selected_rom_index), (40, 45));

    // Already on the last page -> page down lands on the very last game.
    state.scroll_offset = 90; // max offset (100 items, 10 rows)
    state.selected_rom_index = 93;
    state.page(false);
    assert_eq!(state.selected_rom_index, 99);

    // Already on the first page -> page up lands on the first game.
    state.scroll_offset = 0;
    state.selected_rom_index = 4;
    state.page(true);
    assert_eq!(state.selected_rom_index, 0);
}

#[test]
fn zone_header_blinks_only_when_focused() {
    let render = |active: bool| -> Vec<u8> {
        let text = draw_zone_header(&Theme::new(), 0, 0, "Settings", active);
        Cp437Writer::new().write(text.as_bytes())
    };
    let blink = b"\x1b[5m"; // SGR SlowBlink wraps the ══ of the focused zone
    assert!(contains(&render(true), blink), "focused header should blink its ══");
    assert!(!contains(&render(false), blink), "unfocused header must not blink");
    assert!(contains(&render(false), b"Settings"), "label still rendered");
    assert!(contains(&render(true), b"\x1b[25m") && render(true).starts_with(b"\x1b[1;1H"));
}

#[test]
fn startup_and_leave_clear_the_screen() {
    let t = Theme::new();
    assert!(draw_startup(&t).starts_with("\x1b[48;2;202;220;159m\x1b[2J"));
    assert_eq!(draw_leave(), "\x1b[0m\x1b[2J");
}

#[test]
fn long_titles_are_ellipsized() {
    assert_eq!(truncate_str("Tetris", 6), "Tetris");
    assert_eq!(truncate_str("Tetris", 5), "Tetr…");
    assert_eq!(truncate_str("Tetris", 0), "…");
}

#[test]
fn game_list_is_a_sorted_set() {
    let found = vec![
        Found { path: "b/Zelda.gb".to_string(), canonical: "/r/Zelda.gb".to_string() },
        Found { path: "a/amida.GBC".to_string(), canonical: "/r/amida.GBC".to_string() },
        Found { path: "link.gb".to_string(), canonical: "/r/Zelda.gb".to_string() },
        Found { path: "notes.txt".to_string(), canonical: "/r/notes.txt".to_string() },
    ];
    let list: Vec<String> = collect_roms(&found).iter().map(|r| r.path.clone()).collect();
    assert_eq!(list, ["/r/amida.GBC", "/r/Zelda.gb"]);
    assert_eq!(scan_dirs("/bbs"), ["/bbs", "/bbs/roms", "/bbs/games"]);
}

#[test]
fn rom_directory_precedence() {
    assert_eq!(choose_roms_dir(Some("/x"), true, Some("/s"), "/w"), "/x");
    assert_eq!(choose_roms_dir(Some("/x"), false, Some("/s"), "/w"), "/s");
    assert_eq!(choose_roms_dir(None, false, None, "/w"), "/w");
}

#[test]
fn filter_hides_the_other_games() {
    let mut m = state(&["a.gb", "b.gbc", "c.gb"]);
    m.filter = RomFilter::GameBoyColor;
    m.rebuild_filter();
    assert_eq!(m.filtered, [1]);
    // The window's height plays no part.
    m.visible_rows = 0;
    m.rebuild_filter();
    assert_eq!(m.filtered, [1]);
    m.visible_rows = 10;
    assert_eq!(m.selected_rom(), Some(1));
    m.rescanned(roms(&["x.gbc", "y.gbc"]));
    assert_eq!(m.filtered, [0, 1]);
}

#[test]
fn menu_reopens_as_it_was_left() {
    let saved = Config {
        color: Some("16".to_string()),
        dmg_palette: Some("green".to_string()),
        last_game: Some("b.gb".to_string()),
        ..Config::default()
    };
    assert_eq!(saved_color(&saved, ColorSetting::Auto), ColorSetting::C16);
    assert_eq!(saved_palette(&saved, DmgPalette::Gray), DmgPalette::Green);
    assert_eq!(saved_color(&Config::default(), ColorSetting::C256), ColorSetting::C256);
    let mut m = MenuState::new(&saved, roms(&["a.gb", "b.gb"]), ColorSetting::C16, DmgPalette::Green);
    assert_eq!(m.selected_rom(), Some(1));
    m.sound = SoundMode::Apc;
    m.render_mode = RenderMode::Ascii;
    let prefs = with_last_game(m.prefs(saved), "a.gb");
    let again = MenuState::new(&prefs, roms(&["a.gb", "b.gb"]), ColorSetting::C16, DmgPalette::Green);
    assert_eq!((again.sound, again.render_mode), (SoundMode::Apc, RenderMode::Ascii));
    assert_eq!(again.selected_rom(), Some(0));
}

#[test]
fn typeahead_finds_the_first_match_beyond_ascii() {
    let mut m = state(&["Alleyway.gb", "ÖKO.gb", "Tetris.gb", "Tetris 2.gb"]);
    let names: Vec<String> = m.rom_files.iter().map(|r| r.path.clone()).collect();
    let find = |m: &mut MenuState, typed: &str| {
        m.typeahead = typed.chars().collect();
        m.typeahead_jump();
        names[m.selected_rom().unwrap()].clone()
    };
    assert_eq!(find(&mut m, "TET"), "Tetris 2.gb");
    assert_eq!(find(&mut m, "Ök"), "ÖKO.gb");
    assert_eq!(find(&mut m, "nothing"), "ÖKO.gb");
    m.select_by_filename("Tetris.gb");
    assert_eq!(names[m.selected_rom().unwrap()], "Tetris.gb");
}

#[test]
fn keys_browse_change_and_launch() {
    let mut l = MenuLoop::new(state(&["a.gb", "b.gb", "c.gb"]), None);
    assert_eq!((l.term_rows, l.term_cols), (24, 80));
    // Tab goes to the settings or back to the list.
    let home = l.state.current_section;
    l.on_event(MenuEvent::Key(Key::Tab), 0);
    assert_ne!(l.state.current_section, home);
    l.on_event(MenuEvent::Key(Key::Tab), 0);
    assert_eq!(l.state.current_section, home);

    l.state.current_section = MenuSection::GameList;
    l.on_event(MenuEvent::Key(Key::Down), 0);
    assert_eq!(l.state.selected_rom_index, 1);
    l.on_event(MenuEvent::Key(Key::Up), 0);
    let enter = l.on_event(MenuEvent::Key(Key::Enter), 0);
    assert_eq!(enter.next, Next::Launch(0));
    assert_eq!(l.launch(0).rom_path, "a.gb");
    assert_eq!(l.on_event(MenuEvent::Key(Key::Esc), 0).next, Next::Quit);
}

#[test]
fn typing_searches_and_expires() {
    let mut l = MenuLoop::new(state(&["ab.gb", "ba.gb", "bb.gb"]), None);
    l.state.current_section = MenuSection::GameList;
    l.on_event(MenuEvent::Key(Key::Char('b')), 0);
    assert_eq!(l.state.selected_rom_index, 1);
    l.on_event(MenuEvent::Key(Key::Char('b')), 1_000_000);
    assert_eq!(l.state.selected_rom_index, 2);
    // After a pause a new search begins.
    l.on_event(MenuEvent::Key(Key::Char('a')), 60_000_000_000);
    assert_eq!(l.state.selected_rom_index, 0);
    assert_eq!(l.state.typeahead, ['a']);
}

#[test]
fn settings_are_persisted_and_letters_rescan_there() {
    let mut l = MenuLoop::new(state(&["a.gb"]), None);
    l.on_event(MenuEvent::Key(Key::Tab), 0);
    if l.state.current_section == MenuSection::GameList {
        l.on_event(MenuEvent::Key(Key::Tab), 0);
    }
    let r = l.on_event(MenuEvent::Key(Key::Right), 0);
    assert!(r.persist);
    assert_eq!(l.on_event(MenuEvent::Key(Key::Char('r')), 0).next, Next::Rescan);
}

#[test]
fn screen_follows_the_setting_once() {
    let mut l = MenuLoop::new(state(&["a.gb"]), None);
    l.on_event(MenuEvent::Resize(25, 80), 0);
    l.state.screen = ScreenSize::Best;
    assert_eq!(l.apply_screen().resize_request(), "\x1b[8;74;162t");
    assert_eq!(l.screen_orig, Some((25, 80)));
    assert_eq!(l.apply_screen().resize_request(), "");
    assert_eq!(l.screen_orig, Some((25, 80)));
    l.state.screen = ScreenSize::Auto;
    assert_eq!(l.apply_screen().resize_request(), "\x1b[8;25;80t");
    assert_eq!(l.screen_orig, None);
    assert_eq!(l.apply_screen().resize_request(), "");
    assert_eq!(l.screen_orig, None);
}

#[test]
fn best_screen_is_undone() {
    let mut l = MenuLoop::new(state(&["a.gb"]), None);
    l.on_event(MenuEvent::Resize(25, 80), 0);
    l.state.current_section = MenuSection::Screen;
    let on = l.on_event(MenuEvent::Key(Key::Right), 0);
    assert_eq!(l.state.screen, ScreenSize::Best);
    assert!(on.resize.is_some());
    assert_eq!(l.screen_orig, Some((25, 80)));
    let off = l.on_event(MenuEvent::Key(Key::Left), 0);
    assert_eq!(off.resize, Some((25, 80)));
    assert_eq!(l.screen_orig, None);
}

#[test]
fn taller_terminals_show_more_games() {
    assert!(visible_for(60) > visible_for(24));
    let mut l = MenuLoop::new(state(&["a.gb"]), None);
    l.on_event(MenuEvent::Resize(60, 132), 0);
    assert_eq!(l.state.visible_rows, visible_for(60));
    assert_eq!(l.on_event(MenuEvent::Idle, 0).next, Next::Probe);
}
