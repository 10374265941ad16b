//! Dropfiles, configuration, saves and the command line.

use terminal_gameboy::args;
use terminal_gameboy::color::ColorSetting;
use terminal_gameboy::config::{
    config_file_name, load, parse_door_ini, roms_dirs, save, Config, DoorIni,
};
use terminal_gameboy::door32::parse;
use terminal_gameboy::framebuffer::DmgPalette;
use terminal_gameboy::renderer::RenderMode;
use terminal_gameboy::save::{get_save_path, loads_save};
use terminal_gameboy::term::{
    open, read_outcome, write_outcome, Connection, Fault, ReadOutcome, WriteOutcome,
};

fn list(words: &[&str]) -> Vec<String> {
    words.iter().map(|w| w.to_string()).collect()
}

fn frame_rate(text: &Option<String>) -> Option<f64> {
    let rate = text.as_deref()?.parse::<f64>().ok().filter(|f| !f.is_nan())?;
    Some(rate.clamp(5.0, 60.0))
}

fn parse_fps(words: &[String]) -> Option<f64> {
    frame_rate(&args::fps_text(words))
}

#[test]
fn parses_a_telnet_dropfile() {
    // Typical DOOR32.SYS for a telnet door (CRLF line endings, like a BBS writes).
    let sample =
        "2\r\n328\r\n0\r\nEleBBS\r\n7\r\nShurato Real\r\nShurato\r\n100\r\n90\r\n1\r\n3\r\n";
    let d = parse(sample).unwrap();
    assert_eq!(d.comm_type, 2);
    assert_eq!(d.handle, 328);
    assert_eq!(d.socket(), Some(328));
    assert_eq!(d.user_number, 7);
    assert_eq!(d.alias, "Shurato");
    assert_eq!(d.node, 3);
    assert_eq!(d.user_key().as_deref(), Some("0007"));
}

#[test]
fn local_mode_has_no_socket() {
    let d = parse("0\n0\n0\nBBS\n1\nSysOp\nSysOp\n255\n1000\n1\n1\n").unwrap();
    assert_eq!(d.socket(), None);
}

#[test]
fn broken_dropfiles_are_refused_and_short_ones_filled_in() {
    assert!(parse("").is_none());
    assert!(parse("2\n").is_none());
    assert!(parse("x\n328\n").is_none());
    assert!(parse("2\n-1\n").is_none());
    assert!(parse("256\n1\n").is_none());
    let d = parse("1\n5").unwrap();
    assert_eq!((d.comm_type, d.handle, d.user_number, d.node), (1, 5, 0, 0));
    assert_eq!(d.user_key(), None);
    assert_eq!(d.bbs_id, "");
    assert_eq!(parse("2\n1\n\n\n123456\n").unwrap().user_key().as_deref(), Some("123456"));
}

#[test]
fn only_a_telnet_door_opens_its_socket() {
    assert_eq!(open(&None), Connection::Stdio);
    assert_eq!(open(&parse("2\n7\n")), Connection::Socket(7));
    assert_eq!(open(&parse("0\n7\n")), Connection::Stdio);
}

#[test]
fn system_calls_come_to_outcomes() {
    assert_eq!(read_outcome(3, Fault::Other), ReadOutcome::Ready(3));
    assert_eq!(read_outcome(0, Fault::Other), ReadOutcome::Closed);
    assert_eq!(read_outcome(-1, Fault::WouldBlock), ReadOutcome::Empty);
    assert_eq!(read_outcome(-1, Fault::Interrupted), ReadOutcome::Empty);
    assert_eq!(read_outcome(-1, Fault::Other), ReadOutcome::Failed);
    assert_eq!(write_outcome(0, Fault::Other), WriteOutcome::Written(0));
    assert_eq!(write_outcome(9, Fault::Other), WriteOutcome::Written(9));
    assert_eq!(write_outcome(-1, Fault::WouldBlock), WriteOutcome::Wait);
    assert_eq!(write_outcome(-1, Fault::Interrupted), WriteOutcome::Retry);
    assert_eq!(write_outcome(-1, Fault::Other), WriteOutcome::Failed);
}

#[test]
fn door_ini_parses_keys_and_ignores_comments() {
    let i = parse_door_ini("; sysop defaults\nroms = /bbs/gb/roms\nfps = 30\nansi_music = off\n");
    assert_eq!(i.roms.as_deref(), Some("/bbs/gb/roms"));
    assert_eq!(frame_rate(&i.fps), Some(30.0));
    assert_eq!(i.ansi_music, Some(false));
}

#[test]
fn door_ini_parses_color_default() {
    assert_eq!(parse_door_ini("color = 256\n").color.as_deref(), Some("256"));
    assert_eq!(parse_door_ini("colour=16").color.as_deref(), Some("16"));
    assert_eq!(parse_door_ini("color_depth = Auto").color.as_deref(), Some("auto"));
    assert_eq!(parse_door_ini("fps=30").color, None);
}

#[test]
fn door_ini_fps_is_clamped() {
    assert_eq!(frame_rate(&parse_door_ini("fps=999").fps), Some(60.0));
    assert_eq!(frame_rate(&parse_door_ini("fps=1").fps), Some(5.0));
}

#[test]
fn door_ini_audio_tuning_parses_and_clamps() {
    let i = parse_door_ini("audio_chunk_ms = 60\naudio_rate = 11025\n");
    assert_eq!(i.audio_chunk_ms, Some(60));
    assert_eq!(i.audio_rate, Some(11025));
    // Out-of-range values clamp to the supported window.
    assert_eq!(parse_door_ini("audio_chunk_ms=1").audio_chunk_ms, Some(10));
    assert_eq!(parse_door_ini("audio_rate=999999").audio_rate, Some(44100));
    // Resync interval: 0 disables verbatim; nonzero clamps to [5, 3600].
    assert_eq!(parse_door_ini("audio_resync_secs=0").audio_resync_secs, Some(0));
    assert_eq!(parse_door_ini("audio_resync_secs=90").audio_resync_secs, Some(90));
    assert_eq!(parse_door_ini("audio_resync_secs=1").audio_resync_secs, Some(5));
    assert_eq!(parse_door_ini("audio_resync_secs=99999").audio_resync_secs, Some(3600));
    // Unset -> built-in defaults via apc_tuning().
    let d = DoorIni::default().apc_tuning();
    assert_eq!((d.chunk_ms, d.rate, d.resync_secs), (40, 22050, 60));
}

#[test]
fn saved_preferences_load() {
    let cfg = Config {
        roms_dir: Some("/bbs/roms".to_string()),
        render_block: Some(true),
        sound: Some("apc".to_string()),
        filter: Some("gbc".to_string()),
        screen: Some("best".to_string()),
        color: Some("256".to_string()),
        dmg_palette: Some("green".to_string()),
        last_game: Some("Tetris (World).gb".to_string()),
    };
    let text = save(&cfg);
    assert_eq!(roms_dirs(&text), ["/bbs/roms"]);
    assert_eq!(load(Some(&text), &list(&["/bbs/roms"])), cfg);
    // A directory that is gone is not taken up again.
    assert_eq!(load(Some(&text), &[]).roms_dir, None);
    assert_eq!(load(None, &[]), Config::default());
}

#[test]
fn preference_files_are_per_user() {
    assert_eq!(config_file_name(None), "config");
    assert_eq!(config_file_name(Some("")), "config");
    assert_eq!(config_file_name(Some("0007")), "config-0007");
    assert_eq!(config_file_name(Some("a/b")), "config-a_b");
}

#[test]
fn save_path_is_isolated_per_user() {
    let rom = "/games/roms/Tetris.gb";
    // No user => shared .saves/ (single-player layout)
    assert_eq!(get_save_path(rom, None), "/games/roms/.saves/Tetris.sav");
    // With user => own subdirectory
    assert_eq!(get_save_path(rom, Some("0007")), "/games/roms/.saves/0007/Tetris.sav");
    // Unsafe chars in the key are folded to '_'
    assert_eq!(get_save_path(rom, Some("a/b 7")), "/games/roms/.saves/a_b_7/Tetris.sav");
}

#[test]
fn save_paths_of_odd_roms() {
    assert_eq!(get_save_path("Tetris.gb", None), ".saves/Tetris.sav");
    assert!(loads_save(true, true));
    assert!(!loads_save(false, true));
    assert!(!loads_save(true, false));
}

#[test]
fn parse_fps_clamps_and_reads() {
    assert_eq!(parse_fps(&list(&["x", "--fps", "30"])), Some(30.0));
    assert_eq!(parse_fps(&list(&["x", "--fps=12"])), Some(12.0));
    assert_eq!(parse_fps(&list(&["x", "--fps", "999"])), Some(60.0));
    assert_eq!(parse_fps(&list(&["x", "--fps", "1"])), Some(5.0));
    assert_eq!(parse_fps(&list(&["x"])), None);
}

#[test]
fn flag_values_are_read_in_both_forms() {
    let a = list(&["x", "--user", "0007", "--roms=/r"]);
    assert_eq!(args::parse_user(&a).as_deref(), Some("0007"));
    assert_eq!(args::parse_value(&a, "--roms").as_deref(), Some("/r"));
    assert_eq!(args::parse_dropfile(&a), None);
    assert_eq!(args::parse_value(&list(&["x", "--user="]), "--user"), None);
    assert_eq!(args::parse_value(&list(&["x", "--user"]), "--user"), None);
    assert_eq!(args::parse_value(&list(&["x", "--user", ""]), "--user"), None);
}

#[test]
fn the_rom_is_the_first_plain_argument() {
    let rom = |words: &[&str]| args::positional_rom(&list(words));
    assert_eq!(rom(&["x", "--mute", "pokemon.gb", "--block"]).as_deref(), Some("pokemon.gb"));
    assert_eq!(rom(&["x", "--user", "7", "a.gb"]).as_deref(), Some("a.gb"));
    assert_eq!(rom(&["x", "--dropfile", "d.sys"]), None);
    assert_eq!(rom(&["x", "--fps"]), None);
    assert_eq!(rom(&["x"]), None);
    assert_eq!(rom(&[]), None);
}

#[test]
fn options_resolve_by_precedence() {
    let ini = parse_door_ini("color = 16\nroms = /ini\nansi_music = false\n");
    let door = parse("2\n9\n0\nBBS\n7\n");
    let o = args::resolve(&list(&["x"]), &ini, &door);
    assert_eq!(o.color, ColorSetting::C16);
    assert_eq!(o.roms.as_deref(), Some("/ini"));
    assert_eq!(o.user.as_deref(), Some("0007"));
    assert!(!o.ansi_music && !o.force_mute);
    assert_eq!((o.cli_mode, o.rom), (None, None));
    assert_eq!(o.dmg_palette, DmgPalette::Gray);

    let words = [
        "x", "--color", "256", "--dmg", "green", "--roms", "/cli", "--user", "42", "--mute",
        "--ansi-music", "--block", "g.gb",
    ];
    let o = args::resolve(&list(&words), &ini, &door);
    assert_eq!(o.color, ColorSetting::C256);
    assert_eq!(o.dmg_palette, DmgPalette::Green);
    assert_eq!(o.roms.as_deref(), Some("/cli"));
    assert_eq!(o.user.as_deref(), Some("42"));
    assert!(o.ansi_music && o.force_mute);
    assert_eq!(o.cli_mode, Some(RenderMode::Block));
    assert_eq!(o.rom.as_deref(), Some("g.gb"));

    let o = args::resolve(&list(&["x", "--color", "plaid", "--ascii"]), &DoorIni::default(), &None);
    assert_eq!(o.color, ColorSetting::Auto);
    assert_eq!(o.cli_mode, Some(RenderMode::Ascii));
    assert!(o.ansi_music);
    assert_eq!(o.user, None);
}

#[test]
fn usage_names_the_program() {
    assert!(args::wants_help(&list(&["x", "-h"])) && args::wants_help(&list(&["x", "--help"])));
    assert!(!args::wants_help(&list(&["x", "help"])));
    let text = args::usage("gb");
    assert!(text.starts_with("ASCII GameBoy Emulator\n\nUsage: gb <rom_file.gb> [OPTIONS]\n"));
    assert!(text.ends_with("  Q / Esc       Quit\n"));
}
