//! Pacing, buttons, the game loop and the session around it.

use terminal_gameboy::apc_audio::ApcAudio;
use terminal_gameboy::color::ColorSetting;
use terminal_gameboy::framebuffer::DmgPalette;
use terminal_gameboy::game::{
    to_ms, Act, Game, GameStart, Rate, Turn, BUTTON_TIMEOUT_NS, FRAME_NS, KEYFRAME_NS, SECOND_NS,
};
use terminal_gameboy::input::{
    button_at, button_index, evdev_to_button, map_key_to_button, Button, EVDEV_ESC, EVDEV_Q,
};
use terminal_gameboy::keys::{Input, Key, KeyboardMode};
use terminal_gameboy::menu::SoundMode;
use terminal_gameboy::menu_state::MenuConfig;
use terminal_gameboy::pace::LinkPace;
use terminal_gameboy::renderer::{RenderConfig, RenderMode, Renderer};
use terminal_gameboy::session::{
    attract_due, direct_launch, edge_input, game_start, keeps_detecting, keyboard_off, keyboard_on,
    menu_launch, resize_terminal, send_size_probe, session_end, session_start, AttractCfg, Session,
    DETECT_NS,
};

const MS: u64 = 1_000_000;

#[test]
fn linkpace_keeps_up_within_2x_budget() {
    let budget = 50 * MS;
    let mut p = LinkPace::new(budget);
    p.note(budget); // on time
    p.note(budget * 2); // 2x — still tolerated
    assert!(!p.skipping());
    assert!(!p.skip_frame());
}

#[test]
fn linkpace_skips_in_proportion_to_overrun() {
    let budget = 50 * MS;
    let mut p = LinkPace::new(budget);
    p.note(budget * 8); // 8x over budget -> skip ~8 frames
    let mut skipped = 0;
    while p.skip_frame() {
        skipped += 1;
    }
    assert_eq!(skipped, 8);
    assert!(!p.skipping());
}

#[test]
fn linkpace_caps_skip_at_two_seconds() {
    let budget = 50 * MS;
    let mut p = LinkPace::new(budget);
    p.note(60 * SECOND_NS); // huge stall
    let mut skipped = 0;
    while p.skip_frame() {
        skipped += 1;
    }
    assert_eq!(skipped, 40); // 2s / 50ms
}

#[test]
fn linkpace_survives_a_zero_budget() {
    let mut p = LinkPace::new(0);
    p.note(5);
    assert_eq!(p.skip, 5);
    p.note(u64::MAX);
    assert!(p.skip <= 2_000_000_000);
    assert_eq!(p.skip, 2_000_000_000);
}

#[test]
fn linkpace_holds_the_cap_on_the_longest_stalls() {
    // 2^32 budgets, and a few more.
    let mut p = LinkPace::new(1);
    p.note(0x1_0000_0000);
    assert_eq!(p.skip, 2_000_000_000);
    p.note(0x1_0000_0003);
    assert_eq!(p.skip, 2_000_000_000);
    let mut slow = LinkPace::new(1_000_000);
    slow.note(0x1_0000_0007 * 1_000_000);
    assert_eq!(slow.skip, 2_000);
}

#[test]
fn both_layouts_agree() {
    assert_eq!(map_key_to_button(Key::Char('Z')), Some(Button::A));
    assert_eq!(evdev_to_button(44), Some(Button::A));
    assert_eq!(map_key_to_button(Key::Char('x')), Some(Button::B));
    assert_eq!(evdev_to_button(45), Some(Button::B));
    assert_eq!(map_key_to_button(Key::Enter), Some(Button::Start));
    assert_eq!(evdev_to_button(28), Some(Button::Start));
    assert_eq!(map_key_to_button(Key::Char(' ')), Some(Button::Select));
    assert_eq!(evdev_to_button(57), Some(Button::Select));
    for (key, code, button) in [
        (Key::Up, 103, Button::Up),
        (Key::Down, 108, Button::Down),
        (Key::Left, 105, Button::Left),
        (Key::Right, 106, Button::Right),
    ] {
        assert_eq!(map_key_to_button(key), Some(button));
        assert_eq!(evdev_to_button(code), Some(button));
    }
    assert_eq!(map_key_to_button(Key::Char('q')), None);
    assert_eq!((evdev_to_button(EVDEV_ESC), evdev_to_button(EVDEV_Q)), (None, None));
    for i in 0..8 {
        assert_eq!(button_index(button_at(i)), i);
    }
}

fn start() -> GameStart {
    GameStart {
        edge_input: false,
        audio: false,
        render_interval: 50 * MS,
        resync_secs: 60,
        attract_secs: None,
    }
}

fn renderer() -> Renderer {
    let mut r = Renderer::new(RenderConfig { mode: RenderMode::Block });
    r.update_dimensions(80, 24);
    r
}

#[test]
fn held_keys_press_once_and_release_by_timeout() {
    let mut g = Game::new(start(), 0);
    let mut input = Input::new();
    let (acts, turn) = g.control(&mut input, b"z", 10);
    assert_eq!((acts, turn), (vec![Act::Press(Button::A)], Turn::Go));
    assert_eq!(g.control(&mut input, b"zz", 20).0, []);
    assert_eq!(g.control(&mut input, b"z", BUTTON_TIMEOUT_NS).0, []);
    assert_eq!(g.control(&mut input, b"", 2 * BUTTON_TIMEOUT_NS).0, []);
    let (acts, _) = g.control(&mut input, b"x", 1 + 2 * BUTTON_TIMEOUT_NS);
    assert_eq!(acts, [Act::Release(Button::A), Act::Press(Button::B)]);
}

#[test]
fn edges_own_their_button() {
    let mut g = Game::new(GameStart { edge_input: true, ..start() }, 0);
    let mut input = Input::new();
    // Z goes down as an edge, and its translated duplicate comes along.
    let (acts, _) = g.control(&mut input, b"\x1b[=44Kz", 0);
    assert_eq!(acts, [Act::Press(Button::A)]);
    assert_eq!(g.control(&mut input, b"z", 5).0, []);
    assert_eq!(g.control(&mut input, b"\x1b[=44k", 9 * SECOND_NS).0, [Act::Release(Button::A)]);
}

#[test]
fn edges_are_ignored_without_an_edge_protocol() {
    let mut g = Game::new(start(), 0);
    let mut input = Input::new();
    assert_eq!(g.control(&mut input, b"\x1b[=44K", 0), (vec![], Turn::Go));
    assert_eq!(input.take_key_edges().len(), 1);
}

#[test]
fn quit_keys_end_the_game() {
    for bytes in [&b"q"[..], b"aQ", b"zq"] {
        let mut g = Game::new(start(), 0);
        assert_eq!(g.control(&mut Input::new(), bytes, 0).1, Turn::End);
    }
    let mut g = Game::new(GameStart { edge_input: true, ..start() }, 0);
    assert_eq!(g.control(&mut Input::new(), b"\x1b[=16K", 0).1, Turn::End);
    let mut g = Game::new(GameStart { edge_input: true, ..start() }, 0);
    assert_eq!(g.control(&mut Input::new(), b"\x1b[=1k", 0).1, Turn::Go);
    // Keys behind a quit key do nothing.
    let mut g = Game::new(start(), 0);
    assert_eq!(g.control(&mut Input::new(), b"qz", 0).0, []);
    // A lone escape quits once it is settled.
    let mut input = Input::new();
    let mut g = Game::new(start(), 0);
    assert_eq!(g.control(&mut input, b"\x1b", 0).1, Turn::Go);
    assert_eq!(g.control(&mut input, b"", 1).1, Turn::End);
}

#[test]
fn demo_runs_its_time_and_leaves_saves_alone() {
    let mut g = Game::new(GameStart { attract_secs: Some(30), ..start() }, 0);
    let mut input = Input::new();
    assert!(g.prompts());
    assert_eq!(g.control(&mut input, b"\x1b[24;80R", 29 * SECOND_NS).1, Turn::Go);
    assert_eq!(g.control(&mut input, b"", 30 * SECOND_NS).1, Turn::End);
    assert!(!g.saves() && !g.intervened());
}

#[test]
fn wake_key_takes_over_and_is_consumed() {
    let mut g = Game::new(GameStart { attract_secs: Some(30), ..start() }, 0);
    let mut input = Input::new();
    assert_eq!(g.control(&mut input, b"q", SECOND_NS), (vec![], Turn::Again));
    assert!(g.saves() && g.intervened() && !g.prompts());
    // No timer any more, and keys act.
    assert_eq!(g.control(&mut input, b"z", 99 * SECOND_NS).1, Turn::Go);
    assert_eq!(g.control(&mut input, b"q", 99 * SECOND_NS).1, Turn::End);
    assert!(Game::new(start(), 0).saves() && Game::new(start(), 0).intervened());
}

#[test]
fn reports_resize_and_probe() {
    let mut g = Game::new(start(), 0);
    let mut input = Input::new();
    let mut r = renderer();
    let quiet = g.reports(&mut input, &mut r, 1);
    assert!(!quiet.drained && quiet.probe.is_none());
    input.poll(b"\x1b[50;132R\x1b[=7;2;0n");
    let report = g.reports(&mut input, &mut r, SECOND_NS);
    assert!(report.drained);
    assert_eq!(report.probe, Some(send_size_probe(true)));
    assert_eq!(g.columns(), 132);
    assert_eq!(r.fps_row(), 49);
    input.poll(b"\x1b[?62c\x1b[0;0R");
    let report = g.reports(&mut input, &mut r, 2 * SECOND_NS);
    assert_eq!(report.probe.as_deref(), Some("\x1b[9999;9999H\x1b[6n"));
    assert_eq!(g.columns(), 132);
    // A saturated link is not probed.
    g.note(SECOND_NS);
    assert!(g.reports(&mut input, &mut r, 9 * SECOND_NS).probe.is_none());
}

#[test]
fn emulation_is_locked_to_the_clock() {
    let mut g = Game::new(start(), 0);
    let run = |g: &mut Game, now: u64| {
        let mut frames = 0;
        while g.frame_due(frames, now) {
            frames += 1;
        }
        g.frames_done(frames, now);
        frames
    };
    assert_eq!(run(&mut g, 0), 1);
    assert_eq!(g.nap(0), FRAME_NS);
    assert_eq!(g.nap(FRAME_NS - 5), 5);
    assert_eq!(g.nap(FRAME_NS), 0);
    assert_eq!(run(&mut g, FRAME_NS - 1), 0);
    // An oversleep is repaid.
    assert_eq!(run(&mut g, 4 * FRAME_NS), 4);
    // A long stall is bounded and resynced.
    assert_eq!(run(&mut g, SECOND_NS), 12);
    assert_eq!(run(&mut g, SECOND_NS), 1);
}

#[test]
fn frames_go_out_at_the_capped_rate() {
    let mut g = Game::new(start(), 0);
    let mut r = renderer();
    assert!(!g.begin_frame(&mut r, 0, 0), "nothing emulated, nothing to send");
    assert!(g.begin_frame(&mut r, 1, 0));
    let sent = g.frame_sent(0);
    assert!(sent.redraw && sent.rate.is_none());
    assert!(!g.begin_frame(&mut r, 1, 50 * MS - 1));
    assert!(g.begin_frame(&mut r, 1, 50 * MS));
    assert!(!g.frame_sent(50 * MS).redraw);
    // A stalled write skips frames.
    g.note(150 * MS);
    for k in 2..5u64 {
        assert!(!g.begin_frame(&mut r, 1, k * 50 * MS));
    }
    assert!(g.begin_frame(&mut r, 1, 5 * 50 * MS));
    assert_eq!(g.frames(), 2);
    let sent = g.frame_sent(SECOND_NS);
    assert_eq!(sent.rate, Some(Rate { frames: 3, elapsed: SECOND_NS }));
    assert!(sent.redraw);
    assert_eq!(g.frames(), 0);
}

#[test]
fn keyframes_repaint_all_cells() {
    let fb = terminal_gameboy::framebuffer::FrameBuffer::new(160, 144);
    let mut g = Game::new(start(), 0);
    let mut r = renderer();
    assert!(g.begin_frame(&mut r, 1, 0));
    let first = r.render(&fb).len();
    assert!(g.begin_frame(&mut r, 1, SECOND_NS));
    assert_eq!(r.render(&fb), b"\x1b[0m");
    assert!(g.begin_frame(&mut r, 1, KEYFRAME_NS));
    assert!(r.render(&fb).len() > first / 2);
}

#[test]
fn audio_is_resynced_logged_and_prebuffered() {
    let mut g = Game::new(GameStart { audio: true, resync_secs: 5, ..start() }, 0);
    let mut apc = ApcAudio::new(40, 22050);
    assert!(g.resync_audio(&mut apc, 4 * SECOND_NS).is_empty());
    assert_eq!(g.resync_audio(&mut apc, 5 * SECOND_NS), {
        let mut expected = apc.stop();
        expected.extend(b"\x1b_SyncTERM:A;Update;C=2\x1b\\");
        expected
    });
    assert_eq!(apc.play_start_ms, to_ms(5 * SECOND_NS));
    assert!(g.resync_audio(&mut apc, 9 * SECOND_NS).is_empty());
    assert!(!g.log_due(SECOND_NS - 1) && g.log_due(SECOND_NS) && !g.log_due(SECOND_NS + 1));
    let started: Vec<bool> = (0..5).map(|_| g.playback_starts()).collect();
    assert_eq!(started, [false, false, true, false, false]);
    let mut silent = Game::new(GameStart { resync_secs: 0, ..start() }, 0);
    assert!(!silent.playback_starts());
    assert!(silent.resync_audio(&mut apc, 9999 * SECOND_NS).is_empty());
}

#[test]
fn terminal_requests() {
    let probe = "\x1b[9999;9999H\x1b[6n";
    assert_eq!(send_size_probe(false), probe);
    assert_eq!(
        send_size_probe(true),
        format!("{}\x1b[<c\x1b[?u\x1b[38;2;1;2;3m\x1bP$qm\x1b\\\x1b[0m\x1b[c", probe)
    );
    assert_eq!(resize_terminal(50, 132), "\x1b[8;50;132t");
    assert_eq!(session_start(), "\x1b[?1049h\x1b[?25l\x1b[2J\x1b[?7l");
    assert_eq!(game_start(), "\x1b[2J");
    assert_eq!(
        session_end(),
        "\x1b[=1l\x1b[=2l\x1b[<u\x1b[?7h\x1b[?25h\x1b[?1049l"
    );
}

#[test]
fn keyboard_modes_switch_on_and_off() {
    assert_eq!(keyboard_on(KeyboardMode::CtermPhysical), "\x1b[=1h\x1b[=2h");
    assert_eq!(keyboard_off(KeyboardMode::CtermPhysical), "\x1b[=1l\x1b[=2l");
    assert_eq!(keyboard_on(KeyboardMode::Kitty), "\x1b[>10u");
    assert_eq!(keyboard_off(KeyboardMode::Kitty), "\x1b[<u");
    assert_eq!(keyboard_on(KeyboardMode::Legacy), "");
    assert_eq!(keyboard_off(KeyboardMode::Legacy), "");
    assert!(edge_input(KeyboardMode::Kitty) && edge_input(KeyboardMode::CtermPhysical));
    assert!(!edge_input(KeyboardMode::Legacy));
    assert!(keeps_detecting(false, 0) && !keeps_detecting(true, 0));
    assert!(!keeps_detecting(false, DETECT_NS));
}

#[test]
fn launches_choose_one_kind_of_sound() {
    let config = |sound: SoundMode| MenuConfig {
        rom_path: "a.gb".to_string(),
        render_mode: RenderMode::Block,
        sound,
        color: ColorSetting::C256,
        dmg_palette: DmgPalette::Green,
    };
    let l = menu_launch(&config(SoundMode::Ansi), None, false, true);
    assert_eq!((l.audio, l.music, l.apc, l.mode), (true, true, false, RenderMode::Block));
    let l = menu_launch(&config(SoundMode::Ansi), Some(RenderMode::Ascii), true, false);
    assert_eq!((l.audio, l.music, l.apc, l.mode), (false, false, false, RenderMode::Ascii));
    let l = menu_launch(&config(SoundMode::Apc), None, false, true);
    assert_eq!((l.audio, l.music, l.apc), (false, false, true));
    let l = menu_launch(&config(SoundMode::Off), None, false, true);
    assert_eq!((l.audio, l.music, l.apc), (false, false, false));
    let d = direct_launch(None, false, true, ColorSetting::Auto, DmgPalette::Gray);
    assert_eq!((d.mode, d.audio, d.music, d.apc), (RenderMode::Ascii, true, true, false));
}

#[test]
fn attract_pauses_until_somebody_takes_over() {
    let cfg = AttractCfg { enabled: true, idle_secs: 60, menu_secs: 5, game_secs: 30 };
    let mut s = Session::new(false);
    assert!(s.animate && !Session::new(true).animate);
    assert_eq!(s.attract_thresholds(cfg), Some((60, 60)));
    assert_eq!(s.attract_thresholds(AttractCfg::default()), None);
    s.game_ended("a.gb", true, false);
    assert_eq!(s.attract_thresholds(cfg), Some((5, 60)));
    assert!(attract_due(Some((5, 60)), false, 5) && !attract_due(Some((5, 60)), false, 4));
    assert!(attract_due(Some((5, 60)), true, 60) && !attract_due(Some((5, 60)), true, 59));
    assert!(!attract_due(None, false, u64::MAX));
    assert_eq!(s.take_selection(), None);
    s.game_ended("a.gb", true, true);
    assert_eq!(s.attract_thresholds(cfg), Some((60, 60)));
    assert_eq!(s.take_selection().as_deref(), Some("a.gb"));
    assert_eq!(s.take_selection(), None);
    s.game_ended("b.gb", false, true);
    assert!(!s.animate && !s.attract_pause);
    assert_eq!(s.take_selection(), None);
}
