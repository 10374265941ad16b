//! The input decoder.

use terminal_gameboy::color::ColorDepth;
use terminal_gameboy::keys::{
    parse_audio_drain, Input, Key, KeyDecoder, KeyEdge, KeyboardMode, MenuEvent, IDLE_POLLS,
};

fn keys(bytes: &[u8]) -> Vec<Key> {
    KeyDecoder::new().feed(bytes)
}

#[test]
fn cursor_position_report_is_captured_not_keyed() {
    let mut d = KeyDecoder::new();
    assert_eq!(d.feed(b"\x1b[24;80R"), []); // no key emitted
    assert_eq!(d.take_cursor(), Some((24, 80)));
    assert_eq!(d.take_cursor(), None);
}

#[test]
fn page_up_down_decode_from_both_terminal_families() {
    let mut d = KeyDecoder::new();
    // SyncTERM / CTerm: PPAGE = CSI V, NPAGE = CSI U. This is what a Mac SyncTERM
    // actually sends.
    assert_eq!(d.feed(b"\x1b[V"), [Key::PageUp]);
    assert_eq!(d.feed(b"\x1b[U"), [Key::PageDown]);
    // xterm-family (iTerm via the shim, fTelnet, PuTTY): CSI 5~ / 6~.
    assert_eq!(d.feed(b"\x1b[5~"), [Key::PageUp]);
    assert_eq!(d.feed(b"\x1b[6~"), [Key::PageDown]);
    // Modifier forms keep the same first field (e.g. Shift+PageUp).
    assert_eq!(d.feed(b"\x1b[5;2~"), [Key::PageUp]);
    // Other edit-keypad keys (Home/Ins/Del/End = 1/2/3/4~) stay ignored.
    assert_eq!(d.feed(b"\x1b[1~\x1b[3~"), []);
}

#[test]
fn cursor_report_survives_interleaved_capability_replies() {
    // A real SyncTERM answers the folded probe burst as one chunk: CTDA
    // (CSI<...c), the CPR (CSI row;colR), then Primary DA (CSI?...c). The CPR
    // must still be captured and no probe reply may leak as a keystroke.
    let mut d = KeyDecoder::new();
    assert_eq!(d.feed(b"\x1b[<0;8c\x1b[24;80R\x1b[?62c"), []); // nothing keyed
    assert_eq!(d.take_cursor(), Some((24, 80)), "CPR captured amid caps");
    assert_eq!(d.take_cursor(), None);
    // The capability replies in the same burst still resolved the protocol.
    assert_eq!(d.keyboard_mode(), KeyboardMode::CtermPhysical);
    assert!(d.caps_resolved(), "DA1 barrier seen");
    // And no stray key edges were produced by the c/R/c sequence.
    assert!(d.take_key_edges().is_empty());

    // Order-independence: CPR last, after both caps replies.
    let mut d = KeyDecoder::new();
    assert_eq!(d.feed(b"\x1b[<0;8c\x1b[?62;1;6c\x1b[24;80R"), []);
    assert_eq!(d.take_cursor(), Some((24, 80)));
}

#[test]
fn cterm_single_key_press_then_release_decodes_to_evdev_44_edges() {
    // A terminal sending proper CTerm physical key reports for one key (Z):
    // press `CSI = 44 K`, then release `CSI = 44 k`. Each drains as exactly
    // one edge with the right evdev code and direction, and no Key output.
    let mut d = KeyDecoder::new();
    assert_eq!(d.feed(b"\x1b[=44K"), []); // press, no translated key
    assert_eq!(d.take_key_edges(), vec![KeyEdge { code: 44, pressed: true }]);
    assert_eq!(d.feed(b"\x1b[=44k"), []); // release, no translated key
    assert_eq!(d.take_key_edges(), vec![KeyEdge { code: 44, pressed: false }]);
}

#[test]
fn physical_key_reports_decode_to_edges_not_keys() {
    let mut d = KeyDecoder::new();
    // Two keys pressed together, then one released — no Key output.
    assert_eq!(d.feed(b"\x1b[=44;45K"), []);
    assert_eq!(d.feed(b"\x1b[=44k"), []);
    let edges = d.take_key_edges();
    assert_eq!(edges.len(), 3);
    assert_eq!(edges[0], KeyEdge { code: 44, pressed: true });
    assert_eq!(edges[1], KeyEdge { code: 45, pressed: true });
    assert_eq!(edges[2], KeyEdge { code: 44, pressed: false });
    assert!(d.take_key_edges().is_empty(), "edges drained");
    // An audio drain report (also `=`-prefixed) is not a key edge.
    d.feed(b"\x1b[=7;2;0n");
    assert!(d.take_key_edges().is_empty());
    assert_eq!(d.take_audio_drain(), Some(2));
}

#[test]
fn iterm_kitty_session_flow_resolves_and_decodes() {
    // Mock a realistic iTerm-over-the-wire session: the probe replies it
    // sends back, then (after the door enables kitty) movement+jump events.
    let mut d = KeyDecoder::new();
    // iTerm ignores the CTerm CTDA query, answers the kitty query, then DA1.
    d.feed(b"\x1b[?0u");           // kitty supported
    d.feed(b"\x1b[?62;4;6;22c");   // Primary DA (barrier); note the 22 contains no bare "8"
    assert_eq!(d.keyboard_mode(), KeyboardMode::Kitty, "iTerm should resolve to Kitty");
    assert!(d.caps_resolved());
    // Door enables kitty. Letters arrive as CSI-u -> edges. A *bare* arrow is
    // a normal key (translated), not a stuck press-only edge; only a kitty
    // arrow event (event-type after a colon) becomes an edge.
    d.set_kitty_active(true);
    assert_eq!(d.feed(b"\x1b[122u"), []);       // z press -> edge
    assert_eq!(d.feed(b"\x1b[122;1:3u"), []);   // z release -> edge
    assert_eq!(d.feed(b"\x1b[C"), [Key::Right]); // bare arrow -> translated
    assert_eq!(d.feed(b"\x1b[1;1:3C"), []);     // kitty arrow event -> edge
    assert_eq!(d.take_key_edges(), vec![
        KeyEdge { code: 44, pressed: true },    // z down (A)
        KeyEdge { code: 44, pressed: false },   // z up
        KeyEdge { code: 106, pressed: false },  // right release (kitty-form)
    ]);
}

#[test]
fn kitty_events_decode_to_evdev_edges_when_active() {
    let mut d = KeyDecoder::new();
    // Before activation, arrows are still plain translated keys.
    assert_eq!(d.feed(b"\x1b[1;1:1A"), [Key::Up]);
    d.set_kitty_active(true);
    // z press, z release, Up press, Up release, Space press.
    assert_eq!(d.feed(b"\x1b[122;1:1u"), []);
    assert_eq!(d.feed(b"\x1b[122;1:3u"), []);
    assert_eq!(d.feed(b"\x1b[1;1:1A"), []);
    assert_eq!(d.feed(b"\x1b[1;1:3A"), []);
    assert_eq!(d.feed(b"\x1b[32u"), []); // no event field -> press
    let e = d.take_key_edges();
    assert_eq!(e, vec![
        KeyEdge { code: 44, pressed: true },   // z down
        KeyEdge { code: 44, pressed: false },  // z up
        KeyEdge { code: 103, pressed: true },  // up down
        KeyEdge { code: 103, pressed: false }, // up up
        KeyEdge { code: 57, pressed: true },   // space down
    ]);
}

#[test]
fn caps_probe_replies_resolve_keyboard_mode_not_keyed() {
    // SyncTERM: CTDA advertises 8, then the Primary DA barrier.
    let mut d = KeyDecoder::new();
    assert_eq!(d.feed(b"\x1b[<0;5;6;7;8c"), []);
    assert_eq!(d.keyboard_mode(), KeyboardMode::CtermPhysical);
    assert!(!d.caps_resolved(), "not resolved until the DA1 barrier");
    assert_eq!(d.feed(b"\x1b[?62;1;6c"), []);
    assert!(d.caps_resolved());

    // Kitty terminal: query reply, then DA1; no CTDA-8.
    let mut d = KeyDecoder::new();
    assert_eq!(d.feed(b"\x1b[?0u\x1b[?62c"), []);
    assert_eq!(d.keyboard_mode(), KeyboardMode::Kitty);
    assert!(d.caps_resolved());

    // Dumb terminal: only Primary DA -> legacy fallback.
    let mut d = KeyDecoder::new();
    d.feed(b"\x1b[?62;1;6c");
    assert_eq!(d.keyboard_mode(), KeyboardMode::Legacy);
    assert!(d.caps_resolved());

    // CTDA present but without 8 -> not physical.
    let mut d = KeyDecoder::new();
    d.feed(b"\x1b[<0;5;6;7c\x1b[?62c");
    assert_eq!(d.keyboard_mode(), KeyboardMode::Legacy);
}

#[test]
fn decrqss_color_reply_resolves_depth_without_keying() {
    // Terminal quantized our 24-bit probe to 256: ESC P 1 $ r 0;38;5;16m ESC \
    let mut d = KeyDecoder::new();
    assert_eq!(d.feed(b"\x1bP1$r0;38;5;16m\x1b\\"), []); // no keys
    assert_eq!(d.color_probe(), Some(ColorDepth::C256));
    assert!(d.take_key_edges().is_empty());

    // Terminal preserved 24-bit -> truecolor confirmed (colon subparams too).
    let mut d = KeyDecoder::new();
    assert_eq!(d.feed(b"\x1bP1$r0;38:2::1:2:3m\x1b\\"), []);
    assert_eq!(d.color_probe(), Some(ColorDepth::True));

    // Silent / non-DECRQSS -> never resolves (caller stays at its default).
    let mut d = KeyDecoder::new();
    assert_eq!(d.color_probe(), None);
    d.feed(b"\x1b[24;80R"); // a stray CPR is not a color reply
    assert_eq!(d.color_probe(), None);
}

#[test]
fn dcs_interleaved_with_probe_replies_keeps_them_all() {
    // A realistic burst: CTDA, the color DECRQSS reply, CPR, then Primary DA.
    // Every capability must resolve and nothing may leak as a keystroke.
    let mut d = KeyDecoder::new();
    assert_eq!(
        d.feed(b"\x1b[<0;8c\x1bP1$r0;38;5;9m\x1b\\\x1b[24;80R\x1b[?62c"),
        []
    );
    assert_eq!(d.color_probe(), Some(ColorDepth::C256));
    assert_eq!(d.take_cursor(), Some((24, 80)));
    assert_eq!(d.keyboard_mode(), KeyboardMode::CtermPhysical);
    assert!(d.caps_resolved());
}

#[test]
fn malformed_dcs_without_terminator_is_dropped_on_idle() {
    // A bare `ESC P` with no ST must not wedge the decoder; idle clears it and
    // a subsequent key decodes normally.
    let mut d = KeyDecoder::new();
    assert_eq!(d.feed(b"\x1bPsome garbage"), []);
    assert_eq!(d.idle(), None); // dangling DCS dropped
    assert_eq!(d.feed(b"z"), [Key::Char('z')]);
}

#[test]
fn audio_drain_report_is_captured_not_keyed() {
    let mut d = KeyDecoder::new();
    // Update one-shot for channel 2 going idle: ESC [ = 7 ; 2 ; 0 n
    assert_eq!(d.feed(b"\x1b[=7;2;0n"), []); // no key emitted
    assert_eq!(d.take_audio_drain(), Some(2));
    assert_eq!(d.take_audio_drain(), None);
    // A "running" report (state 1) is not a drain.
    assert_eq!(d.feed(b"\x1b[=7;2;1n"), []);
    assert_eq!(d.take_audio_drain(), None);
}

#[test]
fn arrows_csi_and_ss3() {
    assert_eq!(keys(b"\x1b[A\x1b[B\x1b[C\x1b[D"), [Key::Up, Key::Down, Key::Right, Key::Left]);
    assert_eq!(keys(b"\x1bOA\x1bOD"), [Key::Up, Key::Left]);
    assert_eq!(keys(b"\x1b[Z"), [Key::BackTab]);
}

#[test]
fn lone_esc_resolves_on_idle() {
    let mut d = KeyDecoder::new();
    assert_eq!(d.feed(b"\x1b"), []);
    assert_eq!(d.idle(), Some(Key::Esc));
    assert_eq!(d.idle(), None);
}

#[test]
fn esc_then_char_emits_both() {
    assert_eq!(keys(b"\x1bx"), [Key::Esc, Key::Char('x')]);
}

#[test]
fn enter_handles_cr_crlf_and_crnul() {
    assert_eq!(keys(b"\r"), [Key::Enter]);
    assert_eq!(keys(b"\r\n"), [Key::Enter]);
    assert_eq!(keys(b"\r\x00"), [Key::Enter]);
    assert_eq!(keys(b"\n"), [Key::Enter]);
    assert_eq!(keys(b"a\rb"), [Key::Char('a'), Key::Enter, Key::Char('b')]);
}

#[test]
fn letters_space_tab_backspace() {
    assert_eq!(
        keys(b"hi z\t\x7f\x08"),
        [Key::Char('h'), Key::Char('i'), Key::Char(' '), Key::Char('z'),
         Key::Tab, Key::Backspace, Key::Backspace]
    );
}

#[test]
fn telnet_iac_is_stripped() {
    // IAC WILL ECHO, then 'A'
    assert_eq!(keys(b"\xff\xfb\x01A"), [Key::Char('A')]);
    // IAC SB NAWS ... IAC SE, then 'Z'
    assert_eq!(keys(b"\xff\xfa\x1f\x00\x50\x00\x18\xff\xf0Z"), [Key::Char('Z')]);
}

#[test]
fn sequences_split_across_feeds() {
    let mut d = KeyDecoder::new();
    assert_eq!(d.feed(b"\x1b["), []);
    assert_eq!(d.feed(b"A"), [Key::Up]);
    // ESC split from its '[' across feeds, still becomes an arrow
    assert_eq!(d.feed(b"\x1b"), []);
    assert_eq!(d.feed(b"[D"), [Key::Left]);
}

#[test]
fn any_split_of_a_stream_decodes_alike() {
    let stream = b"a\x1b[24;80Rb\x1b[1;1:3A\xff\xfb\x01\r\nz\x1bP1$r0;38;5;9m\x1b\\q";
    let mut whole = KeyDecoder::new();
    let all = whole.feed(stream);
    for cut in 0..=stream.len() {
        let mut d = KeyDecoder::new();
        let mut keys = d.feed(&stream[..cut]);
        keys.extend(d.feed(&stream[cut..]));
        assert_eq!(keys, all);
        assert_eq!(d.take_cursor(), Some((24, 80)));
        assert_eq!(d.color_probe(), Some(ColorDepth::C256));
    }
    assert_eq!(
        all,
        [
            Key::Char('a'),
            Key::Char('b'),
            Key::Up,
            Key::Enter,
            Key::Char('z'),
            Key::Char('q')
        ]
    );
}

#[test]
fn printable_text_is_itself() {
    let text = "The quick (brown) fox; 0-9 ~!";
    let expected: Vec<Key> = text.chars().map(Key::Char).collect();
    assert_eq!(keys(text.as_bytes()), expected);
}

#[test]
fn unknown_control_sequences_are_swallowed() {
    assert_eq!(keys(b"\x1b[12;34;56y\x1b[?25hz"), [Key::Char('z')]);
    assert_eq!(keys(b"\x1b[=1;2xz"), [Key::Char('z')]);
}

#[test]
fn oversized_color_reply_stays_bounded() {
    let mut d = KeyDecoder::new();
    let mut long = b"\x1bP1$r0;38;5;9m".to_vec();
    long.extend(vec![b'x'; 1000]);
    // The buffer holds 64 bytes; the next one drops the reply, and the rest is typed.
    assert_eq!(d.feed(&long).len(), 1012 - 65);
    assert_eq!(d.feed(b"z"), [Key::Char('z')]);
    assert_eq!(d.color_probe(), None);
}

#[test]
fn malformed_reports_change_nothing() {
    let mut d = KeyDecoder::new();
    assert_eq!(d.feed(b"\x1b[;80R\x1b[24R\x1b[99999;1R\x1b[1;-R"), []);
    assert_eq!(d.take_cursor(), None);
    assert_eq!(d.feed(b"\x1b[=8;2;0n\x1b[=7;2n"), []);
    assert_eq!(d.take_audio_drain(), None);
}

#[test]
fn another_report_is_no_drain() {
    let mut d = KeyDecoder::new();
    assert_eq!(d.feed(b"\x1b[=72;0n\x1b[=75;2;0n\x1b[=7n"), []);
    assert_eq!(d.take_audio_drain(), None);
    assert_eq!(d.feed(b"\x1b[=7;2;0n\x1b[=72;0n"), []);
    assert_eq!(d.take_audio_drain(), Some(2));
    assert_eq!(parse_audio_drain(&['=', '7', '2', ';', '0']), None);
    assert_eq!(parse_audio_drain(&['=', '7', ';', '2', ';', '0']), Some(2));
    assert_eq!(parse_audio_drain(&['=', '7']), None);
}

#[test]
fn color_probe_is_kept_and_never_16() {
    let mut d = KeyDecoder::new();
    d.feed(b"\x1bP1$r38;5;60m\x1b\\");
    assert_eq!(d.color_probe(), Some(ColorDepth::C256));
    d.feed(b"abc\x1bP1$r36m\x1b\\\x1bP0$r\x1b\\\x1b[?62c");
    d.idle();
    assert_eq!(d.color_probe(), Some(ColorDepth::C256));
    let mut plain = KeyDecoder::new();
    plain.feed(b"\x1bP1$r36m\x1b\\");
    assert_eq!(plain.color_probe(), None);
}

#[test]
fn capabilities_are_sticky() {
    let mut d = KeyDecoder::new();
    d.feed(b"\x1b[<0;8c\x1b[?62c");
    d.feed(b"abc\x1b[A\x1b[24;80R");
    d.idle();
    assert!(d.caps_resolved());
    assert_eq!(d.keyboard_mode(), KeyboardMode::CtermPhysical);
}

#[test]
fn poll_resolves_a_pending_escape() {
    let mut input = Input::new();
    assert_eq!(input.poll(b"\x1b"), []);
    assert_eq!(input.poll(b""), [Key::Esc]);
    assert_eq!(input.poll(b""), []);
    assert_eq!(input.poll(b"\x1b[A"), [Key::Up]);
}

#[test]
fn quiet_wait_ends_in_an_idle_event() {
    let mut input = Input::new();
    let mut empties = 0;
    let mut polls = 0;
    let event = loop {
        let (event, n) = input.wait_event(b"", empties);
        empties = n;
        polls += 1;
        if let Some(e) = event {
            break e;
        }
    };
    assert_eq!(event, MenuEvent::Idle);
    assert_eq!(polls, IDLE_POLLS);
}

#[test]
fn wait_reports_keys_sizes_and_a_lone_escape() {
    let mut input = Input::new();
    assert_eq!(input.wait_event(b"x", 5), (Some(MenuEvent::Key(Key::Char('x'))), 0));
    assert_eq!(input.wait_event(b"\x1b[50;132R", 0), (Some(MenuEvent::Resize(50, 132)), 0));
    assert_eq!(input.wait_event(b"\x1b", 0), (None, 0));
    assert_eq!(input.wait_event(b"", 0), (None, 1));
    assert_eq!(input.wait_event(b"", 1), (Some(MenuEvent::Key(Key::Esc)), 2));
    assert_eq!(input.resize_event(), None);
    input.poll(b"\x1b[25;80R");
    assert_eq!(input.resize_event(), Some(MenuEvent::Resize(25, 80)));
}
