//! A caller's session: what is sent to the terminal around the menu and the games,
//! and how one game leads to the next menu.

use crate::color::ColorSetting;
use crate::framebuffer::DmgPalette;
use crate::keys::KeyboardMode;
use crate::menu::SoundMode;
use crate::menu_state::MenuConfig;
use crate::out;
use crate::renderer::RenderMode;
use crate::text;
use vstd::prelude::*;

verus! {

// ---------------------------------------------------------------------------
// Terminal requests
// ---------------------------------------------------------------------------

/// The keyboard-capability queries, plus the DECRQSS color probe: set an odd 24-bit
/// foreground, ask the terminal to read the active SGR back, then reset. Nothing is
/// drawn. The Primary DA closes the burst.
pub open spec fn caps_text() -> Seq<char> {
    "\x1b[<c\x1b[?u\x1b[38;2;1;2;3m\x1bP$qm\x1b\\\x1b[0m\x1b[c"@
}

/// The size probe, with or without the capability queries.
pub open spec fn probe_text(with_caps: bool) -> Seq<char> {
    out::move_text(9998, 9998) + "\x1b[6n"@ + (if with_caps {
        caps_text()
    } else {
        Seq::empty()
    })
}

/// Ask the terminal for its size: park the cursor at the far corner, then request
/// a cursor-position report (`ESC[6n`). The reply (`ESC[row;colR`) is read back
/// through the normal input path and surfaced by `Input::take_cursor`.
///
/// A probe rather than an ioctl/winsize because a door's pty size is frozen at
/// launch (and an inherited socket has no winsize at all), so this round-trip is the
/// only way to track the caller's real terminal size.
///
/// When `with_caps` is set, the keyboard-capability probes are folded into the
/// same round-trip (sent until detection resolves, see `Input::caps_resolved`):
/// CTerm Device Attributes (`CSI < c`: physical key reports), the kitty keyboard
/// query (`CSI ? u`), and a Primary DA (`CSI c`) that acts as the reply barrier.
/// Terminals that don't understand a query simply ignore it; all replies are
/// parsed by `KeyDecoder` and never surface as keystrokes.
pub fn send_size_probe(with_caps: bool) -> (s: String)
    ensures
        s@ == probe_text(with_caps),
{
    let mut s = out::move_to(9998, 9998);
    s.append("\x1b[6n");
    if with_caps {
        s.append("\x1b[<c\x1b[?u\x1b[38;2;1;2;3m\x1bP$qm\x1b\\\x1b[0m\x1b[c");
    }
    s
}

/// How long a game waits for the capability replies, ns.
pub const DETECT_NS: u64 = 300_000_000;

/// Whether to keep pumping input for the capability replies. Detection normally
/// completes during the menu (its size probes carry the capability queries);
/// for a direct ROM launch with no menu, input is pumped briefly, swallowing the
/// probe replies, until the DA barrier arrives or a short timeout elapses.
pub fn keeps_detecting(resolved: bool, waited: u64) -> (r: bool)
    ensures
        r == (!resolved && waited < DETECT_NS),
        r == is_detecting(resolved, waited),
{
    !resolved && waited < DETECT_NS
}

/// The terminal's replies are awaited still.
pub open spec fn is_detecting(resolved: bool, waited: u64) -> bool {
    !resolved && waited < DETECT_NS
}

/// The enhanced modes yield real key-down/up edges and simultaneous keys.
pub open spec fn has_edges(mode: KeyboardMode) -> bool {
    mode == KeyboardMode::CtermPhysical || mode == KeyboardMode::Kitty
}

pub fn edge_input(mode: KeyboardMode) -> (r: bool)
    ensures
        r == has_edges(mode),
{
    match mode {
        KeyboardMode::CtermPhysical => true,
        KeyboardMode::Kitty => true,
        KeyboardMode::Legacy => false,
    }
}

/// Enable CTerm physical key reports (`CSI = 1 h`) and suppress the duplicate
/// translated input (`CSI = 2 h`) so the game reads only raw evdev edges.
pub fn enable_physical_keys() -> (s: &'static str)
    ensures
        s@ == "\x1b[=1h\x1b[=2h"@,
        s@ == keyboard_on_text(KeyboardMode::CtermPhysical),
{
    "\x1b[=1h\x1b[=2h"
}

/// Restore normal translated input (`CSI = 2 l`) and stop physical key reports
/// (`CSI = 1 l`). Safe to send even if they were never enabled.
pub fn disable_physical_keys() -> (s: &'static str)
    ensures
        s@ == "\x1b[=1l\x1b[=2l"@,
        s@ == keyboard_off_text(KeyboardMode::CtermPhysical),
{
    "\x1b[=1l\x1b[=2l"
}

/// Push the kitty keyboard flags `2|8` (report event types + all keys as escape
/// codes) so modern terminals send press/release edges for every key.
pub fn enable_kitty_keys() -> (s: &'static str)
    ensures
        s@ == "\x1b[>10u"@,
        s@ == keyboard_on_text(KeyboardMode::Kitty),
{
    "\x1b[>10u"
}

/// Pop the kitty keyboard flags (`CSI < u`), restoring the host's prior mode.
pub fn disable_kitty_keys() -> (s: &'static str)
    ensures
        s@ == "\x1b[<u"@,
        s@ == keyboard_off_text(KeyboardMode::Kitty),
{
    "\x1b[<u"
}

/// What switches a game's keyboard mode on.
pub open spec fn keyboard_on_text(mode: KeyboardMode) -> Seq<char> {
    match mode {
        KeyboardMode::CtermPhysical => "\x1b[=1h\x1b[=2h"@,
        KeyboardMode::Kitty => "\x1b[>10u"@,
        KeyboardMode::Legacy => ""@,
    }
}

/// Switch on the enhanced mode, if any, when a game starts.
pub fn keyboard_on(mode: KeyboardMode) -> (s: &'static str)
    ensures
        s@ == keyboard_on_text(mode),
{
    match mode {
        KeyboardMode::CtermPhysical => enable_physical_keys(),
        KeyboardMode::Kitty => enable_kitty_keys(),
        KeyboardMode::Legacy => "",
    }
}

/// What switches a game's keyboard mode off.
pub open spec fn keyboard_off_text(mode: KeyboardMode) -> Seq<char> {
    match mode {
        KeyboardMode::CtermPhysical => "\x1b[=1l\x1b[=2l"@,
        KeyboardMode::Kitty => "\x1b[<u"@,
        KeyboardMode::Legacy => ""@,
    }
}

/// Restore translated input for the menu (nothing if it was never enabled).
pub fn keyboard_off(mode: KeyboardMode) -> (s: &'static str)
    ensures
        s@ == keyboard_off_text(mode),
{
    match mode {
        KeyboardMode::CtermPhysical => disable_physical_keys(),
        KeyboardMode::Kitty => disable_kitty_keys(),
        KeyboardMode::Legacy => "",
    }
}

pub open spec fn resize_text(rows: u16, cols: u16) -> Seq<char> {
    "\x1b[8;"@ + text::decimal(rows as nat) + ";"@ + text::decimal(cols as nat) + "t"@
}

/// Ask the terminal to resize its text area to `rows`x`cols` (xterm
/// `CSI 8 ; rows ; cols t`). xterm-family terminals honor it; SyncTERM/CTerm
/// ignore it harmlessly (their `CSI ... t` is 24-bit colour and needs 4 params).
pub fn resize_terminal(rows: u16, cols: u16) -> (s: String)
    ensures
        s@ == resize_text(rows, cols),
{
    let mut s = "\x1b[8;".to_owned();
    text::push_decimal(&mut s, rows as u64);
    s.append(";");
    text::push_decimal(&mut s, cols as u64);
    s.append("t");
    s
}

/// Enter the alternate screen, once for the whole session. Autowrap is off for all
/// of it: painting the bottom-right cell (a full-screen splash, or a status line on
/// the last row) then can't scroll the screen. Everything positions with absolute
/// cursor moves, so nothing relies on wrap.
pub fn session_start() -> (s: String)
    ensures
        s@ == "\x1b[?1049h"@ + "\x1b[?25l"@ + "\x1b[2J"@ + "\x1b[?7l"@,
        s@ == start_text(),
{
    let mut s = out::enter_alternate_screen();
    s.append(out::hide_cursor().as_str());
    s.append(out::clear_all().as_str());
    s.append("\x1b[?7l");
    s
}

/// Clear the screen for a game.
pub fn game_start() -> (s: String)
    ensures
        s@ == "\x1b[2J"@,
{
    out::clear_all()
}

/// What begins a session.
pub open spec fn start_text() -> Seq<char> {
    "\x1b[?1049h"@ + "\x1b[?25l"@ + "\x1b[2J"@ + "\x1b[?7l"@
}

/// What ends a session.
pub open spec fn end_text() -> Seq<char> {
    keyboard_off_text(KeyboardMode::CtermPhysical) + keyboard_off_text(KeyboardMode::Kitty)
        + "\x1b[?7h"@ + "\x1b[?25h"@ + "\x1b[?1049l"@
}

/// Restore the screen, however the session ended. Also force-restores translated
/// keyboard input in case a game exited via an error path before turning off an
/// enhanced keyboard mode; otherwise the caller's BBS keyboard would stay suppressed
/// after the door returns.
pub fn session_end() -> (s: String)
    ensures
        s@ == end_text(),
{
    let mut s = disable_physical_keys().to_owned();
    s.append(disable_kitty_keys());
    s.append("\x1b[?7h");
    s.append(out::show_cursor().as_str());
    s.append(out::leave_alternate_screen().as_str());
    s
}

// ---------------------------------------------------------------------------
// From menu to game and back
// ---------------------------------------------------------------------------

/// Attract mode: an idle menu plays games by itself.
#[derive(Clone, Copy, PartialEq, Eq, Debug, Structural)]
pub struct AttractCfg {
    pub enabled: bool,
    /// idle time before the first game, seconds
    pub idle_secs: u64,
    /// pause in the menu between two games, seconds
    pub menu_secs: u64,
    /// how long a game plays, seconds
    pub game_secs: u64,
}

impl Default for AttractCfg {
    fn default() -> (r: Self)
        ensures
            r == (AttractCfg { enabled: false, idle_secs: 0, menu_secs: 0, game_secs: 0 }),
    {
        AttractCfg { enabled: false, idle_secs: 0, menu_secs: 0, game_secs: 0 }
    }
}

/// How a game is started.
#[derive(Clone, Copy, PartialEq, Eq, Debug, Structural)]
pub struct Launch {
    pub mode: RenderMode,
    /// play on a local device
    pub audio: bool,
    /// approximate the lead voice by ANSI music
    pub music: bool,
    /// stream PCM to the terminal
    pub apc: bool,
    pub color: ColorSetting,
    pub dmg_palette: DmgPalette,
}

pub open spec fn mode_or(mode: Option<RenderMode>, other: RenderMode) -> RenderMode {
    match mode {
        Some(m) => m,
        None => other,
    }
}

fn choose_mode(mode: Option<RenderMode>, other: RenderMode) -> (r: RenderMode)
    ensures
        r == mode_or(mode, other),
{
    match mode {
        Some(m) => m,
        None => other,
    }
}

/// A ROM named on the command line. There is no menu, so the color/palette defaults
/// hold.
pub fn direct_launch(
    cli_mode: Option<RenderMode>,
    force_mute: bool,
    ansi_music: bool,
    color: ColorSetting,
    dmg_palette: DmgPalette,
) -> (r: Launch)
    ensures
        r == (Launch {
            mode: mode_or(cli_mode, RenderMode::Ascii),
            audio: !force_mute,
            music: ansi_music,
            apc: false,
            color,
            dmg_palette,
        }),
        r == named_game(cli_mode, force_mute, ansi_music, color, dmg_palette),
{
    Launch {
        mode: choose_mode(cli_mode, RenderMode::Ascii),
        audio: !force_mute,
        music: ansi_music,
        apc: false,
        color,
        dmg_palette,
    }
}

/// How a game that the command line names is started.
pub open spec fn named_game(
    cli_mode: Option<RenderMode>,
    force_mute: bool,
    ansi_music: bool,
    color: ColorSetting,
    dmg_palette: DmgPalette,
) -> Launch {
    Launch {
        mode: mode_or(cli_mode, RenderMode::Ascii),
        audio: !force_mute,
        music: ansi_music,
        apc: false,
        color,
        dmg_palette,
    }
}

/// How a game chosen in the menu is started.
pub open spec fn launched(
    config: MenuConfig,
    cli_mode: Option<RenderMode>,
    force_mute: bool,
    ansi_music: bool,
) -> Launch {
    Launch {
        mode: mode_or(cli_mode, config.render_mode),
        audio: !force_mute && config.sound == SoundMode::Ansi,
        music: ansi_music && config.sound == SoundMode::Ansi,
        apc: config.sound == SoundMode::Apc,
        color: config.color,
        dmg_palette: config.dmg_palette,
    }
}

/// A game chosen in the menu. The local PCM device is only for a non-APC, non-Off
/// mode when not muted: a headless door never opens a device; APC instead streams
/// PCM to the caller.
pub fn menu_launch(
    config: &MenuConfig,
    cli_mode: Option<RenderMode>,
    force_mute: bool,
    ansi_music: bool,
) -> (r: Launch)
    ensures
        r == launched(*config, cli_mode, force_mute, ansi_music),
{
    let want_apc = config.sound == SoundMode::Apc;
    Launch {
        mode: choose_mode(cli_mode, config.render_mode),
        audio: !force_mute && config.sound != SoundMode::Off && !want_apc,
        music: ansi_music && config.sound == SoundMode::Ansi,
        apc: want_apc,
        color: config.color,
        dmg_palette: config.dmg_palette,
    }
}

/// What a session carries from one menu to the next.
pub struct Session {
    /// The next menu opens with the intro animation.
    pub animate: bool,
    /// An attract game ended on its own: the next menu is a short pause before the
    /// next one.
    pub attract_pause: bool,
    /// The caller took over an attract game: the next menu opens on that ROM rather
    /// than their last explicitly-launched one.
    pub select_rom: Option<String>,
}

/// What a session says.
#[verifier::ext_equal]
pub struct Between {
    pub animate: bool,
    pub attract_pause: bool,
    pub select_rom: Option<Seq<char>>,
}

impl View for Session {
    type V = Between;

    open spec fn view(&self) -> Between {
        Between {
            animate: self.animate,
            attract_pause: self.attract_pause,
            select_rom: match self.select_rom {
                Some(s) => Some(s@),
                None => None,
            },
        }
    }
}

/// Attract thresholds of a menu entry in seconds: (first, subsequent). A pause uses
/// the short menu interval until the caller engages, then the full idle interval.
pub open spec fn thresholds(b: Between, cfg: AttractCfg) -> Option<(u64, u64)> {
    if cfg.enabled {
        Some(
            (
                if b.attract_pause {
                    cfg.menu_secs
                } else {
                    cfg.idle_secs
                },
                cfg.idle_secs,
            ),
        )
    } else {
        None
    }
}

/// The session after a game.
pub open spec fn returned(b: Between, rom: Seq<char>, attract: bool, intervened: bool) -> Between {
    Between {
        animate: false,
        attract_pause: attract && !intervened,
        select_rom: if attract && intervened {
            Some(rom)
        } else {
            None
        },
    }
}

/// An idle menu starts a game by itself: after the first threshold, or, once the
/// caller engaged, after the second.
pub open spec fn starts_demo(t: Option<(u64, u64)>, engaged: bool, idle_secs: u64) -> bool {
    match t {
        Some((first, later)) => idle_secs >= if engaged {
            later
        } else {
            first
        },
        None => false,
    }
}

/// Whether a menu that was idle this long starts a game by itself.
pub fn attract_due(thresholds: Option<(u64, u64)>, engaged: bool, idle_secs: u64) -> (r: bool)
    ensures
        r == starts_demo(thresholds, engaged, idle_secs),
{
    match thresholds {
        Some((first, later)) => {
            let limit: u64 = if engaged {
                later
            } else {
                first
            };
            idle_secs >= limit
        },
        None => false,
    }
}

impl Session {
    /// A session whose splash was shown or not; without one, the first menu opens
    /// with the wordmark intro animation.
    pub fn new(splashed: bool) -> (r: Self)
        ensures
            r@ == (Between { animate: !splashed, attract_pause: false, select_rom: None }),
            r@ == begun(splashed),
    {
        Session { animate: !splashed, attract_pause: false, select_rom: None }
    }

    /// Attract thresholds for this menu entry: (first, subsequent), or `None` with
    /// attract mode off.
    pub fn attract_thresholds(&self, cfg: AttractCfg) -> (r: Option<(u64, u64)>)
        ensures
            r == thresholds(self@, cfg),
    {
        if cfg.enabled {
            let first: u64 = if self.attract_pause {
                cfg.menu_secs
            } else {
                cfg.idle_secs
            };
            Some((first, cfg.idle_secs))
        } else {
            None
        }
    }

    /// The ROM to open the menu on, handed out once.
    pub fn take_selection(&mut self) -> (r: Option<String>)
        ensures
            final(self)@ == (Between { select_rom: None, ..old(self)@ }),
            final(self)@ == unselected(old(self)@),
            match r {
                Some(s) => old(self)@.select_rom == Some(s@),
                None => old(self)@.select_rom is None,
            },
    {
        self.select_rom.take()
    }

    /// A game ended. An attract game that ran its full time (no takeover) queues the
    /// next one after a short menu pause; anything else is a normal return to the
    /// menu with the full idle countdown.
    pub fn game_ended(&mut self, rom: &str, attract: bool, intervened: bool)
        ensures
            final(self)@ == returned(old(self)@, rom@, attract, intervened),
    {
        self.attract_pause = attract && !intervened;
        self.select_rom = if attract && intervened {
            Some(rom.to_owned())
        } else {
            None
        };
        self.animate = false;
    }
}

// ---------------------------------------------------------------------------
// Laws
// ---------------------------------------------------------------------------

/// Whichever keyboard mode a game switched on, the end of the session switches it
/// off, also when the game itself did not.
pub proof fn law_session_end_restores_the_keyboard(mode: KeyboardMode)
    ensures
        text::has_part(end_text(), keyboard_off_text(mode)),
{
    reveal_strlit("");
    let cterm = keyboard_off_text(KeyboardMode::CtermPhysical);
    let off = keyboard_off_text(mode);
    let at: int = if mode == KeyboardMode::Kitty {
        cterm.len() as int
    } else {
        0
    };
    assert(end_text().subrange(at, at + off.len()) =~= off);
}

/// The streamed sound is never mixed with another, a muted door opens no device, and
/// no sound is none.
pub proof fn law_one_sound_at_a_time(
    config: MenuConfig,
    cli_mode: Option<RenderMode>,
    force_mute: bool,
    ansi_music: bool,
)
    ensures
        ({
            let r = launched(config, cli_mode, force_mute, ansi_music);
            &&& r.apc ==> !r.audio && !r.music
            &&& force_mute ==> !r.audio
            &&& config.sound == SoundMode::Off ==> !r.audio && !r.music && !r.apc
        }),
{
}

/// Attract games follow one another at the short interval only as long as nobody
/// takes over; a caller who does comes back to that ROM and to the full countdown.
pub proof fn law_takeover_ends_the_demo(b: Between, rom: Seq<char>, cfg: AttractCfg)
    requires
        cfg.enabled,
    ensures
        thresholds(returned(b, rom, true, false), cfg) == Some((cfg.menu_secs, cfg.idle_secs)),
        thresholds(returned(b, rom, true, true), cfg) == Some((cfg.idle_secs, cfg.idle_secs)),
        forall|engaged: bool, idle: u64|
            #[trigger] starts_demo(thresholds(returned(b, rom, true, true), cfg), engaged, idle)
                <==> idle >= cfg.idle_secs,
        returned(b, rom, true, true).select_rom == Some(rom),
        returned(b, rom, true, false).select_rom is None,
        returned(b, rom, false, true) == (Between {
            animate: false,
            attract_pause: false,
            select_rom: None,
        }),
{
}

/// What a game from the menu starts with: the graphics of the command line before those
/// of the menu; ANSI music where it is chosen and offered, a local device where it is
/// chosen and not muted, the stream where that is chosen; the colors of the menu.
pub proof fn law_launch_follows_the_choices(
    config: MenuConfig,
    cli_mode: Option<RenderMode>,
    force_mute: bool,
    ansi_music: bool,
)
    ensures
        ({
            let r = launched(config, cli_mode, force_mute, ansi_music);
            &&& cli_mode matches Some(mode) ==> r.mode == mode
            &&& cli_mode is None ==> r.mode == config.render_mode
            &&& r.music <==> config.sound == SoundMode::Ansi && ansi_music
            &&& r.audio <==> config.sound == SoundMode::Ansi && !force_mute
            &&& r.apc <==> config.sound == SoundMode::Apc
            &&& r.color == config.color && r.dmg_palette == config.dmg_palette
        }),
{
}

/// A game that the command line names starts in ASCII unless it says otherwise, with
/// music where that is offered, on a local device unless it is muted, and never streamed.
pub proof fn law_named_game(
    cli_mode: Option<RenderMode>,
    force_mute: bool,
    ansi_music: bool,
    color: ColorSetting,
    dmg_palette: DmgPalette,
)
    ensures
        ({
            let r = named_game(cli_mode, force_mute, ansi_music, color, dmg_palette);
            &&& r.mode == RenderMode::Ascii <==> cli_mode != Some(RenderMode::Block)
            &&& r.audio == !force_mute && r.music == ansi_music && !r.apc
            &&& r.color == color && r.dmg_palette == dmg_palette
        }),
{
}

/// The session turns to the alternate screen without a cursor and without wrapping, and
/// its end undoes each of the three.
pub proof fn law_session_end_undoes_its_start()
    ensures
        text::has_part(start_text(), "\x1b[?1049h"@) && text::has_part(end_text(), "\x1b[?1049l"@),
        text::has_part(start_text(), "\x1b[?25l"@) && text::has_part(end_text(), "\x1b[?25h"@),
        text::has_part(start_text(), "\x1b[?7l"@) && text::has_part(end_text(), "\x1b[?7h"@),
        text::has_part(start_text(), "\x1b[2J"@),
{
    let (a, b, c, d) = ("\x1b[?1049h"@, "\x1b[?25l"@, "\x1b[2J"@, "\x1b[?7l"@);
    let none = Seq::<char>::empty();
    lemma_part_between(none, a, b + c + d);
    lemma_part_between(a, b, c + d);
    lemma_part_between(a + b, c, d);
    lemma_part_between(a + b + c, d, none);
    assert(start_text() == none + a + (b + c + d));
    assert(start_text() == a + b + (c + d));
    assert(start_text() == a + b + c + d);
    assert(start_text() == a + b + c + d + none);
    let (p, q) = (
        keyboard_off_text(KeyboardMode::CtermPhysical),
        keyboard_off_text(KeyboardMode::Kitty),
    );
    let (x, y, z) = ("\x1b[?7h"@, "\x1b[?25h"@, "\x1b[?1049l"@);
    lemma_part_between(p + q, x, y + z);
    lemma_part_between(p + q + x, y, z);
    lemma_part_between(p + q + x + y, z, none);
    assert(end_text() == p + q + x + (y + z));
    assert(end_text() == p + q + x + y + z);
    assert(end_text() == p + q + x + y + z + none);
}

proof fn lemma_part_between(a: Seq<char>, p: Seq<char>, b: Seq<char>)
    ensures
        text::has_part(a + p + b, p),
{
    let s = a + p + b;
    let i = a.len() as int;
    assert(s.subrange(i, i + p.len()) == p);
}

/// Key edges come in both enhanced modes; what switches a mode on and off again differs in
/// the last letter (set and reset) or in the direction (push and pop); the plain mode needs
/// neither.
pub proof fn law_keyboard_modes()
    ensures
        has_edges(KeyboardMode::CtermPhysical) && has_edges(KeyboardMode::Kitty) && !has_edges(
            KeyboardMode::Legacy,
        ),
        keyboard_on_text(KeyboardMode::CtermPhysical) == "\x1b[=1h\x1b[=2h"@,
        keyboard_off_text(KeyboardMode::CtermPhysical) == "\x1b[=1l\x1b[=2l"@,
        keyboard_on_text(KeyboardMode::Kitty) == "\x1b[>10u"@,
        keyboard_off_text(KeyboardMode::Kitty) == "\x1b[<u"@,
        keyboard_on_text(KeyboardMode::Legacy).len() == 0,
        keyboard_off_text(KeyboardMode::Legacy).len() == 0,
{
    reveal_strlit("");
}

/// The size probe puts the cursor where no terminal reaches and asks for its position;
/// with it the capabilities are asked for as long as they are not known, the plain device
/// attributes last.
pub proof fn law_size_probe(with_caps: bool)
    ensures
        probe_text(false) == "\x1b[9999;9999H\x1b[6n"@,
        probe_text(true)
            == "\x1b[9999;9999H\x1b[6n\x1b[<c\x1b[?u\x1b[38;2;1;2;3m\x1bP$qm\x1b\\\x1b[0m\x1b[c"@,
{
    reveal_strlit("\x1b[9999;9999H\x1b[6n");
    reveal_strlit(
        "\x1b[9999;9999H\x1b[6n\x1b[<c\x1b[?u\x1b[38;2;1;2;3m\x1bP$qm\x1b\\\x1b[0m\x1b[c",
    );
    reveal_strlit("\x1b[<c\x1b[?u\x1b[38;2;1;2;3m\x1bP$qm\x1b\\\x1b[0m\x1b[c");
    reveal_strlit("\x1b[6n");
    reveal_strlit("\x1b[");
    reveal_strlit(";");
    reveal_strlit("H");
    reveal_with_fuel(text::decimal, 5);
    assert(text::decimal(9999) == seq!['9', '9', '9', '9']);
    assert(probe_text(false) =~= "\x1b[9999;9999H\x1b[6n"@);
    assert(probe_text(true)
        =~= "\x1b[9999;9999H\x1b[6n\x1b[<c\x1b[?u\x1b[38;2;1;2;3m\x1bP$qm\x1b\\\x1b[0m\x1b[c"@);
}

/// A terminal is asked for a size as `ESC [ 8 ; rows ; columns t`.
pub proof fn law_size_request(rows: u16, cols: u16)
    ensures
        text::bytes_of(resize_text(rows, cols)) == crate::renderer::control(
            seq![8, rows as nat, cols as nat],
            't',
        ),
{
    reveal_strlit("\x1b[8;");
    reveal_strlit("\x1b[");
    reveal_strlit(";");
    reveal_strlit("t");
    reveal_with_fuel(text::decimal, 2);
    reveal_with_fuel(crate::renderer::separated, 3);
    let p = seq![8, rows as nat, cols as nat];
    assert(p.drop_last() == seq![8, rows as nat]);
    assert(seq![8, rows as nat].drop_last() == seq![8nat]);
    assert(text::decimal(8) == seq!['8']);
    assert(text::bytes_of(resize_text(rows, cols)) =~= crate::renderer::control(p, 't'));
}

/// Replies are awaited for at most 300 ms, and no longer than they take.
pub proof fn law_detection_ends(resolved: bool, waited: u64)
    ensures
        is_detecting(resolved, waited) <==> !resolved && waited < 300_000_000,
{
}

/// A demo starts after the idle time, where demos are on: the first after the pause
/// between two of them when one has just ended and no key came since, else after the full
/// countdown. Where they are off none ever starts.
pub proof fn law_demos_start_when_idle(b: Between, cfg: AttractCfg, engaged: bool, idle: u64)
    ensures
        !cfg.enabled ==> !starts_demo(thresholds(b, cfg), engaged, idle),
        cfg.enabled ==> (starts_demo(thresholds(b, cfg), engaged, idle) <==> idle >= (
        if b.attract_pause && !engaged {
            cfg.menu_secs
        } else {
            cfg.idle_secs
        })),
{
}

/// The state before the first menu.
pub open spec fn begun(splashed: bool) -> Between {
    Between { animate: !splashed, attract_pause: false, select_rom: None }
}

/// The state with its selection taken.
pub open spec fn unselected(b: Between) -> Between {
    Between { select_rom: None, ..b }
}

/// The first menu is animated unless a splash was shown, counts the full idle time and
/// selects no game. A selection is taken once, which changes nothing else.
pub proof fn law_first_menu(splashed: bool, b: Between)
    ensures
        begun(splashed).animate <==> !splashed,
        !begun(splashed).attract_pause && begun(splashed).select_rom is None,
        unselected(b).select_rom is None,
        unselected(b).animate == b.animate && unselected(b).attract_pause == b.attract_pause,
{
}

} // verus!
