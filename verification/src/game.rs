//! The decisions of a running game: which buttons go down and up, when the emulator
//! advances, when a frame, a probe or a resync is due, and when the game ends. The
//! emulator itself, the terminal and the clock are the caller's.
//!
//! Times are nanoseconds of one monotonic clock.

use crate::apc_audio;
use crate::apc_audio::ApcAudio;
use crate::input;
use crate::input::{Button, BUTTON_COUNT, EVDEV_ESC, EVDEV_Q};
use crate::keys;
use crate::keys::{Decoder, Input, Key, KeyEdge};
use crate::pace;
use crate::pace::LinkPace;
use crate::renderer;
use crate::renderer::{Canvas, Renderer};
use crate::session;
use vstd::prelude::*;

verus! {

/// Clocks stay below this (over a century).
pub const CLOCK_LIMIT_NS: u64 = 0x4000_0000_0000_0000;

/// A second.
pub const SECOND_NS: u64 = 1_000_000_000;

/// One Game Boy frame at 60 per second. This paces the *emulator*: the game always
/// runs at full Game Boy speed.
pub const FRAME_NS: u64 = 16_666_667;

/// Frames repaid per turn; beyond that the simulation clock resyncs (bounded).
pub const MAX_CATCHUP: u32 = 12;

/// No key-up events arrive over a BBS connection, so buttons release by timeout,
/// long enough to span auto-repeat gaps.
pub const BUTTON_TIMEOUT_NS: u64 = 150_000_000;

/// Periodic keyframe: a full (clear-less) repaint every few seconds so a cell
/// corrupted by line noise on a lossy link self-heals; delta encoding otherwise only
/// repaints cells the game itself changes.
pub const KEYFRAME_NS: u64 = 7_000_000_000;

/// Turns before local playback starts, to avoid initial underruns.
pub const PREBUFFER_TURNS: u32 = 3;

/// A change of a button.
#[derive(Clone, Copy, PartialEq, Eq, Debug, Structural)]
pub enum Act {
    Press(Button),
    Release(Button),
}

/// How a turn of the game loop goes on after its input.
#[derive(Clone, Copy, PartialEq, Eq, Debug, Structural)]
pub enum Turn {
    /// The caller took over: start the next turn at once.
    Again,
    /// The game is over.
    End,
    /// Emulate, play and paint.
    Go,
}

/// What a game starts with.
#[derive(Clone, Copy, PartialEq, Eq, Debug, Structural)]
pub struct GameStart {
    /// The keyboard protocol sends key edges.
    pub edge_input: bool,
    /// Sound plays on a local device.
    pub audio: bool,
    /// Least time between two transmitted frames.
    pub render_interval: u64,
    /// Seconds between two hard resyncs of streamed audio; 0 disables them.
    pub resync_secs: u32,
    /// Run for at most this many seconds, and treat any key as the caller taking
    /// over.
    pub attract_secs: Option<u64>,
}

/// What the terminal's reports come to.
pub struct Reports {
    /// The audio FIFO drained (underrun).
    pub drained: bool,
    /// A size probe to send.
    pub probe: Option<String>,
}

/// Frames transmitted in a time.
#[derive(Clone, Copy, PartialEq, Eq, Debug, Structural)]
pub struct Rate {
    pub frames: u32,
    pub elapsed: u64,
}

/// What follows a transmitted frame.
#[derive(Clone, Copy, PartialEq, Eq, Debug, Structural)]
pub struct FrameSent {
    /// Once a second: the rate at which frames went out.
    pub rate: Option<Rate>,
    /// The status line has to be drawn.
    pub redraw: bool,
}

// ---------------------------------------------------------------------------
// Model
// ---------------------------------------------------------------------------

/// What a game knows.
#[verifier::ext_equal]
pub struct Play {
    pub edge_input: bool,
    pub running: bool,
    // Attract mode.
    pub attract: bool,
    pub attract_active: bool,
    pub deadline: Option<u64>,
    pub intervened: bool,
    /// When each button was last seen, to release it on timeout.
    pub seen: Seq<Option<u64>>,
    /// Buttons the terminal drives via real key edges.
    pub edge_driven: Seq<bool>,
    // Simulation and transmission.
    pub sim_deadline: u64,
    pub render_interval: u64,
    pub last_render: Option<u64>,
    pub pace: LinkPace,
    pub keyframe_at: u64,
    pub frames: u32,
    pub fps_at: u64,
    pub redraw: bool,
    // Terminal size, columns first.
    pub probed_at: u64,
    pub size: (u16, u16),
    // Audio.
    pub resync_interval: Option<u64>,
    pub resynced_at: u64,
    pub logged_at: u64,
    pub prebuffer: u32,
}

/// Time passed since `t`.
pub open spec fn since(now: u64, t: u64) -> int {
    if now < t {
        0
    } else {
        now - t
    }
}

/// Every button has its place; clocks are within their limit.
pub open spec fn is_valid(p: Play) -> bool {
    &&& p.seen.len() == BUTTON_COUNT
    &&& p.edge_driven.len() == BUTTON_COUNT
    &&& p.sim_deadline <= 2 * CLOCK_LIMIT_NS
}

/// A game that starts.
pub open spec fn started(s: GameStart, now: u64) -> Play {
    Play {
        edge_input: s.edge_input,
        running: true,
        attract: s.attract_secs is Some,
        attract_active: s.attract_secs is Some,
        deadline: match s.attract_secs {
            Some(secs) => Some((now + secs * SECOND_NS) as u64),
            None => None,
        },
        intervened: false,
        seen: Seq::new(8, |i: int| None),
        edge_driven: Seq::new(8, |i: int| false),
        sim_deadline: now,
        render_interval: s.render_interval,
        last_render: None,
        pace: LinkPace { budget: s.render_interval, skip: 0 },
        keyframe_at: now,
        frames: 0,
        fps_at: now,
        redraw: true,
        probed_at: now,
        size: (80, 24),
        resync_interval: if s.resync_secs == 0 {
            None
        } else {
            Some((s.resync_secs * SECOND_NS) as u64)
        },
        resynced_at: now,
        logged_at: now,
        prebuffer: if s.audio {
            PREBUFFER_TURNS
        } else {
            0
        },
    }
}

/// A button not seen within the timeout.
pub open spec fn lapsed(seen: Option<u64>, now: u64) -> bool {
    seen matches Some(t) && since(now, t) > BUTTON_TIMEOUT_NS
}

/// What is still held of the buttons.
pub open spec fn still_seen(seen: Seq<Option<u64>>, now: u64) -> Seq<Option<u64>> {
    Seq::new(
        seen.len(),
        |i: int|
            if lapsed(seen[i], now) {
                None
            } else {
                seen[i]
            },
    )
}

/// The releases of the first `n` buttons' timeouts.
pub open spec fn releases(seen: Seq<Option<u64>>, now: u64, n: nat) -> Seq<Act>
    decreases n,
{
    if n == 0 {
        Seq::empty()
    } else {
        let before = releases(seen, now, (n - 1) as nat);
        if lapsed(seen[n - 1], now) {
            before.push(Act::Release(input::button_of(n - 1)))
        } else {
            before
        }
    }
}

/// The game after a key edge: exact press/release of a button, or a quit key.
pub open spec fn on_edge(p: Play, e: KeyEdge) -> (Play, Seq<Act>) {
    match input::button_of_code(e.code) {
        Some(b) => (
            Play { edge_driven: p.edge_driven.update(input::index_of(b), true), ..p },
            seq![
                if e.pressed {
                    Act::Press(b)
                } else {
                    Act::Release(b)
                },
            ],
        ),
        None => (
            if e.pressed && (e.code == EVDEV_ESC || e.code == EVDEV_Q) {
                Play { running: false, ..p }
            } else {
                p
            },
            Seq::empty(),
        ),
    }
}

pub open spec fn on_edges(p: Play, edges: Seq<KeyEdge>) -> (Play, Seq<Act>)
    decreases edges.len(),
{
    if edges.len() == 0 {
        (p, Seq::empty())
    } else {
        let (q, acts) = on_edges(p, edges.drop_last());
        let (r, more) = on_edge(q, edges.last());
        (r, acts + more)
    }
}

pub open spec fn is_quit(key: Key) -> bool {
    key == Key::Esc || key == Key::Char('q') || key == Key::Char('Q')
}

/// The game after a translated key. A button that is driven by precise edges drops
/// its translated duplicate so it doesn't double-fire.
pub open spec fn on_key(p: Play, key: Key, now: u64) -> (Play, Seq<Act>) {
    match input::button_of_key(key) {
        Some(b) => {
            let i = input::index_of(b);
            if p.edge_driven[i] {
                (p, Seq::empty())
            } else {
                (
                    Play { seen: p.seen.update(i, Some(now)), ..p },
                    if p.seen[i] is None {
                        seq![Act::Press(b)]
                    } else {
                        Seq::empty()
                    },
                )
            }
        },
        None => (p, Seq::empty()),
    }
}

/// The game after translated keys: up to a quit key, which ends it.
pub open spec fn on_keys(p: Play, keys: Seq<Key>, now: u64) -> (Play, Seq<Act>)
    decreases keys.len(),
{
    if keys.len() == 0 {
        (p, Seq::empty())
    } else if is_quit(keys[0]) {
        (Play { running: false, ..p }, Seq::empty())
    } else {
        let (q, acts) = on_key(p, keys[0], now);
        let (r, more) = on_keys(q, keys.skip(1), now);
        (r, acts + more)
    }
}

/// A caller takes over an attract game: it goes on as a normal session.
pub open spec fn taken_over(p: Play) -> Play {
    Play { attract_active: false, deadline: None, intervened: true, redraw: true, ..p }
}

/// The attract time limit.
pub open spec fn timed(p: Play, now: u64) -> Play {
    match p.deadline {
        Some(d) => if now >= d {
            Play { running: false, ..p }
        } else {
            p
        },
        None => p,
    }
}

/// The input part of a turn.
pub open spec fn controlled(p: Play, keys: Seq<Key>, edges: Seq<KeyEdge>, now: u64) -> (
    Play,
    Seq<Act>,
    Turn,
) {
    let held = Play { seen: still_seen(p.seen, now), ..p };
    let lapses = releases(p.seen, now, 8);
    if p.attract_active && (keys.len() > 0 || edges.len() > 0) {
        (taken_over(held), lapses, Turn::Again)
    } else {
        let (q, acts) = on_edges(timed(held, now), edges);
        let (r, more) = on_keys(q, keys, now);
        (
            r,
            lapses + acts + more,
            if r.running {
                Turn::Go
            } else {
                Turn::End
            },
        )
    }
}

/// The edges that a poll brought, for a protocol that sends them.
pub open spec fn edges_of(p: Play, d: Decoder) -> Seq<KeyEdge> {
    if p.edge_input {
        d.key_edges
    } else {
        Seq::empty()
    }
}

/// The decoder once its edges were taken.
pub open spec fn edges_taken(p: Play, d: Decoder) -> Decoder {
    if p.edge_input {
        Decoder { key_edges: Seq::empty(), ..d }
    } else {
        d
    }
}

/// A new terminal size, columns first, if a report (row, col) brought one.
pub open spec fn new_size(p: Play, report: Option<(u16, u16)>) -> Option<(u16, u16)> {
    match report {
        Some((row, col)) => if row > 0 && col > 0 && (col, row) != p.size {
            Some((col, row))
        } else {
            None
        },
        None => None,
    }
}

/// A probe is due about once a second, but not while the link is saturated (its
/// blocking write would stall the loop just like a frame).
pub open spec fn probe_due(p: Play, now: u64) -> bool {
    p.pace.skip == 0 && since(now, p.probed_at) >= SECOND_NS
}

/// The game after the terminal's reports.
pub open spec fn reported(p: Play, report: Option<(u16, u16)>, now: u64) -> Play {
    let sized = match new_size(p, report) {
        Some(size) => Play { size, redraw: true, ..p },
        None => p,
    };
    if probe_due(p, now) {
        Play { probed_at: now, ..sized }
    } else {
        sized
    }
}

/// The canvas after the terminal's reports.
pub open spec fn refitted(c: Canvas, size: Option<(u16, u16)>) -> Canvas {
    match size {
        Some((cols, rows)) => Canvas {
            geometry: renderer::fitted(cols as int, rows as int),
            needs_clear: true,
            ..c
        },
        None => c,
    }
}

/// A Game Boy frame has come due.
pub open spec fn frame_is_due(p: Play, frames_run: u32, now: u64) -> bool {
    now >= p.sim_deadline && frames_run < MAX_CATCHUP
}

/// The game once that frame was counted.
pub open spec fn stepped(p: Play, frames_run: u32, now: u64) -> Play {
    if frame_is_due(p, frames_run, now) {
        Play { sim_deadline: (p.sim_deadline + FRAME_NS) as u64, ..p }
    } else {
        p
    }
}

/// The game after a turn: a backlog that was too long to repay is dropped.
pub open spec fn repaid(p: Play, frames_run: u32, now: u64) -> Play {
    if frames_run >= MAX_CATCHUP {
        Play { sim_deadline: now, ..p }
    } else {
        p
    }
}

/// A hard resync of streamed audio is due.
pub open spec fn resync_due(p: Play, now: u64) -> bool {
    p.resync_interval matches Some(iv) && since(now, p.resynced_at) >= iv
}

/// A turn of filling the device's buffer: whether playback starts with it.
pub open spec fn buffered(p: Play) -> (Play, bool) {
    (
        if p.prebuffer > 0 {
            Play { prebuffer: (p.prebuffer - 1) as u32, ..p }
        } else {
            p
        },
        p.prebuffer == 1,
    )
}

/// A frame is painted and sent: one is due, and the link is not being spared.
pub open spec fn paints(p: Play, frames_run: u32, now: u64) -> bool {
    transmit_due(p, frames_run, now) && p.pace.skip == 0
}

/// It is time to repaint every cell.
pub open spec fn keyframe_due(p: Play, now: u64) -> bool {
    since(now, p.keyframe_at) >= KEYFRAME_NS
}

/// How long to sleep: until the next frame, and no longer than one takes.
pub open spec fn rest(p: Play, now: u64) -> int {
    if p.sim_deadline <= now {
        0
    } else if p.sim_deadline - now < FRAME_NS {
        p.sim_deadline - now
    } else {
        FRAME_NS as int
    }
}

/// A transmission of the current frame is due.
pub open spec fn transmit_due(p: Play, frames_run: u32, now: u64) -> bool {
    frames_run > 0 && match p.last_render {
        Some(t) => since(now, t) >= p.render_interval,
        None => true,
    }
}

/// The game once a frame was begun, or skipped to let the link recover.
pub open spec fn begun(p: Play, now: u64) -> Play {
    let q = Play { last_render: Some(now), ..p };
    if p.pace.skip > 0 {
        Play { pace: LinkPace { skip: (p.pace.skip - 1) as u32, ..p.pace }, ..q }
    } else if since(now, p.keyframe_at) >= KEYFRAME_NS {
        Play { keyframe_at: now, ..q }
    } else {
        q
    }
}

/// The game once a frame was transmitted.
pub open spec fn sent(p: Play, now: u64) -> (Play, FrameSent) {
    let elapsed = since(now, p.fps_at);
    if elapsed >= SECOND_NS {
        (
            Play { frames: 0, fps_at: now, redraw: false, ..p },
            FrameSent { rate: Some(Rate { frames: (p.frames + 1) as u32, elapsed: elapsed as u64 }), redraw: true },
        )
    } else {
        (
            Play { frames: (p.frames + 1) as u32, redraw: false, ..p },
            FrameSent { rate: None, redraw: p.redraw },
        )
    }
}

// ---------------------------------------------------------------------------
// Executable side
// ---------------------------------------------------------------------------

pub struct Game {
    edge_input: bool,
    running: bool,
    attract: bool,
    attract_active: bool,
    deadline: Option<u64>,
    intervened: bool,
    seen: Vec<Option<u64>>,
    edge_driven: Vec<bool>,
    sim_deadline: u64,
    render_interval: u64,
    last_render: Option<u64>,
    pace: LinkPace,
    keyframe_at: u64,
    frames: u32,
    fps_at: u64,
    redraw: bool,
    probed_at: u64,
    size: (u16, u16),
    resync_interval: Option<u64>,
    resynced_at: u64,
    logged_at: u64,
    prebuffer: u32,
}

impl View for Game {
    type V = Play;

    closed spec fn view(&self) -> Play {
        Play {
            edge_input: self.edge_input,
            running: self.running,
            attract: self.attract,
            attract_active: self.attract_active,
            deadline: self.deadline,
            intervened: self.intervened,
            seen: self.seen@,
            edge_driven: self.edge_driven@,
            sim_deadline: self.sim_deadline,
            render_interval: self.render_interval,
            last_render: self.last_render,
            pace: self.pace,
            keyframe_at: self.keyframe_at,
            frames: self.frames,
            fps_at: self.fps_at,
            redraw: self.redraw,
            probed_at: self.probed_at,
            size: self.size,
            resync_interval: self.resync_interval,
            resynced_at: self.resynced_at,
            logged_at: self.logged_at,
            prebuffer: self.prebuffer,
        }
    }
}

impl Game {
    /// A game that starts at `now`. The first frame is rendered at once; the size is
    /// a sane default that the live probe refines.
    pub fn new(s: GameStart, now: u64) -> (r: Self)
        requires
            now <= CLOCK_LIMIT_NS,
            s.attract_secs matches Some(secs) ==> secs <= 0xffff_ffff,
        ensures
            r@ == started(s, now),
            is_valid(r@),
    {
        let mut seen: Vec<Option<u64>> = Vec::new();
        let mut edge_driven: Vec<bool> = Vec::new();
        let mut i: usize = 0;
        while i < BUTTON_COUNT
            invariant
                i <= BUTTON_COUNT,
                seen@ == Seq::new(i as nat, |i: int| None::<u64>),
                edge_driven@ == Seq::new(i as nat, |i: int| false),
            decreases BUTTON_COUNT - i,
        {
            seen.push(None);
            edge_driven.push(false);
            i += 1;
        }
        let r = Game {
            edge_input: s.edge_input,
            running: true,
            attract: s.attract_secs.is_some(),
            attract_active: s.attract_secs.is_some(),
            deadline: match s.attract_secs {
                Some(secs) => Some(now + secs * SECOND_NS),
                None => None,
            },
            intervened: false,
            seen,
            edge_driven,
            sim_deadline: now,
            render_interval: s.render_interval,
            last_render: None,
            pace: LinkPace::new(s.render_interval),
            keyframe_at: now,
            frames: 0,
            fps_at: now,
            redraw: true,
            probed_at: now,
            size: (80, 24),
            resync_interval: if s.resync_secs == 0 {
                None
            } else {
                Some(s.resync_secs as u64 * SECOND_NS)
            },
            resynced_at: now,
            logged_at: now,
            prebuffer: if s.audio {
                PREBUFFER_TURNS
            } else {
                0
            },
        };
        r
    }

    /// Release any button not seen within the timeout.
    fn release_lapsed(&mut self, now: u64) -> (acts: Vec<Act>)
        requires
            is_valid(old(self)@),
        ensures
            final(self)@ == (Play { seen: still_seen(old(self)@.seen, now), ..old(self)@ }),
            acts@ == releases(old(self)@.seen, now, 8),
    {
        let ghost p = self@;
        let mut acts: Vec<Act> = Vec::new();
        let mut i: usize = 0;
        while i < BUTTON_COUNT
            invariant
                i <= BUTTON_COUNT,
                p.seen.len() == BUTTON_COUNT,
                self@ == (Play { seen: self@.seen, ..p }),
                self@.seen.len() == BUTTON_COUNT,
                forall|j: int|
                    0 <= j < i ==> #[trigger] self@.seen[j] == still_seen(p.seen, now)[j],
                forall|j: int| i <= j < BUTTON_COUNT ==> #[trigger] self@.seen[j] == p.seen[j],
                acts@ == releases(p.seen, now, i as nat),
            decreases BUTTON_COUNT - i,
        {
            if let Some(t) = self.seen[i] {
                if now.saturating_sub(t) > BUTTON_TIMEOUT_NS {
                    self.seen.set(i, None);
                    acts.push(Act::Release(input::button_at(i)));
                }
            }
            i += 1;
        }
        acts
    }

    fn on_edges(&mut self, edges: &[KeyEdge], acts: &mut Vec<Act>)
        requires
            is_valid(old(self)@),
        ensures
            final(self)@ == on_edges(old(self)@, edges@).0,
            final(acts)@ == old(acts)@ + on_edges(old(self)@, edges@).1,
            is_valid(final(self)@),
    {
        let ghost p = self@;
        let ghost a = acts@;
        let mut i: usize = 0;
        while i < edges.len()
            invariant
                i <= edges@.len(),
                is_valid(self@),
                self@ == on_edges(p, edges@.take(i as int)).0,
                acts@ == a + on_edges(p, edges@.take(i as int)).1,
            decreases edges.len() - i,
        {
            let edge = edges[i];
            assert(edges@.take(i + 1).drop_last() =~= edges@.take(i as int));
            match input::evdev_to_button(edge.code) {
                Some(button) => {
                    self.edge_driven.set(input::button_index(button), true);
                    if edge.pressed {
                        acts.push(Act::Press(button));
                    } else {
                        acts.push(Act::Release(button));
                    }
                },
                None => {
                    if edge.pressed && (edge.code == EVDEV_ESC || edge.code == EVDEV_Q) {
                        self.running = false;
                    }
                },
            }
            i += 1;
        }
        assert(edges@.take(i as int) =~= edges@);
    }

    fn on_keys(&mut self, keys: &[Key], now: u64, acts: &mut Vec<Act>)
        requires
            is_valid(old(self)@),
        ensures
            final(self)@ == on_keys(old(self)@, keys@, now).0,
            final(acts)@ == old(acts)@ + on_keys(old(self)@, keys@, now).1,
            is_valid(final(self)@),
    {
        let ghost p = self@;
        let ghost a = acts@;
        let ghost whole = on_keys(p, keys@, now);
        let mut i: usize = 0;
        assert(keys@.skip(0) =~= keys@);
        while i < keys.len()
            invariant
                i <= keys@.len(),
                is_valid(self@),
                whole.0 == on_keys(self@, keys@.skip(i as int), now).0,
                a + whole.1 == acts@ + on_keys(self@, keys@.skip(i as int), now).1,
                whole == on_keys(p, keys@, now),
                p == old(self)@,
                a == old(acts)@,
            decreases keys.len() - i,
        {
            let key = keys[i];
            assert(keys@.skip(i as int).skip(1) =~= keys@.skip(i + 1));
            if key == Key::Esc || key == Key::Char('q') || key == Key::Char('Q') {
                self.running = false;
                return;
            }
            if let Some(button) = input::map_key_to_button(key) {
                let idx: usize = input::button_index(button);
                // This button is driven by precise edges: drop the translated
                // duplicate so it doesn't double-fire.
                if !self.edge_driven[idx] {
                    let is_new = self.seen[idx].is_none();
                    self.seen.set(idx, Some(now));
                    if is_new {
                        acts.push(Act::Press(button));
                    }
                }
            }
            i += 1;
        }
    }

    /// The input part of a turn: decode what a read brought and act on it. Returns
    /// the button changes in order, and how the turn goes on.
    ///
    /// In attract mode any real input (translated key or physical edge; probe replies
    /// never surface here) hands the caller the controls: the game stays, the timer
    /// is dropped, the status line switches back to the hints, and this input is
    /// consumed so the wake key itself doesn't act or quit.
    #[verifier::rlimit(40)]
    pub fn control(&mut self, input: &mut Input, bytes: &[u8], now: u64) -> (r: (Vec<Act>, Turn))
        requires
            is_valid(old(self)@),
        ensures
            ({
                let (d, keys) = keys::polled(old(input)@, bytes@);
                &&& final(input)@ == edges_taken(old(self)@, d)
                &&& (final(self)@, r.0@, r.1) == controlled(
                    old(self)@,
                    keys,
                    edges_of(old(self)@, d),
                    now,
                )
            }),
            is_valid(final(self)@),
    {
        let mut acts = self.release_lapsed(now);
        let keys = input.poll(bytes);
        let edges: Vec<KeyEdge> = if self.edge_input {
            input.take_key_edges()
        } else {
            Vec::new()
        };
        if self.attract_active && (keys.len() > 0 || edges.len() > 0) {
            self.attract_active = false;
            self.deadline = None;
            self.intervened = true;
            self.redraw = true;
            return (acts, Turn::Again);
        }
        // Attract time limit reached with no takeover: end the demo.
        if let Some(deadline) = self.deadline {
            if now >= deadline {
                self.running = false;
            }
        }
        // Enhanced key edges: exact press/release and simultaneous keys. Empty when
        // the terminal isn't sending them.
        self.on_edges(edges.as_slice(), &mut acts);
        // Translated keys: the universal path, identical to the menu's.
        self.on_keys(keys.as_slice(), now, &mut acts);
        let turn = if self.running {
            Turn::Go
        } else {
            Turn::End
        };
        (acts, turn)
    }

    /// Apply what the terminal reported since: an audio drain, a new size (the probe
    /// was answered); and re-probe about once a second. The capability probes stay
    /// folded in until keyboard detection resolves.
    pub fn reports(&mut self, input: &mut Input, renderer: &mut Renderer, now: u64) -> (r: Reports)
        requires
            is_valid(old(self)@),
            old(renderer).wf(),
        ensures
            final(self)@ == reported(old(self)@, old(input)@.cursor, now),
            final(input)@ == (Decoder { audio_drain: None, cursor: None, ..old(input)@ }),
            final(renderer)@ == refitted(
                old(renderer)@,
                new_size(old(self)@, old(input)@.cursor),
            ),
            final(renderer).wf(),
            r.drained == (old(input)@.audio_drain is Some),
            match r.probe {
                Some(s) => probe_due(old(self)@, now) && s@ == session::probe_text(
                    !old(input)@.da1_seen,
                ),
                None => !probe_due(old(self)@, now),
            },
            is_valid(final(self)@),
    {
        let drained = input.take_audio_drain().is_some();
        // Row;col of the report to cols, rows.
        if let Some((row, col)) = input.take_cursor() {
            if col > 0 && row > 0 && (col != self.size.0 || row != self.size.1) {
                self.size = (col, row);
                renderer.update_dimensions(col, row);
                self.redraw = true;  // the resize cleared the old status bar
            }
        }
        let mut probe: Option<String> = None;
        if !self.pace.skipping() && now.saturating_sub(self.probed_at) >= SECOND_NS {
            self.probed_at = now;
            probe = Some(session::send_size_probe(!input.caps_resolved()));
        }
        Reports { drained, probe }
    }

    /// Whether to emulate another Game Boy frame in this turn: every frame whose
    /// wall-clock time has come, up to a bound. Repays sleep overshoot / brief loop
    /// stalls by emulating extra frames, so game speed and audio production stay at
    /// realtime.
    pub fn frame_due(&mut self, frames_run: u32, now: u64) -> (r: bool)
        requires
            is_valid(old(self)@),
            now <= CLOCK_LIMIT_NS,
        ensures
            r == frame_is_due(old(self)@, frames_run, now),
            final(self)@ == (if r {
                Play {
                    sim_deadline: (old(self)@.sim_deadline + FRAME_NS) as u64,
                    ..old(self)@
                }
            } else {
                old(self)@
            }),
            final(self)@ == stepped(old(self)@, frames_run, now),
            is_valid(final(self)@),
    {
        if now >= self.sim_deadline && frames_run < MAX_CATCHUP {
            self.sim_deadline = self.sim_deadline + FRAME_NS;
            true
        } else {
            false
        }
    }

    /// The frames of this turn are done. Where that was all that may be repaid (or
    /// after a long stall), resync so that emulation doesn't spiral. This is the only
    /// place sim time is dropped (a bounded audio gap).
    pub fn frames_done(&mut self, frames_run: u32, now: u64)
        requires
            is_valid(old(self)@),
            now <= CLOCK_LIMIT_NS,
        ensures
            final(self)@ == (if frames_run >= MAX_CATCHUP {
                Play { sim_deadline: now, ..old(self)@ }
            } else {
                old(self)@
            }),
            final(self)@ == repaid(old(self)@, frames_run, now),
            is_valid(final(self)@),
    {
        if frames_run >= MAX_CATCHUP {
            self.sim_deadline = now;
        }
    }

    /// Periodic hard resync of the streamed audio, before this turn's clip ships on
    /// top of the fresh cushion: the producer runs a hair faster than realtime, so the
    /// terminal's channel FIFO accrues an unplayed tail (audio drifting behind video).
    /// Returns the bytes to send, none when it is not due.
    pub fn resync_audio(&mut self, apc: &mut ApcAudio, now: u64) -> (out: Vec<u8>)
        requires
            apc_audio::is_valid(old(apc)@),
            now <= CLOCK_LIMIT_NS,
        ensures
            ({
                let due = old(self)@.resync_interval matches Some(iv) && since(
                    now,
                    old(self)@.resynced_at,
                ) >= iv;
                &&& due == resync_due(old(self)@, now)
                &&& final(self)@ == (if due {
                    Play { resynced_at: now, ..old(self)@ }
                } else {
                    old(self)@
                })
                &&& final(apc)@ == (if due {
                    apc_audio::reanchored(old(apc)@, audio_ms(now) as int)
                } else {
                    old(apc)@
                })
                &&& out@ == (if due {
                    apc_audio::flush_bytes() + apc_audio::arm_bytes()
                } else {
                    Seq::empty()
                })
            }),
            apc_audio::is_valid(final(apc)@),
    {
        if let Some(interval) = self.resync_interval {
            if now.saturating_sub(self.resynced_at) >= interval {
                self.resynced_at = now;
                return apc.resync(to_ms(now));
            }
        }
        Vec::new()
    }

    /// Whether to log the stream's health, about once a second.
    pub fn log_due(&mut self, now: u64) -> (r: bool)
        ensures
            r == (since(now, old(self)@.logged_at) >= SECOND_NS),
            final(self)@ == (if r {
                Play { logged_at: now, ..old(self)@ }
            } else {
                old(self)@
            }),
    {
        if now.saturating_sub(self.logged_at) >= SECOND_NS {
            self.logged_at = now;
            true
        } else {
            false
        }
    }

    /// Whether local playback starts in this turn, after pre-buffering.
    pub fn playback_starts(&mut self) -> (r: bool)
        ensures
            r == (old(self)@.prebuffer == 1),
            (final(self)@, r) == buffered(old(self)@),
            final(self)@ == (if old(self)@.prebuffer > 0 {
                Play { prebuffer: (old(self)@.prebuffer - 1) as u32, ..old(self)@ }
            } else {
                old(self)@
            }),
    {
        if self.prebuffer > 0 {
            self.prebuffer = self.prebuffer - 1;
            self.prebuffer == 0
        } else {
            false
        }
    }

    /// Whether to transmit a frame: at the capped rate, dropping it when the link is
    /// behind. The emulator already advanced, so the game keeps full speed and input
    /// stays responsive even while frames are skipped. A frame that is a keyframe
    /// repaints all of the screen.
    pub fn begin_frame(&mut self, renderer: &mut Renderer, frames_run: u32, now: u64) -> (r: bool)
        requires
            old(renderer).wf(),
        ensures
            r == (transmit_due(old(self)@, frames_run, now) && old(self)@.pace.skip == 0),
            r == paints(old(self)@, frames_run, now),
            r && keyframe_due(old(self)@, now) ==> final(renderer)@.force_repaint,
            final(self)@ == (if transmit_due(old(self)@, frames_run, now) {
                begun(old(self)@, now)
            } else {
                old(self)@
            }),
            final(renderer)@ == (if r && since(now, old(self)@.keyframe_at) >= KEYFRAME_NS {
                Canvas { force_repaint: true, ..old(renderer)@ }
            } else {
                old(renderer)@
            }),
            final(renderer).wf(),
    {
        let due = match self.last_render {
            Some(t) => now.saturating_sub(t) >= self.render_interval,
            None => true,
        };
        if frames_run == 0 || !due {
            return false;
        }
        self.last_render = Some(now);
        if self.pace.skip_frame() {
            return false;
        }
        // Periodic keyframe so corrupted cells self-heal.
        if now.saturating_sub(self.keyframe_at) >= KEYFRAME_NS {
            renderer.request_repaint();
            self.keyframe_at = now;
        }
        true
    }

    /// A frame was transmitted. The status line is refreshed once a second, and right
    /// after a resize (which cleared the old one).
    pub fn frame_sent(&mut self, now: u64) -> (r: FrameSent)
        requires
            old(self)@.frames < 0xffff_ffff,
        ensures
            (final(self)@, r) == sent(old(self)@, now),
    {
        let frames: u32 = self.frames + 1;
        let elapsed: u64 = now.saturating_sub(self.fps_at);
        let redraw = self.redraw;
        self.redraw = false;
        if elapsed >= SECOND_NS {
            self.frames = 0;
            self.fps_at = now;
            FrameSent { rate: Some(Rate { frames, elapsed }), redraw: true }
        } else {
            self.frames = frames;
            FrameSent { rate: None, redraw }
        }
    }

    /// Charge a frame's write+flush time to the pacer: if it overran the budget,
    /// upcoming frames are skipped until the link recovers.
    pub fn note(&mut self, took: u64)
        ensures
            final(self)@ == (Play { pace: pace::noted(old(self)@.pace, took as int), ..old(self)@ }),
    {
        self.pace.note(took);
    }

    /// How long to sleep until the next frame is due (no busy-spin). Oversleep is
    /// harmless: the catch-up repays it on the next turn, so the long-run emulation
    /// rate stays locked to wall-clock.
    pub fn nap(&self, now: u64) -> (r: u64)
        ensures
            r == (if self@.sim_deadline <= now {
                0
            } else if self@.sim_deadline - now < FRAME_NS {
                self@.sim_deadline - now
            } else {
                FRAME_NS as int
            }),
            r == rest(self@, now),
    {
        let left: u64 = self.sim_deadline.saturating_sub(now);
        if left < FRAME_NS {
            left
        } else {
            FRAME_NS
        }
    }

    /// The status line shows the take-over prompt.
    pub fn prompts(&self) -> (r: bool)
        ensures
            r == self@.attract_active,
    {
        self.attract_active
    }

    /// Columns of the terminal.
    pub fn columns(&self) -> (r: u16)
        ensures
            r == self@.size.0,
    {
        self.size.0
    }

    /// Frames transmitted since the last rate.
    pub fn frames(&self) -> (r: u32)
        ensures
            r == self@.frames,
    {
        self.frames
    }

    /// Save on exit, unless this was a pure attract demo that ran its timer out: a
    /// game the caller never chose or took over shouldn't touch their saves. A
    /// taken-over game saves like any normal session.
    pub fn saves(&self) -> (r: bool)
        ensures
            r == played(self@),
    {
        !self.attract || self.intervened
    }

    /// Whether the caller had the controls; false means that the attract timer
    /// elapsed. A game that was no demo always says true.
    pub fn intervened(&self) -> (r: bool)
        ensures
            r == played(self@),
    {
        !self.attract || self.intervened
    }
}

/// The caller chose the game, or took it over.
pub open spec fn played(p: Play) -> bool {
    !p.attract || p.intervened
}

/// The audio timeline's milliseconds.
pub open spec fn audio_ms(now: u64) -> u64 {
    now / 1_000_000
}

/// The audio timeline's milliseconds.
pub fn to_ms(now: u64) -> (ms: u64)
    requires
        now <= CLOCK_LIMIT_NS,
    ensures
        ms == audio_ms(now),
        ms <= apc_audio::CLOCK_LIMIT,
{
    now / 1_000_000
}

// ---------------------------------------------------------------------------
// Laws
// ---------------------------------------------------------------------------

/// Edges touch only who drives a button, and whether the game runs.
proof fn lemma_edges_keep(p: Play, edges: Seq<KeyEdge>)
    requires
        is_valid(p),
    ensures
        is_valid(on_edges(p, edges).0),
        on_edges(p, edges).0 == (Play {
            edge_driven: on_edges(p, edges).0.edge_driven,
            running: on_edges(p, edges).0.running,
            ..p
        }),
        !p.running ==> !on_edges(p, edges).0.running,
    decreases edges.len(),
{
    if edges.len() > 0 {
        lemma_edges_keep(p, edges.drop_last());
    }
}

/// Translated keys touch only when a button was seen, and whether the game runs.
proof fn lemma_keys_keep(p: Play, keys: Seq<Key>, now: u64)
    requires
        is_valid(p),
    ensures
        is_valid(on_keys(p, keys, now).0),
        on_keys(p, keys, now).0 == (Play {
            seen: on_keys(p, keys, now).0.seen,
            running: on_keys(p, keys, now).0.running,
            ..p
        }),
        !p.running ==> !on_keys(p, keys, now).0.running,
        (exists|i: int| 0 <= i < keys.len() && is_quit(#[trigger] keys[i])) ==> !on_keys(
            p,
            keys,
            now,
        ).0.running,
    decreases keys.len(),
{
    if keys.len() > 0 && !is_quit(keys[0]) {
        lemma_keys_keep(on_key(p, keys[0], now).0, keys.skip(1), now);
        if exists|i: int| 0 <= i < keys.len() && is_quit(#[trigger] keys[i]) {
            let i = choose|i: int| 0 <= i < keys.len() && is_quit(#[trigger] keys[i]);
            assert(is_quit(keys.skip(1)[i - 1]));
        }
    }
}

/// In an attract game any input hands over the controls, and does nothing else: it
/// presses no button and quits nothing.
pub proof fn law_wake_key_is_consumed(p: Play, keys: Seq<Key>, edges: Seq<KeyEdge>, now: u64)
    requires
        is_valid(p),
        p.attract_active,
        keys.len() > 0 || edges.len() > 0,
    ensures
        ({
            let (q, acts, turn) = controlled(p, keys, edges, now);
            &&& turn == Turn::Again
            &&& q.intervened && !q.attract_active && q.deadline is None
            &&& q.running == p.running
            &&& q.redraw
            &&& acts == releases(p.seen, now, 8)
        }),
{
}

/// Left alone, an attract game runs its time and not longer.
pub proof fn law_demo_runs_its_time(p: Play, now: u64)
    requires
        is_valid(p),
        p.running,
        p.deadline is Some,
    ensures
        controlled(p, Seq::empty(), Seq::empty(), now).2 == (if now >= p.deadline->0 {
            Turn::End
        } else {
            Turn::Go
        }),
{
}

/// Whether a game counts as the caller's own (it saves, and says so on its return)
/// changes in one way only: a demo becomes it when the caller takes over.
pub proof fn law_only_takeover_makes_a_demo_count(
    p: Play,
    keys: Seq<Key>,
    edges: Seq<KeyEdge>,
    now: u64,
)
    requires
        is_valid(p),
    ensures
        played(controlled(p, keys, edges, now).0) == (played(p) || (p.attract_active && (keys.len()
            > 0 || edges.len() > 0))),
{
    let held = Play { seen: still_seen(p.seen, now), ..p };
    lemma_edges_keep(timed(held, now), edges);
    lemma_keys_keep(on_edges(timed(held, now), edges).0, keys, now);
}

/// Once taken over, a game is a normal session for good: no timer, no prompt.
pub proof fn law_takeover_is_for_good(p: Play, keys: Seq<Key>, edges: Seq<KeyEdge>, now: u64)
    requires
        is_valid(p),
        !p.attract_active,
        p.deadline is None,
    ensures
        !controlled(p, keys, edges, now).0.attract_active,
        controlled(p, keys, edges, now).0.deadline is None,
        controlled(p, keys, edges, now).2 != Turn::Again,
{
    let held = Play { seen: still_seen(p.seen, now), ..p };
    lemma_edges_keep(timed(held, now), edges);
    lemma_keys_keep(on_edges(timed(held, now), edges).0, keys, now);
}

/// A quit key ends the game the caller plays, on whichever path it comes.
pub proof fn law_quit_key_ends_the_game(p: Play, keys: Seq<Key>, edges: Seq<KeyEdge>, now: u64)
    requires
        is_valid(p),
        !p.attract_active,
    ensures
        (exists|i: int| 0 <= i < keys.len() && is_quit(#[trigger] keys[i])) ==> controlled(
            p,
            keys,
            edges,
            now,
        ).2 == Turn::End,
        (exists|i: int|
            0 <= i < edges.len() && (#[trigger] edges[i]).pressed && (edges[i].code == EVDEV_ESC
                || edges[i].code == EVDEV_Q)) ==> controlled(p, keys, edges, now).2 == Turn::End,
{
    let held = timed(Play { seen: still_seen(p.seen, now), ..p }, now);
    lemma_edges_keep(held, edges);
    lemma_keys_keep(on_edges(held, edges).0, keys, now);
    if exists|i: int|
        0 <= i < edges.len() && (#[trigger] edges[i]).pressed && (edges[i].code == EVDEV_ESC
            || edges[i].code == EVDEV_Q) {
        let i = choose|i: int|
            0 <= i < edges.len() && (#[trigger] edges[i]).pressed && (edges[i].code == EVDEV_ESC
                || edges[i].code == EVDEV_Q);
        lemma_quit_edge(held, edges, i);
    }
}

proof fn lemma_quit_edge(p: Play, edges: Seq<KeyEdge>, i: int)
    requires
        is_valid(p),
        0 <= i < edges.len(),
        edges[i].pressed,
        edges[i].code == EVDEV_ESC || edges[i].code == EVDEV_Q,
    ensures
        !on_edges(p, edges).0.running,
    decreases edges.len(),
{
    if i < edges.len() - 1 {
        lemma_quit_edge(p, edges.drop_last(), i);
    }
}

/// A key that repeats presses its button once.
pub proof fn law_held_key_presses_once(p: Play, key: Key, first: u64, again: u64)
    requires
        is_valid(p),
    ensures
        on_key(on_key(p, key, first).0, key, again).1 == Seq::<Act>::empty(),
{
}

/// A button pressed by a translated key is released once it was not seen for the
/// timeout, and not before.
pub proof fn law_button_releases_by_timeout(p: Play, key: Key, button: Button, t: u64, now: u64)
    requires
        is_valid(p),
        input::button_of_key(key) == Some(button),
        !p.edge_driven[input::index_of(button)],
    ensures
        releases(on_key(p, key, t).0.seen, now, 8).contains(Act::Release(button)) <==> since(now, t)
            > BUTTON_TIMEOUT_NS,
{
    input::law_buttons_are_indexed(button);
    let i = input::index_of(button);
    lemma_releases(on_key(p, key, t).0.seen, now, 8, i);
}

/// The timeout spans auto-repeat gaps: a button whose key repeats in time neither
/// goes up nor down again.
pub proof fn law_repeated_key_holds_its_button(p: Play, key: Key, button: Button, t: u64, now: u64)
    requires
        is_valid(p),
        !p.attract_active,
        input::button_of_key(key) == Some(button),
        !p.edge_driven[input::index_of(button)],
        p.seen[input::index_of(button)] == Some(t),
        since(now, t) <= BUTTON_TIMEOUT_NS,
    ensures
        ({
            let (q, acts, turn) = controlled(p, seq![key], Seq::empty(), now);
            &&& !acts.contains(Act::Release(button)) && !acts.contains(Act::Press(button))
            &&& q.seen[input::index_of(button)] == Some(now)
        }),
{
    input::law_buttons_are_indexed(button);
    let i = input::index_of(button);
    lemma_releases(p.seen, now, 8, i);
    lemma_lapses_press_nothing(p.seen, now, 8, button);
    let held = timed(Play { seen: still_seen(p.seen, now), ..p }, now);
    assert(seq![key].skip(1) =~= Seq::empty());
    let lapses = releases(p.seen, now, 8);
    let none = Seq::<Act>::empty();
    let pressed = on_key(held, key, now).0;
    assert(on_keys(pressed, seq![key].skip(1), now) == (pressed, none));
    assert(on_keys(held, seq![key], now) == (on_key(held, key, now).0, none + none));
    assert(lapses + none + (none + none) =~= lapses);
}

proof fn lemma_lapses_press_nothing(seen: Seq<Option<u64>>, now: u64, n: nat, button: Button)
    ensures
        !releases(seen, now, n).contains(Act::Press(button)),
    decreases n,
{
    if n > 0 {
        lemma_lapses_press_nothing(seen, now, (n - 1) as nat, button);
        let before = releases(seen, now, (n - 1) as nat);
        let all = releases(seen, now, n);
        if all.contains(Act::Press(button)) {
            let k = choose|k: int| 0 <= k < all.len() && all[k] == Act::Press(button);
            assert(before[k] == all[k]);
        }
    }
}

proof fn lemma_releases(seen: Seq<Option<u64>>, now: u64, n: nat, i: int)
    requires
        seen.len() == BUTTON_COUNT,
        n <= BUTTON_COUNT,
        0 <= i < BUTTON_COUNT,
    ensures
        releases(seen, now, n).contains(Act::Release(input::button_of(i))) <==> i < n && lapsed(
            seen[i],
            now,
        ),
    decreases n,
{
    let act = Act::Release(input::button_of(i));
    if n > 0 {
        lemma_releases(seen, now, (n - 1) as nat, i);
        let before = releases(seen, now, (n - 1) as nat);
        let all = releases(seen, now, n);
        if lapsed(seen[n - 1], now) {
            if before.contains(act) {
                let k = choose|k: int| 0 <= k < before.len() && before[k] == act;
                assert(all[k] == act);
            }
            if i == n - 1 {
                assert(all[before.len() as int] == act);
            }
        }
    }
}

/// Once a button arrived as an edge, its translated duplicate does nothing: a
/// terminal that sends both doesn't double-fire.
pub proof fn law_edges_own_their_button(p: Play, edge: KeyEdge, key: Key, now: u64)
    requires
        is_valid(p),
        input::button_of_code(edge.code) is Some,
        input::button_of_code(edge.code) == input::button_of_key(key),
    ensures
        on_key(on_edge(p, edge).0, key, now) == (on_edge(p, edge).0, Seq::<Act>::empty()),
{
}

/// The frames that a turn emulates when the clock stands at `now`.
pub open spec fn turn_frames(p: Play, frames_run: u32, now: u64) -> nat
    decreases MAX_CATCHUP - frames_run,
{
    if frame_is_due(p, frames_run, now) {
        1 + turn_frames(
            Play { sim_deadline: (p.sim_deadline + FRAME_NS) as u64, ..p },
            (frames_run + 1) as u32,
            now,
        )
    } else {
        0
    }
}

/// Emulation is locked to wall-clock: a turn runs exactly the frames whose time has
/// come, or, when it is further behind than a turn may repay, that bound.
pub proof fn law_speed_is_locked_to_the_clock(p: Play, frames_run: u32, now: u64)
    requires
        p.sim_deadline <= 2 * CLOCK_LIMIT_NS,
        now <= CLOCK_LIMIT_NS,
        frames_run <= MAX_CATCHUP,
    ensures
        ({
            let n = turn_frames(p, frames_run, now);
            &&& n <= MAX_CATCHUP - frames_run
            &&& n > 0 ==> p.sim_deadline + (n - 1) * FRAME_NS <= now
            &&& n < MAX_CATCHUP - frames_run ==> now < p.sim_deadline + n * FRAME_NS
        }),
    decreases MAX_CATCHUP - frames_run,
{
    if frame_is_due(p, frames_run, now) {
        law_speed_is_locked_to_the_clock(
            Play { sim_deadline: (p.sim_deadline + FRAME_NS) as u64, ..p },
            (frames_run + 1) as u32,
            now,
        );
    }
}

/// The terminal is repainted at most once per interval, which bounds the bandwidth.
pub proof fn law_transmit_rate_is_capped(p: Play, t: u64, frames_run: u32, now: u64)
    ensures
        transmit_due(begun(p, t), frames_run, now) ==> since(now, t) >= p.render_interval,
{
}

/// A resize redraws the status line on the next frame.
pub proof fn law_resize_redraws_the_status(p: Play, report: Option<(u16, u16)>, t: u64, now: u64)
    requires
        new_size(p, report) is Some,
    ensures
        sent(reported(p, report, t), now).1.redraw,
        reported(p, report, t).size == new_size(p, report)->0,
{
}

/// The timing of a game: sixty frames a second, at most twelve of them repaid in a turn,
/// buttons held for 150 ms after their key was last seen, every cell repainted every
/// seven seconds, three turns of sound buffered first.
pub proof fn law_timing()
    ensures
        SECOND_NS == 1_000_000_000,
        SECOND_NS <= 60 * FRAME_NS < SECOND_NS + 60,
        MAX_CATCHUP == 12,
        BUTTON_TIMEOUT_NS == 150_000_000,
        KEYFRAME_NS == 7_000_000_000,
        PREBUFFER_TURNS == 3,
{
}

/// A game as it starts: running, with no button held; a demo where it has a time to run,
/// which ends that many seconds on. Streamed audio is resynced as often as asked, and
/// never for 0. The terminal counts as 80 columns by 24 rows until it says otherwise.
pub proof fn law_new_game(s: GameStart, now: u64, i: int)
    requires
        0 <= i < 8,
        now <= CLOCK_LIMIT_NS,
        s.attract_secs matches Some(secs) ==> secs <= 0xffff_ffff,
    ensures
        ({
            let p = started(s, now);
            &&& p.running && !p.intervened && p.redraw
            &&& p.attract == (s.attract_secs is Some) && p.attract_active == p.attract
            &&& s.attract_secs matches Some(secs) ==> p.deadline == Some(
                (now + secs * 1_000_000_000) as u64,
            )
            &&& s.attract_secs is None ==> p.deadline is None
            &&& played(p) == (s.attract_secs is None)
            &&& p.seen[i] is None && !p.edge_driven[i]
            &&& p.size == (80u16, 24u16)
            &&& p.sim_deadline == now && p.last_render is None
            &&& p.pace.budget == s.render_interval && p.pace.skip == 0
            &&& s.resync_secs == 0 ==> p.resync_interval is None
            &&& s.resync_secs > 0 ==> p.resync_interval == Some(
                (s.resync_secs * 1_000_000_000) as u64,
            )
            &&& p.prebuffer == (if s.audio {
                3u32
            } else {
                0u32
            })
        }),
{
}

/// **A key edge works its button.** The position of a button's key presses it on the way
/// down and releases it on the way up; Esc and Q end the game on the way down; other
/// positions do nothing.
pub proof fn law_edge_works_its_button(p: Play, edge: KeyEdge, button: Button)
    requires
        is_valid(p),
    ensures
        input::button_of_code(edge.code) == Some(button) ==> on_edge(p, edge).1 == seq![
            if edge.pressed {
                Act::Press(button)
            } else {
                Act::Release(button)
            },
        ] && on_edge(p, edge).0.running == p.running,
        input::button_of_code(edge.code) is None ==> on_edge(p, edge).1 == Seq::<Act>::empty()
            && on_edge(p, edge).0.running == (p.running && !(edge.pressed && (edge.code == 1
            || edge.code == 16))),
{
}

/// **A key presses its button** when it is first seen, and holds it when it is seen again;
/// other keys press none. A button that comes as edges is left to them.
pub proof fn law_key_presses_its_button(p: Play, key: Key, button: Button, now: u64)
    requires
        is_valid(p),
    ensures
        input::button_of_key(key) == Some(button) && !p.edge_driven[input::index_of(button)] ==> {
            let (q, acts) = on_key(p, key, now);
            &&& q.seen[input::index_of(button)] == Some(now)
            &&& acts == (if p.seen[input::index_of(button)] is None {
                seq![Act::Press(button)]
            } else {
                Seq::empty()
            })
        },
        input::button_of_key(key) is None ==> on_key(p, key, now) == (p, Seq::<Act>::empty()),
{
    input::law_buttons_are_indexed(button);
}

/// Esc and Q are the keys that end a game, and those behind them are not looked at.
pub proof fn law_quit_keys(p: Play, key: Key, rest: Seq<Key>, now: u64)
    ensures
        is_quit(key) <==> key == Key::Esc || key == Key::Char('q') || key == Key::Char('Q'),
        is_quit(key) ==> on_keys(p, seq![key] + rest, now) == (
            Play { running: false, ..p },
            Seq::<Act>::empty(),
        ),
{
    assert((seq![key] + rest)[0] == key);
}

/// Nothing else ends a game that is running: without a quit key on either path, and
/// before a demo's time is up, it goes on.
pub proof fn law_game_goes_on(p: Play, keys: Seq<Key>, edges: Seq<KeyEdge>, now: u64)
    requires
        is_valid(p),
        p.running,
        !p.attract_active,
        p.deadline matches Some(d) ==> now < d,
        forall|i: int| 0 <= i < keys.len() ==> !is_quit(#[trigger] keys[i]),
        forall|i: int|
            0 <= i < edges.len() ==> !((#[trigger] edges[i]).pressed && (edges[i].code == 1
                || edges[i].code == 16)),
    ensures
        controlled(p, keys, edges, now).2 == Turn::Go,
{
    let held = Play { seen: still_seen(p.seen, now), ..p };
    lemma_edges_keep_running(timed(held, now), edges);
    let q = on_edges(timed(held, now), edges).0;
    lemma_keys_keep_running(q, keys, now);
}

proof fn lemma_edges_keep_running(p: Play, edges: Seq<KeyEdge>)
    requires
        p.running,
        forall|i: int|
            0 <= i < edges.len() ==> !((#[trigger] edges[i]).pressed && (edges[i].code == 1
                || edges[i].code == 16)),
    ensures
        on_edges(p, edges).0.running,
    decreases edges.len(),
{
    if edges.len() > 0 {
        let head = edges.drop_last();
        assert forall|i: int| 0 <= i < head.len() implies !((#[trigger] head[i]).pressed && (
        head[i].code == 1 || head[i].code == 16)) by {
            assert(head[i] == edges[i]);
        }
        lemma_edges_keep_running(p, head);
        assert(edges[edges.len() - 1] == edges.last());
    }
}

proof fn lemma_keys_keep_running(p: Play, keys: Seq<Key>, now: u64)
    requires
        p.running,
        forall|i: int| 0 <= i < keys.len() ==> !is_quit(#[trigger] keys[i]),
    ensures
        on_keys(p, keys, now).0.running,
    decreases keys.len(),
{
    if keys.len() > 0 {
        let rest = keys.skip(1);
        assert forall|i: int| 0 <= i < rest.len() implies !is_quit(#[trigger] rest[i]) by {
            assert(rest[i] == keys[i + 1]);
        }
        lemma_keys_keep_running(on_key(p, keys[0], now).0, rest, now);
    }
}

/// A turn releases exactly the buttons whose keys were not seen for 150 ms, and forgets
/// them; it keeps the others.
pub proof fn law_lapsed_buttons_are_released(p: Play, button: Button, now: u64)
    requires
        is_valid(p),
    ensures
        ({
            let i = input::index_of(button);
            let (q, acts, turn) = controlled(p, Seq::empty(), Seq::empty(), now);
            let gone = p.seen[i] matches Some(t) && t + 150_000_000 < now;
            &&& acts.contains(Act::Release(button)) <==> gone
            &&& q.seen[i] == (if gone {
                None
            } else {
                p.seen[i]
            })
            &&& !acts.contains(Act::Press(button))
        }),
{
    let none = Seq::<Act>::empty();
    input::law_buttons_are_indexed(button);
    lemma_button_releases(p.seen, now, 8, button);
    let acts = controlled(p, Seq::empty(), Seq::empty(), now).1;
    assert(acts == releases(p.seen, now, 8));
}

proof fn lemma_button_releases(seen: Seq<Option<u64>>, now: u64, n: nat, button: Button)
    requires
        n <= 8,
        seen.len() == 8,
    ensures
        releases(seen, now, n).contains(Act::Release(button)) <==> input::index_of(button) < n
            && lapsed(seen[input::index_of(button)], now),
        !releases(seen, now, n).contains(Act::Press(button)),
    decreases n,
{
    if n > 0 {
        lemma_button_releases(seen, now, (n - 1) as nat, button);
        let before = releases(seen, now, (n - 1) as nat);
        let b = input::button_of(n - 1);
        input::law_buttons_are_indexed(button);
        assert(input::index_of(b) == n - 1);
        let all = releases(seen, now, n);
        if lapsed(seen[n - 1], now) {
            assert(all == before.push(Act::Release(b)));
            assert(all[before.len() as int] == Act::Release(b));
            if before.contains(Act::Release(button)) {
                let k = choose|k: int| 0 <= k < before.len() && before[k] == Act::Release(button);
                assert(all[k] == Act::Release(button));
            }
            if all.contains(Act::Press(button)) {
                let k = choose|k: int| 0 <= k < all.len() && all[k] == Act::Press(button);
                assert(before[k] == Act::Press(button));
            }
        }
    }
}

/// A key report counts only where the terminal sends edges, and is taken once.
pub proof fn law_edges_need_their_protocol(p: Play, d: Decoder)
    ensures
        p.edge_input ==> edges_of(p, d) == d.key_edges && edges_taken(p, d).key_edges.len() == 0,
        !p.edge_input ==> edges_of(p, d).len() == 0 && edges_taken(p, d) == d,
{
}

/// A size report of rows and columns is the terminal's new size where it differs from
/// the last one; one with a zero in it is not believed.
pub proof fn law_size_reports(p: Play, rows: u16, cols: u16)
    ensures
        new_size(p, Some((rows, cols))) == (if rows == 0 || cols == 0 || p.size == (cols, rows) {
            None
        } else {
            Some((cols, rows))
        }),
        new_size(p, None) is None,
{
}

/// The size is asked for once a second, but not while the link is being spared.
pub proof fn law_size_is_probed_once_a_second(p: Play, report: Option<(u16, u16)>, now: u64)
    ensures
        probe_due(p, now) <==> p.pace.skip == 0 && now >= p.probed_at + 1_000_000_000,
        probe_due(p, now) ==> reported(p, report, now).probed_at == now,
        !probe_due(p, now) ==> reported(p, report, now).probed_at == p.probed_at,
        new_size(p, report) is None ==> reported(p, report, now).size == p.size,
{
}

/// A frame goes out when something was emulated and the interval since the last one has
/// passed; the first at once. While the link is being spared it is skipped, and that
/// counts as one of those to skip.
pub proof fn law_frames_go_out_at_the_interval(p: Play, frames_run: u32, now: u64)
    ensures
        transmit_due(p, frames_run, now) <==> frames_run > 0 && match p.last_render {
            Some(t) => now >= t + p.render_interval || p.render_interval == 0,
            None => true,
        },
        paints(p, frames_run, now) <==> transmit_due(p, frames_run, now) && p.pace.skip == 0,
        begun(p, now).last_render == Some(now),
        p.pace.skip > 0 ==> begun(p, now).pace.skip == p.pace.skip - 1 && begun(p, now).keyframe_at
            == p.keyframe_at,
        p.pace.skip == 0 ==> begun(p, now).pace == p.pace && begun(p, now).keyframe_at == (if now
            >= p.keyframe_at + 7_000_000_000 {
            now
        } else {
            p.keyframe_at
        }),
        keyframe_due(p, now) <==> now >= p.keyframe_at + 7_000_000_000,
{
}

/// Once a second the frames that went out are counted up, this one among them, and the
/// count begins anew; the status line is drawn then, and whenever it was asked for.
pub proof fn law_rate_is_reported_once_a_second(p: Play, now: u64)
    requires
        p.frames < 0xffff_ffff,
    ensures
        ({
            let (q, s) = sent(p, now);
            &&& now >= p.fps_at + 1_000_000_000 ==> s.rate == Some(
                Rate { frames: (p.frames + 1) as u32, elapsed: (now - p.fps_at) as u64 },
            ) && q.frames == 0 && q.fps_at == now && s.redraw
            &&& now < p.fps_at + 1_000_000_000 ==> s.rate is None && q.frames == p.frames + 1
                && q.fps_at == p.fps_at && s.redraw == p.redraw
            &&& !q.redraw
        }),
{
}

/// A frame of the simulation moves its time on by one frame, and only when that has come
/// and the turn may still repay it. A turn that repaid all it may drops the rest.
pub proof fn law_simulation_steps(p: Play, frames_run: u32, now: u64)
    requires
        p.sim_deadline <= 2 * CLOCK_LIMIT_NS,
    ensures
        stepped(p, frames_run, now).sim_deadline == (if now >= p.sim_deadline && frames_run < 12 {
            p.sim_deadline + 16_666_667
        } else {
            p.sim_deadline as int
        }),
        repaid(p, frames_run, now).sim_deadline == (if frames_run >= 12 {
            now
        } else {
            p.sim_deadline
        }),
{
}

/// A turn sleeps until its next frame, and never longer than a frame.
pub proof fn law_rest_ends_with_the_next_frame(p: Play, now: u64)
    ensures
        0 <= rest(p, now) <= 16_666_667,
        p.sim_deadline <= now ==> rest(p, now) == 0,
        now < p.sim_deadline <= now + 16_666_667 ==> now + rest(p, now) == p.sim_deadline,
        p.sim_deadline > now + 16_666_667 ==> rest(p, now) == 16_666_667,
{
}

/// Streamed audio is resynced when its interval has passed, and never without one.
pub proof fn law_audio_is_resynced_at_its_interval(p: Play, now: u64)
    ensures
        p.resync_interval is None ==> !resync_due(p, now),
        p.resync_interval matches Some(iv) ==> iv > 0 ==> (resync_due(p, now) <==> now
            >= p.resynced_at + iv),
        audio_ms(now) * 1_000_000 <= now < (audio_ms(now) + 1) * 1_000_000,
{
}

/// Playback starts with the last of the turns that are buffered first, and once.
pub proof fn law_playback_starts_once(p: Play)
    ensures
        buffered(p).1 <==> p.prebuffer == 1,
        p.prebuffer == 0 ==> buffered(p) == (p, false),
        p.prebuffer > 0 ==> buffered(p).0.prebuffer == p.prebuffer - 1,
        p.prebuffer == 3 ==> {
            let (a, x) = buffered(p);
            let (b, y) = buffered(a);
            let (c, z) = buffered(b);
            let (d, w) = buffered(c);
            !x && !y && z && !w
        },
{
}

/// A game counts as played (it saves, and says so on its return) unless it is a demo that
/// nobody took over.
pub proof fn law_what_counts_as_played(p: Play)
    ensures
        played(p) <==> !(p.attract && !p.intervened),
{
}

} // verus!
